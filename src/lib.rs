//! Loads a coefficient scheme: a catalog of named vacancies and a set of
//! named skills, each weighting some of those vacancies with an integer.

pub mod error;
pub mod json;
pub mod laws;
pub mod model;
pub mod scheme;
