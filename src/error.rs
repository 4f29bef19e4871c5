//! Why building a scheme failed.

use vstd::prelude::*;

verus! {

/// What makes a document no scheme, apart from a vacancy it cannot resolve.
#[derive(Clone, Copy, Debug, PartialEq, Eq, Structural)]
pub enum StructuralError {
    /// The bytes are no JSON document.
    NotJson,
    /// `vacancies` is missing or no array.
    VacanciesNotArray,
    /// An entry of `vacancies` is no string.
    VacancyNotString,
    /// `skills` is missing or no object.
    SkillsNotObject,
    /// A skill's value is no object.
    SkillNotObject,
    /// A weight is no integer that fits in `i64`.
    WeightNotInteger,
}

/// std::io::Error, carried as an opaque value in `SchemaError::IoError`.
#[verifier::external_type_specification]
#[verifier::external_body]
pub struct ExIoError(std::io::Error);

/// Why a scheme could not be built.
#[derive(Debug)]
pub enum SchemaError {
    /// Reading the document failed.
    IoError(std::io::Error),
    /// The document does not have the shape of a scheme.
    Malformed(StructuralError),
    /// The skill `skill` weights the vacancy `name`, which the catalog lacks.
    Custom {
        name: String,
        skill: String,
        description: String,
    },
}

impl From<std::io::Error> for SchemaError {
    fn from(value: std::io::Error) -> (r: Self)
        ensures
            r == SchemaError::IoError(value),
    {
        SchemaError::IoError(value)
    }
}

impl vstd::std_specs::convert::FromSpecImpl<std::io::Error> for SchemaError {
    open spec fn obeys_from_spec() -> bool {
        true
    }

    open spec fn from_spec(v: std::io::Error) -> SchemaError {
        SchemaError::IoError(v)
    }
}

/// The failure that a `SchemaError` reports, over plain values.
pub enum Failure {
    Io,
    Malformed(StructuralError),
    UnknownVacancy { name: Seq<char>, skill: Seq<char> },
}

impl SchemaError {
    pub open spec fn failure(&self) -> Failure {
        match self {
            SchemaError::IoError(_) => Failure::Io,
            SchemaError::Malformed(k) => Failure::Malformed(*k),
            SchemaError::Custom { name, skill, .. } => Failure::UnknownVacancy { name: name@, skill: skill@ },
        }
    }
}

} // verus!
