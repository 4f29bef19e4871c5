//! The scheme as plain values, and the scheme that a document describes.

use vstd::prelude::*;
use crate::error::{Failure, StructuralError};
use crate::json::{JsonValue, field, json_of};
use crate::scheme::{Skill, Vacancy, VacancyCoefficient};

verus! {

/// The scheme as plain values: the vacancy names, and for each skill its name
/// and its (vacancy name, weight) pairs.
pub struct SchemeModel {
    pub vacancies: Seq<Seq<char>>,
    pub skills: Seq<(Seq<char>, Seq<(Seq<char>, i64)>)>,
}

/// The names of a catalog, in its order.
pub open spec fn names_of(cat: Seq<Vacancy>) -> Seq<Seq<char>> {
    cat.map_values(|v: Vacancy| v.0@)
}

/// The names of modelled skills, in their order.
pub open spec fn skill_names(skills: Seq<(Seq<char>, Seq<(Seq<char>, i64)>)>) -> Seq<Seq<char>> {
    skills.map_values(|s: (Seq<char>, Seq<(Seq<char>, i64)>)| s.0)
}

/// Weights as plain values, their positions read in `cat`.
pub open spec fn coefficients_model(cs: Seq<VacancyCoefficient>, cat: Seq<Vacancy>) -> Seq<(Seq<char>, i64)> {
    cs.map_values(|c: VacancyCoefficient| (cat[c.0 as int].0@, c.1))
}

/// A skill as plain values, its positions read in `cat`.
pub open spec fn skill_model(s: Skill, cat: Seq<Vacancy>) -> (Seq<char>, Seq<(Seq<char>, i64)>) {
    (s.name@, coefficients_model(s.vacancies_coefficient@, cat))
}

/// Skills as plain values, their positions read in `cat`.
pub open spec fn skills_model(skills: Seq<Skill>, cat: Seq<Vacancy>) -> Seq<(Seq<char>, Seq<(Seq<char>, i64)>)> {
    skills.map_values(|s: Skill| skill_model(s, cat))
}

/// Every weight points into a catalog of `n` vacancies.
pub open spec fn resolves_one(cs: Seq<VacancyCoefficient>, n: nat) -> bool {
    forall|j: int| 0 <= j < cs.len() ==> (#[trigger] cs[j]).0 < n
}

/// Every weight of every skill points into a catalog of `n` vacancies.
pub open spec fn resolves_within(skills: Seq<Skill>, n: nat) -> bool {
    forall|i: int, j: int|
        0 <= i < skills.len() && 0 <= j < skills[i].vacancies_coefficient@.len()
            ==> (#[trigger] skills[i].vacancies_coefficient@[j]).0 < n
}

/// The catalog built from the entries of `vacancies` from position `i` on,
/// `acc` holding the names met before; a repeated name is kept once, where it first stands.
pub open spec fn catalog_from(items: Seq<JsonValue>, i: int, acc: Seq<Seq<char>>) -> Result<Seq<Seq<char>>, Failure>
    decreases items.len() - i,
{
    if i < 0 || i >= items.len() {
        Ok(acc)
    } else {
        match items[i] {
            JsonValue::Str(s) => catalog_from(items, i + 1, if acc.contains(s@) { acc } else { acc.push(s@) }),
            _ => Err(Failure::Malformed(StructuralError::VacancyNotString)),
        }
    }
}

/// The weights of the skill `skill` from member `i` of its object on, resolved in `cat`.
pub open spec fn coefficients_from(
    cat: Seq<Seq<char>>,
    skill: Seq<char>,
    members: Seq<(String, JsonValue)>,
    i: int,
    acc: Seq<(Seq<char>, i64)>,
) -> Result<Seq<(Seq<char>, i64)>, Failure>
    decreases members.len() - i,
{
    if i < 0 || i >= members.len() {
        Ok(acc)
    } else if !cat.contains(members[i].0@) {
        Err(Failure::UnknownVacancy { name: members[i].0@, skill })
    } else {
        match members[i].1 {
            JsonValue::Number(Some(w)) => coefficients_from(cat, skill, members, i + 1, acc.push((members[i].0@, w))),
            _ => Err(Failure::Malformed(StructuralError::WeightNotInteger)),
        }
    }
}

/// The skills built from member `i` of `skills` on; a skill whose name came
/// before is checked and then dropped.
pub open spec fn skills_from(
    cat: Seq<Seq<char>>,
    members: Seq<(String, JsonValue)>,
    i: int,
    acc: Seq<(Seq<char>, Seq<(Seq<char>, i64)>)>,
) -> Result<Seq<(Seq<char>, Seq<(Seq<char>, i64)>)>, Failure>
    decreases members.len() - i,
{
    if i < 0 || i >= members.len() {
        Ok(acc)
    } else {
        match members[i].1 {
            JsonValue::Object(inner) => match coefficients_from(cat, members[i].0@, inner@, 0, seq![]) {
                Ok(cs) => skills_from(
                    cat,
                    members,
                    i + 1,
                    if skill_names(acc).contains(members[i].0@) { acc } else { acc.push((members[i].0@, cs)) },
                ),
                Err(f) => Err(f),
            },
            _ => Err(Failure::Malformed(StructuralError::SkillNotObject)),
        }
    }
}

/// The scheme that `doc` describes, or the first failure met in it.
pub open spec fn scheme_of(doc: JsonValue) -> Result<SchemeModel, Failure> {
    match field(doc, "vacancies"@) {
        Some(JsonValue::Array(items)) => match catalog_from(items@, 0, seq![]) {
            Ok(cat) => match field(doc, "skills"@) {
                Some(JsonValue::Object(members)) => match skills_from(cat, members@, 0, seq![]) {
                    Ok(sk) => Ok(SchemeModel { vacancies: cat, skills: sk }),
                    Err(f) => Err(f),
                },
                _ => Err(Failure::Malformed(StructuralError::SkillsNotObject)),
            },
            Err(f) => Err(f),
        },
        _ => Err(Failure::Malformed(StructuralError::VacanciesNotArray)),
    }
}

/// The scheme that the bytes describe, or the first failure met in them.
pub open spec fn scheme_of_bytes(bytes: Seq<u8>) -> Result<SchemeModel, Failure> {
    match json_of(bytes) {
        Some(doc) => scheme_of(doc),
        None => Err(Failure::Malformed(StructuralError::NotJson)),
    }
}

} // verus!
