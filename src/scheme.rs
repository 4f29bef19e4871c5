//! The vacancy catalog, the skills, and the scheme that holds both.

use vstd::prelude::*;
use vstd::string::*;
use crate::error::{Failure, SchemaError, StructuralError};
use crate::json::{JsonValue, get_field, parse_json};
use crate::laws::{lemma_catalog_distinct, lemma_skills_distinct};
use crate::model::{SchemeModel, catalog_from, coefficients_from, coefficients_model, names_of, resolves_one, resolves_within, scheme_of, scheme_of_bytes, skill_names, skills_from, skills_model};

verus! {

/// A named role of the catalog.
#[derive(Clone, Debug, PartialEq, Eq, Hash)]
pub struct Vacancy(pub String);

impl From<String> for Vacancy {
    fn from(value: String) -> (r: Self)
        ensures
            r.0 == value,
    {
        Vacancy(value)
    }
}

impl vstd::std_specs::convert::FromSpecImpl<String> for Vacancy {
    open spec fn obeys_from_spec() -> bool {
        true
    }

    open spec fn from_spec(v: String) -> Vacancy {
        Vacancy(v)
    }
}

/// A skill's weight for one vacancy: the vacancy's position in the
/// scheme's catalog, and the weight.
#[derive(Clone, Copy, Debug, PartialEq, Eq, Hash)]
pub struct VacancyCoefficient(pub usize, pub i64);

impl VacancyCoefficient {
    /// The weight `coefficient` for the vacancy at position `vacancy` of a catalog.
    pub fn new(vacancy: usize, coefficient: i64) -> (r: Self)
        ensures
            r.0 == vacancy,
            r.1 == coefficient,
    {
        VacancyCoefficient(vacancy, coefficient)
    }
}

/// A named competency and its weights, in the order the document gives them.
/// Two skills are equal when their names are, whatever their weights.
#[derive(Clone, Debug)]
pub struct Skill {
    pub name: String,
    pub vacancies_coefficient: Vec<VacancyCoefficient>,
}

impl PartialEq for Skill {
    fn eq(&self, other: &Skill) -> (r: bool) {
        self.name == other.name
    }
}

impl vstd::std_specs::cmp::PartialEqSpecImpl for Skill {
    open spec fn obeys_eq_spec() -> bool {
        true
    }

    open spec fn eq_spec(&self, other: &Skill) -> bool {
        self.name@ == other.name@
    }
}

impl Eq for Skill {}

/// The catalog of vacancies and the skills that weight them.
#[derive(Clone, Debug)]
pub struct CoefficientScheme {
    vacancies: Vec<Vacancy>,
    skills: Vec<Skill>,
}

impl CoefficientScheme {
    /// The vacancies, in catalog order.
    pub closed spec fn catalog(&self) -> Seq<Vacancy> {
        self.vacancies@
    }

    /// The skills, in the order they were first met.
    pub closed spec fn skill_list(&self) -> Seq<Skill> {
        self.skills@
    }

    /// The scheme as plain values.
    pub open spec fn view(&self) -> SchemeModel {
        SchemeModel {
            vacancies: names_of(self.catalog()),
            skills: skills_model(self.skill_list(), self.catalog()),
        }
    }

    /// Names are unique, and every weight points into the catalog.
    pub open spec fn wf(&self) -> bool {
        &&& names_of(self.catalog()).no_duplicates()
        &&& skill_names(self@.skills).no_duplicates()
        &&& resolves_within(self.skill_list(), self.catalog().len())
    }

    /// Builds the scheme from the JSON document in `bytes`.
    pub fn new(bytes: &[u8]) -> (r: Result<CoefficientScheme, SchemaError>)
        ensures
            scheme_of_bytes(bytes@) is Ok <==> r is Ok,
            r matches Ok(s) ==> s.wf() && scheme_of_bytes(bytes@) == Ok::<SchemeModel, Failure>(s@),
            r matches Err(e) ==> scheme_of_bytes(bytes@) == Err::<SchemeModel, Failure>(e.failure()),
    {
        match parse_json(bytes) {
            Some(doc) => CoefficientScheme::from_json(&doc),
            None => Err(SchemaError::Malformed(StructuralError::NotJson)),
        }
    }

    /// Builds the scheme from a parsed document: first the catalog from the
    /// array `vacancies`, then each skill of the object `skills`, each weight
    /// resolved in that catalog.
    pub fn from_json(doc: &JsonValue) -> (r: Result<CoefficientScheme, SchemaError>)
        ensures
            scheme_of(*doc) is Ok <==> r is Ok,
            r matches Ok(s) ==> s.wf() && scheme_of(*doc) == Ok::<SchemeModel, Failure>(s@),
            r matches Err(e) ==> scheme_of(*doc) == Err::<SchemeModel, Failure>(e.failure()),
    {
        let vkey = String::from_str("vacancies");
        let items = match get_field(doc, &vkey) {
            Some(JsonValue::Array(items)) => items,
            _ => {
                return Err(SchemaError::Malformed(StructuralError::VacanciesNotArray));
            },
        };
        let vacancies = match build_catalog(items) {
            Ok(c) => c,
            Err(e) => {
                return Err(e);
            },
        };
        let skey = String::from_str("skills");
        let members = match get_field(doc, &skey) {
            Some(JsonValue::Object(members)) => members,
            _ => {
                return Err(SchemaError::Malformed(StructuralError::SkillsNotObject));
            },
        };
        let skills = match build_skills(&vacancies, members) {
            Ok(sk) => sk,
            Err(e) => {
                return Err(e);
            },
        };
        proof {
            lemma_catalog_distinct(items@, 0, seq![]);
            lemma_skills_distinct(names_of(vacancies@), members@, 0, seq![]);
        }
        Ok(CoefficientScheme { vacancies, skills })
    }

    /// The vacancy catalog; a weight's position indexes it.
    pub fn get_vacancies(&self) -> (r: &Vec<Vacancy>)
        ensures
            r@ == self.catalog(),
    {
        &self.vacancies
    }

    /// The skills, each name once.
    pub fn get_skills(&self) -> (r: &Vec<Skill>)
        ensures
            r@ == self.skill_list(),
    {
        &self.skills
    }
}

/// The catalog from the entries of `vacancies`.
fn build_catalog(items: &Vec<JsonValue>) -> (r: Result<Vec<Vacancy>, SchemaError>)
    ensures
        r matches Ok(cat) ==> catalog_from(items@, 0, seq![]) == Ok::<Seq<Seq<char>>, Failure>(names_of(cat@)),
        r matches Err(e) ==> catalog_from(items@, 0, seq![]) == Err::<Seq<Seq<char>>, Failure>(e.failure()),
{
    let mut cat: Vec<Vacancy> = Vec::new();
    let mut i: usize = 0;
    proof {
        assert(names_of(cat@) =~= seq![]);
    }
    while i < items.len()
        invariant
            i <= items@.len(),
            catalog_from(items@, 0, seq![]) == catalog_from(items@, i as int, names_of(cat@)),
        decreases items.len() - i,
    {
        match &items[i] {
            JsonValue::Str(s) => {
                let ghost before = cat@;
                match find_vacancy(&cat, s) {
                    Some(j) => {
                        assert(names_of(cat@)[j as int] == s@);
                    },
                    None => {
                        cat.push(Vacancy(s.clone()));
                        assert(names_of(cat@) =~= names_of(before).push(s@));
                    },
                }
                assert(catalog_from(items@, i as int, names_of(before)) == catalog_from(
                    items@,
                    i + 1,
                    names_of(cat@),
                ));
            },
            _ => {
                return Err(SchemaError::Malformed(StructuralError::VacancyNotString));
            },
        }
        i = i + 1;
    }
    Ok(cat)
}

/// The weights of the skill `skill`, resolved in `cat`.
fn build_coefficients(cat: &Vec<Vacancy>, skill: &String, members: &Vec<(String, JsonValue)>) -> (r: Result<
    Vec<VacancyCoefficient>,
    SchemaError,
>)
    ensures
        r matches Ok(cs) ==> resolves_one(cs@, cat@.len()) && coefficients_from(names_of(cat@), skill@, members@, 0, seq![])
            == Ok::<Seq<(Seq<char>, i64)>, Failure>(coefficients_model(cs@, cat@)),
        r matches Err(e) ==> coefficients_from(names_of(cat@), skill@, members@, 0, seq![]) == Err::<
            Seq<(Seq<char>, i64)>,
            Failure,
        >(e.failure()),
{
    let mut cs: Vec<VacancyCoefficient> = Vec::new();
    let mut i: usize = 0;
    proof {
        assert(coefficients_model(cs@, cat@) =~= seq![]);
    }
    while i < members.len()
        invariant
            i <= members@.len(),
            resolves_one(cs@, cat@.len()),
            coefficients_from(names_of(cat@), skill@, members@, 0, seq![]) == coefficients_from(
                names_of(cat@),
                skill@,
                members@,
                i as int,
                coefficients_model(cs@, cat@),
            ),
        decreases members.len() - i,
    {
        let name = &members[i].0;
        let j = match find_vacancy(cat, name) {
            Some(j) => {
                assert(names_of(cat@)[j as int] == name@);
                j
            },
            None => {
                let description = String::from_str("vacancy ").concat(name.as_str()).concat(
                    " weighted by skill ",
                ).concat(skill.as_str()).concat(" is not in the catalog");
                return Err(SchemaError::Custom { name: name.clone(), skill: skill.clone(), description });
            },
        };
        match &members[i].1 {
            JsonValue::Number(Some(w)) => {
                let ghost before = cs@;
                cs.push(VacancyCoefficient::new(j, *w));
                proof {
                    assert(coefficients_model(cs@, cat@) =~= coefficients_model(before, cat@).push((name@, *w)));
                }
            },
            _ => {
                return Err(SchemaError::Malformed(StructuralError::WeightNotInteger));
            },
        }
        i = i + 1;
    }
    Ok(cs)
}

/// The skills of the object `skills`, each resolved in `cat`.
fn build_skills(cat: &Vec<Vacancy>, members: &Vec<(String, JsonValue)>) -> (r: Result<Vec<Skill>, SchemaError>)
    ensures
        r matches Ok(sk) ==> resolves_within(sk@, cat@.len()) && skills_from(names_of(cat@), members@, 0, seq![])
            == Ok::<Seq<(Seq<char>, Seq<(Seq<char>, i64)>)>, Failure>(skills_model(sk@, cat@)),
        r matches Err(e) ==> skills_from(names_of(cat@), members@, 0, seq![]) == Err::<
            Seq<(Seq<char>, Seq<(Seq<char>, i64)>)>,
            Failure,
        >(e.failure()),
{
    let mut sk: Vec<Skill> = Vec::new();
    let mut i: usize = 0;
    proof {
        assert(skills_model(sk@, cat@) =~= seq![]);
    }
    while i < members.len()
        invariant
            i <= members@.len(),
            resolves_within(sk@, cat@.len()),
            skills_from(names_of(cat@), members@, 0, seq![]) == skills_from(
                names_of(cat@),
                members@,
                i as int,
                skills_model(sk@, cat@),
            ),
        decreases members.len() - i,
    {
        let name = &members[i].0;
        let inner = match &members[i].1 {
            JsonValue::Object(inner) => inner,
            _ => {
                return Err(SchemaError::Malformed(StructuralError::SkillNotObject));
            },
        };
        let cs = match build_coefficients(cat, name, inner) {
            Ok(cs) => cs,
            Err(e) => {
                return Err(e);
            },
        };
        let known = has_skill(&sk, name);
        proof {
            assert(skill_names(skills_model(sk@, cat@)) =~= sk@.map_values(|s: Skill| s.name@));
        }
        if !known {
            let ghost before = sk@;
            let ghost pushed = cs@;
            sk.push(Skill { name: name.clone(), vacancies_coefficient: cs });
            proof {
                assert forall|a: int, b: int|
                    0 <= a < sk@.len() && 0 <= b < sk@[a].vacancies_coefficient@.len() implies (
                    #[trigger] sk@[a].vacancies_coefficient@[b]).0 < cat@.len() by {
                    if a < before.len() {
                        assert(sk@[a] == before[a]);
                        assert(before[a].vacancies_coefficient@[b].0 < cat@.len());
                    } else {
                        assert(sk@[a].vacancies_coefficient@ == pushed);
                        assert(pushed[b].0 < cat@.len());
                    }
                }
                assert(skills_model(sk@, cat@) =~= skills_model(before, cat@).push(
                    (name@, coefficients_model(pushed, cat@)),
                ));
            }
        }
        i = i + 1;
    }
    Ok(sk)
}

/// Position of the vacancy `name` in `cat`.
fn find_vacancy(cat: &Vec<Vacancy>, name: &String) -> (r: Option<usize>)
    ensures
        match r {
            Some(j) => j < cat@.len() && cat@[j as int].0@ == name@,
            None => !names_of(cat@).contains(name@),
        },
{
    let mut j: usize = 0;
    while j < cat.len()
        invariant
            j <= cat@.len(),
            forall|k: int| 0 <= k < j ==> cat@[k].0@ != name@,
        decreases cat.len() - j,
    {
        if cat[j].0 == *name {
            return Some(j);
        }
        j = j + 1;
    }
    None
}

/// Whether a skill named `name` stands in `skills`.
fn has_skill(skills: &Vec<Skill>, name: &String) -> (r: bool)
    ensures
        r == skills@.map_values(|s: Skill| s.name@).contains(name@),
{
    let mut j: usize = 0;
    while j < skills.len()
        invariant
            j <= skills@.len(),
            forall|k: int| 0 <= k < j ==> skills@[k].name@ != name@,
        decreases skills.len() - j,
    {
        if skills[j].name == *name {
            assert(skills@.map_values(|s: Skill| s.name@)[j as int] == name@);
            return true;
        }
        j = j + 1;
    }
    false
}

} // verus!
