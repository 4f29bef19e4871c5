use coefficient_scheme::json::{get_field, JsonValue};
use coefficient_scheme::error::{SchemaError, StructuralError};
use coefficient_scheme::scheme::{CoefficientScheme, Skill, Vacancy, VacancyCoefficient};

fn build(text: &str) -> Result<CoefficientScheme, SchemaError> {
    CoefficientScheme::new(text.as_bytes())
}

fn names(scheme: &CoefficientScheme) -> Vec<String> {
    scheme.get_vacancies().iter().map(|v| v.0.clone()).collect()
}

fn skill<'a>(scheme: &'a CoefficientScheme, name: &str) -> &'a Skill {
    scheme.get_skills().iter().find(|s| s.name == name).unwrap()
}

fn weights(scheme: &CoefficientScheme, s: &Skill) -> Vec<(String, i64)> {
    s.vacancies_coefficient.iter().map(|c| (scheme.get_vacancies()[c.0].0.clone(), c.1)).collect()
}

fn structural(r: Result<CoefficientScheme, SchemaError>) -> StructuralError {
    match r {
        Err(SchemaError::Malformed(k)) => k,
        other => panic!("expected a structural error, got {:?}", other),
    }
}

fn text(s: &str) -> String {
    s.to_string()
}

#[test]
fn round_trip_two_vacancies_one_skill() {
    let scheme = build(r#"{"vacancies":["A","B"],"skills":{"s1":{"A":3,"B":-2}}}"#).unwrap();
    assert_eq!(names(&scheme), vec![text("A"), text("B")]);
    assert_eq!(scheme.get_skills().len(), 1);
    let s1 = skill(&scheme, "s1");
    let mut got = weights(&scheme, s1);
    got.sort();
    assert_eq!(got, vec![(text("A"), 3), (text("B"), -2)]);
}

#[test]
fn every_weight_points_into_the_catalog() {
    let scheme = build(r#"{"vacancies":["x","y","z"],"skills":{"a":{"z":1,"x":2},"b":{"y":0},"c":{}}}"#).unwrap();
    let n = scheme.get_vacancies().len();
    for s in scheme.get_skills() {
        for c in &s.vacancies_coefficient {
            assert!(c.0 < n);
        }
    }
    assert_eq!(weights(&scheme, skill(&scheme, "b")), vec![(text("y"), 0)]);
    assert!(skill(&scheme, "c").vacancies_coefficient.is_empty());
}

#[test]
fn repeated_vacancy_names_are_kept_once() {
    let scheme = build(r#"{"vacancies":["A","B","A","C","B"],"skills":{}}"#).unwrap();
    assert_eq!(names(&scheme), vec![text("A"), text("B"), text("C")]);
    assert!(scheme.get_skills().is_empty());
}

#[test]
fn repeated_skill_names_keep_the_first() {
    let first = JsonValue::Object(vec![(text("A"), JsonValue::Number(Some(1)))]);
    let second = JsonValue::Object(vec![(text("A"), JsonValue::Number(Some(9)))]);
    let doc = JsonValue::Object(vec![
        (text("vacancies"), JsonValue::Array(vec![JsonValue::Str(text("A"))])),
        (text("skills"), JsonValue::Object(vec![(text("s"), first), (text("s"), second)])),
    ]);
    let scheme = CoefficientScheme::from_json(&doc).unwrap();
    assert_eq!(scheme.get_skills().len(), 1);
    assert_eq!(weights(&scheme, skill(&scheme, "s")), vec![(text("A"), 1)]);
}

#[test]
fn repeated_skill_is_still_checked() {
    let first = JsonValue::Object(vec![(text("A"), JsonValue::Number(Some(1)))]);
    let second = JsonValue::Object(vec![(text("Q"), JsonValue::Number(Some(9)))]);
    let doc = JsonValue::Object(vec![
        (text("vacancies"), JsonValue::Array(vec![JsonValue::Str(text("A"))])),
        (text("skills"), JsonValue::Object(vec![(text("s"), first), (text("s"), second)])),
    ]);
    match CoefficientScheme::from_json(&doc) {
        Err(SchemaError::Custom { name, skill, .. }) => {
            assert_eq!(name, "Q");
            assert_eq!(skill, "s");
        },
        other => panic!("unexpected {:?}", other),
    }
}

#[test]
fn unknown_vacancy_is_reported_with_its_skill() {
    match build(r#"{"vacancies":["A"],"skills":{"s1":{"A":1,"Z":4}}}"#) {
        Err(SchemaError::Custom { name, skill, description }) => {
            assert_eq!(name, "Z");
            assert_eq!(skill, "s1");
            assert!(description.contains("Z"));
            assert!(description.contains("s1"));
        },
        other => panic!("unexpected {:?}", other),
    }
}

#[test]
fn missing_vacancies_is_structural() {
    assert_eq!(structural(build(r#"{"skills":{}}"#)), StructuralError::VacanciesNotArray);
}

#[test]
fn vacancies_not_an_array_is_structural() {
    assert_eq!(structural(build(r#"{"vacancies":"A","skills":{}}"#)), StructuralError::VacanciesNotArray);
    assert_eq!(structural(build(r#"["A"]"#)), StructuralError::VacanciesNotArray);
}

#[test]
fn vacancy_not_a_string_is_structural() {
    assert_eq!(structural(build(r#"{"vacancies":["A",7],"skills":{}}"#)), StructuralError::VacancyNotString);
}

#[test]
fn missing_skills_is_structural() {
    assert_eq!(structural(build(r#"{"vacancies":["A"]}"#)), StructuralError::SkillsNotObject);
    assert_eq!(structural(build(r#"{"vacancies":["A"],"skills":[]}"#)), StructuralError::SkillsNotObject);
}

#[test]
fn skill_not_an_object_is_structural() {
    assert_eq!(structural(build(r#"{"vacancies":["A"],"skills":{"s":3}}"#)), StructuralError::SkillNotObject);
}

#[test]
fn weight_not_an_integer_is_structural() {
    assert_eq!(structural(build(r#"{"vacancies":["A"],"skills":{"s":{"A":1.5}}}"#)), StructuralError::WeightNotInteger);
    assert_eq!(structural(build(r#"{"vacancies":["A"],"skills":{"s":{"A":"1"}}}"#)), StructuralError::WeightNotInteger);
    assert_eq!(
        structural(build(r#"{"vacancies":["A"],"skills":{"s":{"A":9223372036854775808}}}"#)),
        StructuralError::WeightNotInteger
    );
}

#[test]
fn largest_and_smallest_weights_are_kept() {
    let scheme = build(
        r#"{"vacancies":["A","B"],"skills":{"s":{"A":9223372036854775807,"B":-9223372036854775808}}}"#,
    )
    .unwrap();
    let mut got = weights(&scheme, skill(&scheme, "s"));
    got.sort();
    assert_eq!(got, vec![(text("A"), i64::MAX), (text("B"), i64::MIN)]);
}

#[test]
fn bytes_that_are_no_json_are_structural() {
    assert_eq!(structural(build("{\"vacancies\": [")), StructuralError::NotJson);
    assert_eq!(structural(build("")), StructuralError::NotJson);
}

#[test]
fn empty_scheme() {
    let scheme = build(r#"{"vacancies":[],"skills":{}}"#).unwrap();
    assert!(scheme.get_vacancies().is_empty());
    assert!(scheme.get_skills().is_empty());
}

#[test]
fn rebuilding_gives_the_same_scheme() {
    let doc = r#"{"vacancies":["A","B","C"],"skills":{"s1":{"A":3,"B":-2},"s2":{"C":5}}}"#;
    let first = build(doc).unwrap();
    let second = build(doc).unwrap();
    assert_eq!(names(&first), names(&second));
    assert_eq!(first.get_skills().len(), second.get_skills().len());
    for s in first.get_skills() {
        let mut a = weights(&first, s);
        let mut b = weights(&second, skill(&second, &s.name));
        a.sort();
        b.sort();
        assert_eq!(a, b);
    }
}

#[test]
fn field_lookup_takes_the_first_member() {
    let doc = JsonValue::Object(vec![
        (text("k"), JsonValue::Bool(true)),
        (text("k"), JsonValue::Bool(false)),
    ]);
    assert!(matches!(get_field(&doc, &text("k")), Some(JsonValue::Bool(true))));
    assert!(get_field(&doc, &text("other")).is_none());
    assert!(get_field(&JsonValue::Null, &text("k")).is_none());
}

#[test]
fn coefficient_and_vacancy_constructors() {
    let c = VacancyCoefficient::new(2, -7);
    assert_eq!(c.0, 2);
    assert_eq!(c.1, -7);
    let v: Vacancy = text("dev").into();
    assert_eq!(v, Vacancy(text("dev")));
}

#[test]
fn io_error_converts() {
    let e: SchemaError = std::io::Error::new(std::io::ErrorKind::NotFound, "gone").into();
    assert!(matches!(e, SchemaError::IoError(_)));
}

#[test]
fn skills_compare_by_name() {
    let a = Skill { name: text("s"), vacancies_coefficient: vec![VacancyCoefficient::new(0, 1)] };
    let b = Skill { name: text("s"), vacancies_coefficient: vec![] };
    let c = Skill { name: text("t"), vacancies_coefficient: vec![] };
    assert!(a == b);
    assert!(a != c);
}
