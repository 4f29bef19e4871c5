//! What holds of every scheme built from a document.

use vstd::prelude::*;
use crate::error::{Failure, StructuralError};
use crate::json::{JsonValue, field};
use crate::model::{SchemeModel, catalog_from, coefficients_from, scheme_of, scheme_of_bytes, skill_names, skills_from};
use crate::scheme::CoefficientScheme;

verus! {

/// `v` is the string `x`.
pub open spec fn is_entry(v: JsonValue, x: Seq<char>) -> bool {
    v matches JsonValue::Str(s) && s@ == x
}

/// The strings among the entries of `items` from position `i` on.
pub open spec fn entries_from(items: Seq<JsonValue>, i: int) -> Set<Seq<char>> {
    Set::new(|x: Seq<char>| exists|k: int| i <= k < items.len() && #[trigger] is_entry(items[k], x))
}

/// The member names of `members` from position `i` on.
pub open spec fn member_names_from(members: Seq<(String, JsonValue)>, i: int) -> Set<Seq<char>> {
    Set::new(|x: Seq<char>| exists|k: int| i <= k < members.len() && (#[trigger] members[k]).0@ == x)
}

proof fn lemma_push_to_set<A>(s: Seq<A>, x: A)
    ensures
        s.push(x).to_set() =~= s.to_set().insert(x),
        !s.contains(x) && s.no_duplicates() ==> s.push(x).no_duplicates(),
{
    assert forall|y: A| s.push(x).contains(y) <==> s.to_set().insert(x).contains(y) by {
        if s.push(x).contains(y) {
            let k = choose|k: int| 0 <= k < s.push(x).len() && s.push(x)[k] == y;
            if k < s.len() {
                assert(s[k] == y);
            }
        }
        if s.contains(y) {
            let k = choose|k: int| 0 <= k < s.len() && s[k] == y;
            assert(s.push(x)[k] == y);
        }
        if y == x {
            assert(s.push(x)[s.len() as int] == y);
        }
    }
    if !s.contains(x) && s.no_duplicates() {
        assert forall|a: int, b: int| 0 <= a < s.push(x).len() && 0 <= b < s.push(x).len() && a != b implies s.push(x)[a]
            != s.push(x)[b] by {
            if a == s.len() {
                assert(s[b] == s.push(x)[b]);
            } else if b == s.len() {
                assert(s[a] == s.push(x)[a]);
            }
        }
    }
}

/// The catalog built from position `i` on holds each name once: those of
/// `acc` and the strings met from `i` on.
pub(crate) proof fn lemma_catalog_distinct(items: Seq<JsonValue>, i: int, acc: Seq<Seq<char>>)
    requires
        0 <= i,
        acc.no_duplicates(),
    ensures
        catalog_from(items, i, acc) matches Ok(c) ==> c.no_duplicates() && c.to_set() == acc.to_set().union(
            entries_from(items, i),
        ),
    decreases items.len() - i,
{
    if i >= items.len() {
        assert(acc.to_set().union(entries_from(items, i)) =~= acc.to_set());
    } else {
        match items[i] {
            JsonValue::Str(s) => {
                let acc2 = if acc.contains(s@) {
                    acc
                } else {
                    acc.push(s@)
                };
                lemma_push_to_set(acc, s@);
                lemma_catalog_distinct(items, i + 1, acc2);
                assert(acc2.to_set() =~= acc.to_set().insert(s@));
                assert(is_entry(items[i], s@));
                assert forall|x: Seq<char>| entries_from(items, i).contains(x) <==> #[trigger] entries_from(
                    items,
                    i + 1,
                ).insert(s@).contains(x) by {
                    if entries_from(items, i).contains(x) && x != s@ {
                        let k = choose|k: int| i <= k < items.len() && #[trigger] is_entry(items[k], x);
                        assert(k != i);
                    }
                }
                assert(acc.to_set().union(entries_from(items, i)) =~= acc2.to_set().union(entries_from(items, i + 1)));
            },
            _ => {},
        }
    }
}

/// The skills built from position `i` on hold each name once: those of
/// `acc` and the member names met from `i` on.
pub(crate) proof fn lemma_skills_distinct(
    cat: Seq<Seq<char>>,
    members: Seq<(String, JsonValue)>,
    i: int,
    acc: Seq<(Seq<char>, Seq<(Seq<char>, i64)>)>,
)
    requires
        0 <= i,
        skill_names(acc).no_duplicates(),
    ensures
        skills_from(cat, members, i, acc) matches Ok(sk) ==> skill_names(sk).no_duplicates() && skill_names(sk).to_set()
            == skill_names(acc).to_set().union(member_names_from(members, i)),
    decreases members.len() - i,
{
    if i >= members.len() {
        assert(skill_names(acc).to_set().union(member_names_from(members, i)) =~= skill_names(acc).to_set());
    } else {
        match members[i].1 {
            JsonValue::Object(inner) => match coefficients_from(cat, members[i].0@, inner@, 0, seq![]) {
                Ok(cs) => {
                    let name = members[i].0@;
                    let acc2 = if skill_names(acc).contains(name) {
                        acc
                    } else {
                        acc.push((name, cs))
                    };
                    assert(skill_names(acc.push((name, cs))) =~= skill_names(acc).push(name));
                    lemma_push_to_set(skill_names(acc), name);
                    lemma_skills_distinct(cat, members, i + 1, acc2);
                    assert(skill_names(acc2).to_set() =~= skill_names(acc).to_set().insert(name));
                    assert forall|x: Seq<char>| member_names_from(members, i).contains(x) <==> #[trigger] member_names_from(
                        members,
                        i + 1,
                    ).insert(name).contains(x) by {
                        if member_names_from(members, i).contains(x) && x != name {
                            let k = choose|k: int| i <= k < members.len() && (#[trigger] members[k]).0@ == x;
                            assert(k != i);
                        }
                        if x == name {
                            assert(members[i].0@ == x);
                        }
                    }
                    assert(skill_names(acc).to_set().union(member_names_from(members, i)) =~= skill_names(
                        acc2,
                    ).to_set().union(member_names_from(members, i + 1)));
                },
                Err(_) => {},
            },
            _ => {},
        }
    }
}

/// Every weight in `cs` names a vacancy of `cat`.
pub open spec fn all_in(cat: Seq<Seq<char>>, cs: Seq<(Seq<char>, i64)>) -> bool {
    forall|j: int| 0 <= j < cs.len() ==> cat.contains(#[trigger] cs[j].0)
}

proof fn lemma_coefficients_resolve(
    cat: Seq<Seq<char>>,
    skill: Seq<char>,
    members: Seq<(String, JsonValue)>,
    i: int,
    acc: Seq<(Seq<char>, i64)>,
)
    requires
        all_in(cat, acc),
    ensures
        coefficients_from(cat, skill, members, i, acc) matches Ok(cs) ==> all_in(cat, cs),
    decreases members.len() - i,
{
    if 0 <= i < members.len() && cat.contains(members[i].0@) {
        if let JsonValue::Number(Some(w)) = members[i].1 {
            let acc2 = acc.push((members[i].0@, w));
            assert forall|j: int| 0 <= j < acc2.len() implies cat.contains(#[trigger] acc2[j].0) by {
                if j < acc.len() {
                    assert(acc2[j] == acc[j]);
                }
            }
            lemma_coefficients_resolve(cat, skill, members, i + 1, acc2);
        }
    }
}

proof fn lemma_skills_resolve(
    cat: Seq<Seq<char>>,
    members: Seq<(String, JsonValue)>,
    i: int,
    acc: Seq<(Seq<char>, Seq<(Seq<char>, i64)>)>,
)
    requires
        forall|k: int| 0 <= k < acc.len() ==> all_in(cat, #[trigger] acc[k].1),
    ensures
        skills_from(cat, members, i, acc) matches Ok(sk) ==> forall|k: int| 0 <= k < sk.len() ==> all_in(cat, #[trigger] sk[k].1),
    decreases members.len() - i,
{
    if 0 <= i < members.len() {
        if let JsonValue::Object(inner) = members[i].1 {
            lemma_coefficients_resolve(cat, members[i].0@, inner@, 0, seq![]);
            if let Ok(cs) = coefficients_from(cat, members[i].0@, inner@, 0, seq![]) {
                let acc2 = if skill_names(acc).contains(members[i].0@) {
                    acc
                } else {
                    acc.push((members[i].0@, cs))
                };
                assert forall|k: int| 0 <= k < acc2.len() implies all_in(cat, #[trigger] acc2[k].1) by {
                    if k < acc.len() {
                        assert(acc2[k] == acc[k]);
                    }
                }
                lemma_skills_resolve(cat, members, i + 1, acc2);
            }
        }
    }
}

/// In a scheme built from a document, every weight of every skill names a
/// vacancy of the catalog.
pub proof fn lemma_references_resolve(doc: JsonValue)
    requires
        scheme_of(doc) is Ok,
    ensures
        forall|k: int, j: int|
            0 <= k < scheme_of(doc)->Ok_0.skills.len() && 0 <= j < scheme_of(doc)->Ok_0.skills[k].1.len()
                ==> scheme_of(doc)->Ok_0.vacancies.contains(#[trigger] scheme_of(doc)->Ok_0.skills[k].1[j].0),
{
    if let Some(JsonValue::Array(items)) = field(doc, "vacancies"@) {
        if let Ok(cat) = catalog_from(items@, 0, seq![]) {
            if let Some(JsonValue::Object(members)) = field(doc, "skills"@) {
                lemma_skills_resolve(cat, members@, 0, seq![]);
                let m = scheme_of(doc)->Ok_0;
                assert forall|k: int, j: int| 0 <= k < m.skills.len() && 0 <= j < m.skills[k].1.len() implies m.vacancies.contains(
                    #[trigger] m.skills[k].1[j].0,
                ) by {
                    assert(all_in(cat, m.skills[k].1));
                }
            }
        }
    }
}

/// Every weight of `members` is an integer that fits in `i64`.
pub open spec fn weights_are_integers(members: Seq<(String, JsonValue)>) -> bool {
    forall|j: int| 0 <= j < members.len() ==> (#[trigger] members[j]).1 matches JsonValue::Number(Some(_))
}

/// Every skill of `members` is an object of integer weights.
pub open spec fn skills_well_shaped(members: Seq<(String, JsonValue)>) -> bool {
    forall|k: int|
        0 <= k < members.len() ==> ((#[trigger] members[k]).1 matches JsonValue::Object(inner) && weights_are_integers(
            inner@,
        ))
}

/// Member `k` of `members` is the skill `skill`, and weights the vacancy `name` at its member `j`.
pub open spec fn weight_at(members: Seq<(String, JsonValue)>, k: int, j: int, skill: Seq<char>, name: Seq<char>) -> bool {
    0 <= k < members.len() && members[k].0@ == skill && (members[k].1 matches JsonValue::Object(inner) && 0 <= j
        < inner@.len() && inner@[j].0@ == name)
}

/// `f` reports a vacancy missing from `cat` that a skill of `members` weights.
pub open spec fn reports_missing(f: Failure, cat: Seq<Seq<char>>, members: Seq<(String, JsonValue)>) -> bool {
    f matches Failure::UnknownVacancy { name, skill } && !cat.contains(name) && exists|k: int, j: int|
        #[trigger] weight_at(members, k, j, skill, name)
}

proof fn lemma_coefficients_missing(
    cat: Seq<Seq<char>>,
    skill: Seq<char>,
    inner: Seq<(String, JsonValue)>,
    i: int,
    acc: Seq<(Seq<char>, i64)>,
)
    requires
        0 <= i,
        weights_are_integers(inner),
    ensures
        coefficients_from(cat, skill, inner, i, acc) matches Err(f) ==> (f matches Failure::UnknownVacancy {
            name,
            skill: s,
        } && s == skill && !cat.contains(name) && exists|j: int| 0 <= j < inner.len() && (#[trigger] inner[j]).0@ == name),
        (exists|j: int| i <= j < inner.len() && !cat.contains((#[trigger] inner[j]).0@)) ==> coefficients_from(
            cat,
            skill,
            inner,
            i,
            acc,
        ) is Err,
    decreases inner.len() - i,
{
    if i < inner.len() {
        assert(inner[i].1 matches JsonValue::Number(Some(_)));
        if cat.contains(inner[i].0@) {
            if let JsonValue::Number(Some(w)) = inner[i].1 {
                lemma_coefficients_missing(cat, skill, inner, i + 1, acc.push((inner[i].0@, w)));
                if exists|j: int| i <= j < inner.len() && !cat.contains((#[trigger] inner[j]).0@) {
                    let j = choose|j: int| i <= j < inner.len() && !cat.contains((#[trigger] inner[j]).0@);
                    assert(j != i);
                    assert(i + 1 <= j);
                }
            }
        }
    }
}

proof fn lemma_skills_missing(
    cat: Seq<Seq<char>>,
    members: Seq<(String, JsonValue)>,
    i: int,
    acc: Seq<(Seq<char>, Seq<(Seq<char>, i64)>)>,
)
    requires
        0 <= i,
        skills_well_shaped(members),
    ensures
        skills_from(cat, members, i, acc) matches Err(f) ==> reports_missing(f, cat, members),
        (exists|k: int, j: int, n: Seq<char>|
            i <= k && #[trigger] weight_at(members, k, j, members[k].0@, n) && !cat.contains(n)) ==> skills_from(
            cat,
            members,
            i,
            acc,
        ) is Err,
    decreases members.len() - i,
{
    if i < members.len() {
        assert(members[i].1 matches JsonValue::Object(_));
        if let JsonValue::Object(inner) = members[i].1 {
            let skill = members[i].0@;
            lemma_coefficients_missing(cat, skill, inner@, 0, seq![]);
            match coefficients_from(cat, skill, inner@, 0, seq![]) {
                Ok(cs) => {
                    let acc2 = if skill_names(acc).contains(skill) {
                        acc
                    } else {
                        acc.push((skill, cs))
                    };
                    lemma_skills_missing(cat, members, i + 1, acc2);
                    if exists|k: int, j: int, n: Seq<char>|
                        i <= k && #[trigger] weight_at(members, k, j, members[k].0@, n) && !cat.contains(n) {
                        let (k, j, n) = choose|k: int, j: int, n: Seq<char>|
                            i <= k && #[trigger] weight_at(members, k, j, members[k].0@, n) && !cat.contains(n);
                        if k == i {
                            assert(!cat.contains(inner@[j].0@));
                            assert(false);
                        }
                    }
                },
                Err(f) => {
                    if let Failure::UnknownVacancy { name, skill: s } = f {
                        let j = choose|j: int| 0 <= j < inner@.len() && (#[trigger] inner@[j]).0@ == name;
                        assert(weight_at(members, i, j, s, name));
                    }
                },
            }
        }
    }
}

/// A document whose catalog builds and whose skills are objects of integer
/// weights, but where some skill weights a vacancy that the `vacancies`
/// array lacks, gives the error for a vacancy missing from that array, with
/// the skill that weights it.
pub proof fn lemma_unknown_vacancy_reported(doc: JsonValue, k: int, j: int, name: Seq<char>)
    requires
        field(doc, "vacancies"@) matches Some(JsonValue::Array(items)) && catalog_from(items@, 0, seq![]) is Ok,
        field(doc, "skills"@) matches Some(JsonValue::Object(members)) && skills_well_shaped(members@) && weight_at(
            members@,
            k,
            j,
            members@[k].0@,
            name,
        ),
        !vacancy_entries(doc).contains(name),
    ensures
        scheme_of(doc) matches Err(Failure::UnknownVacancy { name: n, skill }) && !vacancy_entries(doc).contains(n)
            && exists|k2: int, j2: int| #[trigger] weight_at(field(doc, "skills"@)->0->Object_0@, k2, j2, skill, n),
{
    if let Some(JsonValue::Array(items)) = field(doc, "vacancies"@) {
        lemma_catalog_distinct(items@, 0, seq![]);
        assert(Seq::<Seq<char>>::empty().to_set() =~= Set::empty());
        if let Ok(cat) = catalog_from(items@, 0, seq![]) {
            assert(cat.to_set() =~= vacancy_entries(doc));
            if let Some(JsonValue::Object(members)) = field(doc, "skills"@) {
                assert(!cat.contains(name));
                lemma_skills_missing(cat, members@, 0, seq![]);
                assert(weight_at(members@, k, j, members@[k].0@, name));
            }
        }
    }
}

/// The distinct strings of the document's `vacancies` array.
pub open spec fn vacancy_entries(doc: JsonValue) -> Set<Seq<char>> {
    match field(doc, "vacancies"@) {
        Some(JsonValue::Array(items)) => entries_from(items@, 0),
        _ => Set::empty(),
    }
}

/// The distinct member names of the document's `skills` object.
pub open spec fn skill_entries(doc: JsonValue) -> Set<Seq<char>> {
    match field(doc, "skills"@) {
        Some(JsonValue::Object(members)) => member_names_from(members@, 0),
        _ => Set::empty(),
    }
}

/// In a scheme built from a document, vacancy names and skill names are
/// unique, and there are as many of each as distinct names in the document.
pub proof fn lemma_names_unique(doc: JsonValue)
    requires
        scheme_of(doc) is Ok,
    ensures
        scheme_of(doc)->Ok_0.vacancies.no_duplicates(),
        scheme_of(doc)->Ok_0.vacancies.len() == vacancy_entries(doc).len(),
        skill_names(scheme_of(doc)->Ok_0.skills).no_duplicates(),
        scheme_of(doc)->Ok_0.skills.len() == skill_entries(doc).len(),
{
    if let Some(JsonValue::Array(items)) = field(doc, "vacancies"@) {
        lemma_catalog_distinct(items@, 0, seq![]);
        if let Ok(cat) = catalog_from(items@, 0, seq![]) {
            if let Some(JsonValue::Object(members)) = field(doc, "skills"@) {
                assert(skill_names(seq![]) =~= Seq::<Seq<char>>::empty());
                lemma_skills_distinct(cat, members@, 0, seq![]);
                let m = scheme_of(doc)->Ok_0;
                assert(Seq::<Seq<char>>::empty().to_set() =~= Set::empty());
                assert(m.vacancies.to_set() =~= vacancy_entries(doc));
                assert(skill_names(m.skills).to_set() =~= skill_entries(doc));
                m.vacancies.unique_seq_to_set();
                skill_names(m.skills).unique_seq_to_set();
            }
        }
    }
}

/// A document without an array `vacancies` gives the structural error that
/// says so.
pub proof fn lemma_vacancies_required(doc: JsonValue)
    requires
        !(field(doc, "vacancies"@) matches Some(JsonValue::Array(_))),
    ensures
        scheme_of(doc) == Err::<SchemeModel, Failure>(Failure::Malformed(StructuralError::VacanciesNotArray)),
{
}

/// Two schemes built from the same bytes have the same vacancy names and the
/// same skills with the same weights.
pub proof fn lemma_rebuild_same(bytes: Seq<u8>, first: CoefficientScheme, second: CoefficientScheme)
    requires
        scheme_of_bytes(bytes) == Ok::<SchemeModel, Failure>(first@),
        scheme_of_bytes(bytes) == Ok::<SchemeModel, Failure>(second@),
    ensures
        first@ == second@,
{
}

} // verus!
