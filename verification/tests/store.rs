use person_registry::birth::BirthDate;
use person_registry::person::{NewPerson, Person};
use person_registry::search::{
    chars_of, contains_chars, contains_ignoring_case, lowered_chars_of, matches_person,
};
use person_registry::store::{Store, SEARCH_CAP};
use person_registry::validation::ValidationError;

fn castro(store: &mut Store) -> Person {
    store
        .create(
            String::from("Guilherme Castro"),
            String::from("castro13"),
            "1995-04-13",
            Some(vec![String::from("C#"), String::from("Node")]),
        )
        .unwrap()
}

fn person(id: u128, name: &str, nick: &str, stack: Option<Vec<&str>>) -> Person {
    Person {
        id,
        name: String::from(name),
        nick: String::from(nick),
        birth_date: BirthDate::new(1990, 1, 2).unwrap(),
        stack: stack.map(|v| v.into_iter().map(String::from).collect()),
    }
}

fn same_fields(a: &Person, b: &Person) -> bool {
    a.id == b.id
        && a.name == b.name
        && a.nick == b.nick
        && (a.birth_date.year(), a.birth_date.month(), a.birth_date.day())
            == (b.birth_date.year(), b.birth_date.month(), b.birth_date.day())
        && a.stack == b.stack
}

#[test]
fn new_store_is_empty() {
    let store = Store::new();
    assert_eq!(store.count(), 0);
    assert!(store.get_by_id(0).is_none());
    assert!(store.search_substring("a").unwrap().is_empty());
}

#[test]
fn created_person_is_found_and_searched_and_counted() {
    let mut store = Store::new();
    let created = castro(&mut store);
    assert_ne!(created.id, 0);
    assert_eq!(created.name, "Guilherme Castro");
    assert_eq!(created.nick, "castro13");
    assert_eq!(
        (created.birth_date.year(), created.birth_date.month(), created.birth_date.day()),
        (1995, 4, 13)
    );
    assert_eq!(created.stack, Some(vec![String::from("C#"), String::from("Node")]));
    let found = store.get_by_id(created.id).unwrap();
    assert!(same_fields(&found, &created));
    let hits = store.search_substring("castro").unwrap();
    assert!(hits.iter().any(|p| p.id == created.id));
    assert!(store.count() >= 1);
    assert_eq!(store.count(), 1);
}

#[test]
fn unused_identifier_is_not_found() {
    let mut store = Store::new();
    let created = castro(&mut store);
    let unused = created.id ^ 1;
    assert!(store.get_by_id(unused).is_none());
    assert!(!store.contains_id(unused));
    assert!(store.contains_id(created.id));
    assert_eq!(store.count(), 1);
    assert!(store.get_by_id(created.id).is_some());
    assert!(castro(&mut store).id != created.id);
    assert_eq!(store.count(), 2);
}

#[test]
fn name_over_the_bound_is_rejected_and_nothing_is_stored() {
    let mut store = Store::new();
    castro(&mut store);
    let long: String = std::iter::repeat('x').take(33).collect();
    let r = store.create(long, String::from("nick"), "1995-04-13", None);
    assert_eq!(r.unwrap_err(), ValidationError::NameTooLong);
    assert_eq!(store.count(), 1);
    assert!(store.search_substring("xxx").unwrap().is_empty());
}

#[test]
fn every_field_over_its_bound_is_rejected() {
    let mut store = Store::new();
    let long: String = std::iter::repeat('x').take(101).collect();
    let r = store.create(String::from("a"), long.clone(), "1995-04-13", None);
    assert_eq!(r.unwrap_err(), ValidationError::NickTooLong);
    let r = store.create(String::from("a"), String::from("b"), "1995-04-13", Some(vec![long]));
    assert_eq!(r.unwrap_err(), ValidationError::TechTooLong);
    let r = store.create(String::from("a"), String::from("b"), "13/04/1995", None);
    assert_eq!(r.unwrap_err(), ValidationError::InvalidBirthDate);
    assert_eq!(store.count(), 0);
}

#[test]
fn count_equals_the_number_of_creates() {
    let mut store = Store::new();
    let mut ids = Vec::new();
    for n in 0..120usize {
        assert_eq!(store.count(), n);
        ids.push(castro(&mut store).id);
    }
    assert_eq!(store.count(), 120);
    let mut sorted = ids.clone();
    sorted.sort();
    sorted.dedup();
    assert_eq!(sorted.len(), 120);
    for id in ids {
        assert_eq!(store.get_by_id(id).unwrap().id, id);
    }
}

#[test]
fn identifiers_are_version_seven_and_grow() {
    let mut store = Store::new();
    let first = castro(&mut store).id;
    let second = castro(&mut store).id;
    assert_eq!((first >> 76) & 0xF, 7);
    assert_eq!((second >> 76) & 0xF, 7);
    assert!(second > first);
}

#[test]
fn unused_identifier_is_the_nearest_one() {
    let mut store = Store::new();
    assert_eq!(store.unused_from(7), 7);
    store.insert(person(7, "a", "a", None));
    store.insert(person(8, "b", "b", None));
    store.insert(person(10, "c", "c", None));
    assert_eq!(store.unused_from(5), 5);
    assert_eq!(store.unused_from(7), 9);
    assert_eq!(store.unused_from(8), 9);
    assert_eq!(store.unused_from(10), 11);
    assert_eq!(store.unused_from(9), 9);
    store.insert(person(u128::MAX, "d", "d", None));
    store.insert(person(0, "e", "e", None));
    assert_eq!(store.unused_from(u128::MAX), 1);
    assert_eq!(store.unused_from(u128::MAX - 1), u128::MAX - 1);
}

#[test]
fn create_near_always_stores() {
    let mut store = Store::new();
    let request =
        NewPerson::validate(String::from("Ana"), String::from("ana"), "2001-12-01", None).unwrap();
    let first = store.create_near(request.clone(), 7);
    assert_eq!(first.id, 7);
    assert_eq!(first.name, "Ana");
    let second = store.create_near(request.clone(), 7);
    assert_eq!(second.id, 8);
    let third = store.create_near(request, 7);
    assert_eq!(third.id, 9);
    assert_eq!(store.count(), 3);
    assert_eq!(store.get_by_id(8).unwrap().nick, "ana");
    assert_eq!(
        store.search_substring("ana").unwrap().iter().map(|p| p.id).collect::<Vec<u128>>(),
        vec![7, 8, 9]
    );
}

#[test]
fn insert_stores_the_person_last() {
    let mut store = Store::new();
    store.insert(person(3, "Carla", "cc", None));
    store.insert(person(1, "Carlos", "kk", Some(vec!["Go"])));
    assert_eq!(store.count(), 2);
    assert!(same_fields(&store.get_by_id(3).unwrap(), &person(3, "Carla", "cc", None)));
    assert!(same_fields(
        &store.get_by_id(1).unwrap(),
        &person(1, "Carlos", "kk", Some(vec!["Go"]))
    ));
    assert!(store.get_by_id(2).is_none());
    let hits = store.search_substring("carl").unwrap();
    assert_eq!(hits.iter().map(|p| p.id).collect::<Vec<u128>>(), vec![3, 1]);
}

#[test]
fn search_looks_at_name_nick_and_stack() {
    let mut store = Store::new();
    store.insert(person(1, "Guilherme Castro", "gui", None));
    store.insert(person(2, "Maria", "castro13", None));
    store.insert(person(3, "Joana", "jo", Some(vec!["Rust", "Castro-lang"])));
    store.insert(person(4, "Pedro", "pe", Some(vec!["Rust"])));
    store.insert(person(5, "Lia", "li", Some(vec![])));
    let ids = |term: &str| -> Vec<u128> {
        store.search_substring(term).unwrap().iter().map(|p| p.id).collect()
    };
    assert_eq!(ids("castro"), vec![1, 2, 3]);
    assert_eq!(ids("CASTRO"), vec![1, 2, 3]);
    assert_eq!(ids("CaStRo1"), vec![2]);
    assert_eq!(ids("rust"), vec![3, 4]);
    assert_eq!(ids("i"), vec![1, 2, 5]);
    assert_eq!(ids("zz"), Vec::<u128>::new());
    assert_eq!(ids("Guilherme Castro"), vec![1]);
    assert_eq!(ids("Guilherme Castro "), Vec::<u128>::new());
}

#[test]
fn search_hands_out_at_most_fifty_oldest_first() {
    let mut store = Store::new();
    for id in 0..60u128 {
        let name = if id % 2 == 0 { "Even Castro" } else { "Odd" };
        store.insert(person(id, name, "n", None));
    }
    let hits = store.search_substring("castro").unwrap();
    assert_eq!(hits.len(), 30);
    for id in 60..200u128 {
        store.insert(person(id, "castro again", "n", None));
    }
    let hits = store.search_substring("CASTRO").unwrap();
    assert_eq!(hits.len(), 50);
    assert_eq!(SEARCH_CAP, 50);
    let mut expected: Vec<u128> = (0..60u128).filter(|id| id % 2 == 0).collect();
    expected.extend(60..80u128);
    assert_eq!(hits.iter().map(|p| p.id).collect::<Vec<u128>>(), expected);
    for p in &hits {
        assert!(p.name.to_lowercase().contains("castro"));
    }
}

#[test]
fn search_without_a_term_is_rejected() {
    let mut store = Store::new();
    castro(&mut store);
    assert_eq!(store.search_substring("").unwrap_err(), ValidationError::MissingSearchTerm);
    assert_eq!(store.search(None).unwrap_err(), ValidationError::MissingSearchTerm);
    assert_eq!(store.search(Some("")).unwrap_err(), ValidationError::MissingSearchTerm);
    assert_eq!(store.search(Some("node")).unwrap().len(), 1);
    assert_eq!(store.count(), 1);
}

#[test]
fn containment_ignores_case() {
    assert!(contains_ignoring_case("Guilherme Castro", "castro"));
    assert!(contains_ignoring_case("guilherme castro", "CASTRO"));
    assert!(contains_ignoring_case("abc", ""));
    assert!(contains_ignoring_case("", ""));
    assert!(!contains_ignoring_case("", "a"));
    assert!(!contains_ignoring_case("abc", "abcd"));
    assert!(contains_ignoring_case("abc", "abc"));
    assert!(contains_ignoring_case("xxabc", "ABC"));
    assert!(!contains_ignoring_case("ab", "ba"));
    assert!(contains_ignoring_case("aab", "ab"));
    assert!(!contains_ignoring_case("a@b", "a`b"));
    assert!(!contains_ignoring_case("a[b", "a{b"));
    assert!(contains_ignoring_case("C#", "c#"));
    assert!(contains_ignoring_case("José", "josé"));
    assert!(contains_ignoring_case("JOSÉ", "josé"));
    assert!(contains_ignoring_case("josé", "JOSÉ"));
    assert!(contains_ignoring_case("JOÃO DA CONCEIÇÃO", "conceição"));
    assert!(!contains_ignoring_case("JOSÉ", "jose"));
}

#[test]
fn containment_of_characters_is_exact() {
    assert!(contains_chars(&chars_of("Node"), &chars_of("od")));
    assert!(!contains_chars(&chars_of("Node"), &chars_of("OD")));
    assert!(contains_chars(&chars_of("Node"), &chars_of("")));
    assert!(contains_chars(&chars_of("Node"), &chars_of("Node")));
    assert!(!contains_chars(&chars_of("Node"), &chars_of("Nodes")));
    assert!(!contains_chars(&chars_of(""), &chars_of("N")));
    assert_eq!(chars_of("C#é"), vec!['C', '#', 'é']);
}

#[test]
fn lower_case_form_of_a_text() {
    assert_eq!(lowered_chars_of("C# Node@[`{Z"), chars_of("c# node@[`{z"));
    assert_eq!(lowered_chars_of("JOSÉ"), chars_of("josé"));
    assert_eq!(lowered_chars_of(""), chars_of(""));
    assert_eq!(lowered_chars_of("castro13"), chars_of("castro13"));
}

#[test]
fn search_ignores_the_case_of_every_letter() {
    let mut store = Store::new();
    store.insert(person(1, "JOÃO", "jj", None));
    store.insert(person(2, "joão", "JJ", Some(vec!["ÉLIXIR"])));
    store.insert(person(3, "Joao", "j", None));
    let ids = |term: &str| -> Vec<u128> {
        store.search_substring(term).unwrap().iter().map(|p| p.id).collect()
    };
    assert_eq!(ids("joão"), vec![1, 2]);
    assert_eq!(ids("JOÃO"), vec![1, 2]);
    assert_eq!(ids("élixir"), vec![2]);
    assert_eq!(ids("jo"), vec![1, 2, 3]);
    assert_eq!(ids("JJ"), vec![1, 2]);
}

#[test]
fn person_matches_on_any_field() {
    let p = person(1, "Ana", "NICK", Some(vec!["Rust", "Go"]));
    assert!(matches_person(&p, &chars_of("an")));
    assert!(matches_person(&p, &chars_of("ick")));
    assert!(matches_person(&p, &chars_of("go")));
    assert!(!matches_person(&p, &chars_of("Go")));
    assert!(!matches_person(&p, &chars_of("java")));
    assert!(!matches_person(&person(1, "Ana", "nick", None), &chars_of("go")));
    assert!(matches_person(&p, &lowered_chars_of("RUST")));
}

#[test]
fn clone_keeps_every_field() {
    let p = person(9, "Ana", "nick", Some(vec!["Rust", "Go"]));
    assert!(same_fields(&p.clone(), &p));
    let q = person(9, "Ana", "nick", None);
    assert!(same_fields(&q.clone(), &q));
}

#[test]
fn lower_case_form_of_ascii_text_changes_capitals_only() {
    let mut all = String::new();
    let mut expected = Vec::new();
    for code in 0u8..=127 {
        let c = code as char;
        let small = if c >= 'A' && c <= 'Z' { (code + 32) as char } else { c };
        assert_eq!(lowered_chars_of(&c.to_string()), vec![small]);
        all.push(c);
        expected.push(small);
    }
    assert_eq!(lowered_chars_of(&all), expected);
}
