use std::rc::Rc;
use unison_core::names::{env_names, find_term, head_dir, path_with, Names, NameSegment, RawBranch, Star};
use unison_core::types::{Id, Reference};

#[test]
fn paths_join_with_one_separator() {
    assert_eq!(path_with("root", "paths"), "root/paths");
    assert_eq!(path_with("root/", "paths"), "root/paths");
    assert_eq!(path_with("", "paths"), "paths");
    assert_eq!(path_with("root", "/abs"), "/abs");
    assert_eq!(head_dir("/home/u/.unison/v1"), "/home/u/.unison/v1/paths/_head");
}

#[test]
fn hash_text_round_trip() {
    let h = unison_core::types::Hash(vec![0x00, 0xff, 0x10, 0x42, 0x99]);
    let text = h.to_text();
    assert_eq!(text.len(), 8);
    assert_eq!(text, "03vh0gkp");
    let back = unison_core::types::Hash::from_string(&text).unwrap();
    assert_eq!(back.0, h.0);
    assert_eq!(unison_core::types::Hash(vec![]).to_text(), "");
    assert_eq!(unison_core::types::Hash(vec![0xff]).to_text(), "vs");
    assert!(unison_core::types::Hash::from_string("xyz").is_none());
    assert!(unison_core::types::Hash::from_string("ABC").is_none());
}

#[test]
fn reference_from_hash_text() {
    match Reference::from_hash("vs") {
        Some(Reference::DerivedId(Id(h, 0, 1))) => assert_eq!(h.0, vec![0xff]),
        _ => panic!("expected a derived reference"),
    }
    assert!(Reference::from_hash("#!").is_none());
}

fn seg(t: &str) -> NameSegment {
    NameSegment { text: t.to_string() }
}

fn empty_star<K, V>() -> Star<K, V> {
    Star { fact: vec![], d1: vec![], d2: vec![], d3: vec![] }
}

fn branch(children: Vec<(NameSegment, unison_core::types::Hash)>) -> RawBranch {
    RawBranch { terms: empty_star(), types: empty_star(), children, edits: vec![] }
}

#[test]
fn merge_prefers_the_later_branch() {
    let mut a = branch(vec![(seg("x"), unison_core::types::Hash(vec![1])), (seg("y"), unison_core::types::Hash(vec![2]))]);
    let b = branch(vec![(seg("y"), unison_core::types::Hash(vec![3]))]);
    a.merge(b);
    let last_y = a.children.iter().rev().find(|(s, _)| s.text == "y").unwrap();
    assert_eq!(last_y.1 .0, vec![3]);
    assert_eq!(a.children.len(), 3);
}

fn paths(names: &[&str]) -> Rc<Vec<Vec<String>>> {
    Rc::new(names.iter().map(|n| n.split('.').map(|s| s.to_string()).collect()).collect())
}

fn sample_names() -> Names<unison_core::types::Hash> {
    Names {
        terms: vec![(unison_core::types::Hash(vec![0xff]), paths(&["base.id"])), (unison_core::types::Hash(vec![0x00]), paths(&["main"]))],
        constrs: vec![(unison_core::types::Hash(vec![0x10]), Rc::new(vec![(0, vec![vec!["None".to_string()]])]))],
        types: vec![(unison_core::types::Hash(vec![0x10]), paths(&["Optional"]))],
    }
}

#[test]
fn serialize_keys_by_hash_text() {
    let n = sample_names().serialize();
    assert_eq!(n.terms.len(), 2);
    assert_eq!(n.terms[0].0, "vs");
    assert_eq!(n.terms[1].0, "00");
    assert_eq!(n.types[0].0, "20");
    assert_eq!(n.constrs[0].1[0].0, 0);
}

#[test]
fn env_names_keeps_known_hashes() {
    let names = sample_names();
    let r = env_names(&names, &vec![unison_core::types::Hash(vec![0x00]), unison_core::types::Hash(vec![0x77])], &vec![unison_core::types::Hash(vec![0x10])]);
    assert_eq!(r.terms.len(), 1);
    assert_eq!(r.terms[0].0, "00");
    assert_eq!(r.terms[0].1[0], vec!["main".to_string()]);
    assert_eq!(r.types.len(), 1);
    assert_eq!(r.constrs.len(), 1);
}

#[test]
fn find_term_by_name_or_hash() {
    let names = sample_names();
    assert_eq!(find_term(&names, ".base.id").unwrap().0, vec![0xff]);
    assert!(find_term(&names, ".base.other").is_none());
    assert_eq!(find_term(&names, "vs").unwrap().0, vec![0xff]);
}
