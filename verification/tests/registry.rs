use conjure::address::Address;
use conjure::error::{ConnectError, DisconnectError, EvalError};
use conjure::registry::{earliest_hit, Registry, RequestKind};
use conjure::rule::MatchRule;
use std::rc::Rc;

fn rule(pattern: &str) -> MatchRule {
    MatchRule::new(pattern.to_string()).unwrap()
}

fn local(port: u16) -> Address {
    Address::new("127.0.0.1".to_string(), port)
}

fn keys<L>(registry: &Registry<L>) -> Vec<String> {
    registry.list().iter().map(|c| c.key().to_string()).collect()
}

fn filled(names: &[&str]) -> Registry<u32> {
    let mut registry: Registry<u32> = Registry::new();
    for (i, name) in names.iter().enumerate() {
        let done = registry.connect(name.to_string(), local(7000 + i as u16), rule("\\.clj$"), Some(i as u32));
        assert_eq!(done, Ok(()));
    }
    registry
}

#[test]
fn new_registry_is_empty() {
    let registry: Registry<u32> = Registry::new();
    assert_eq!(registry.len(), 0);
    assert!(!registry.has_connections());
    assert!(registry.list().is_empty());
    assert!(registry.get(0).is_none());
    assert_eq!(registry.find("a"), None);
    assert!(!registry.contains_key("a"));
}

#[test]
fn distinct_keys_all_connect_and_list_in_call_order() {
    let names = ["delta", "alpha", "charlie", "bravo", ""];
    let registry = filled(&names);
    assert_eq!(registry.len(), 5);
    assert!(registry.has_connections());
    let expected: Vec<String> = names.iter().map(|n| n.to_string()).collect();
    assert_eq!(keys(&registry), expected);
    for (i, name) in names.iter().enumerate() {
        assert_eq!(registry.find(name), Some(i));
        assert!(registry.contains_key(name));
        let connection = registry.get(i).unwrap();
        assert_eq!(connection.key(), *name);
        assert_eq!(connection.addr(), &local(7000 + i as u16));
        assert_eq!(connection.rule().pattern(), "\\.clj$");
        assert_eq!(*connection.link(), i as u32);
    }
    assert!(registry.get(5).is_none());
}

#[test]
fn listing_can_be_taken_again_and_changes_nothing() {
    let registry = filled(&["a", "b"]);
    let first = keys(&registry);
    let second = keys(&registry);
    assert_eq!(first, second);
    assert_eq!(registry.len(), 2);
}

#[test]
fn second_connect_under_same_key_is_duplicate_and_keeps_first() {
    let mut registry: Registry<u32> = Registry::new();
    assert_eq!(registry.connect("k".to_string(), local(1), rule("one"), Some(10)), Ok(()));
    assert_eq!(registry.connect("other".to_string(), local(3), rule("three"), Some(30)), Ok(()));
    assert_eq!(
        registry.connect("k".to_string(), local(2), rule("two"), Some(20)),
        Err(ConnectError::DuplicateKey)
    );
    assert_eq!(registry.len(), 2);
    let kept = registry.get(0).unwrap();
    assert_eq!(kept.key(), "k");
    assert_eq!(kept.addr(), &local(1));
    assert_eq!(kept.rule().pattern(), "one");
    assert_eq!(*kept.link(), 10);
}

#[test]
fn duplicate_key_is_reported_before_unreachable() {
    let mut registry = filled(&["k"]);
    assert_eq!(
        registry.connect("k".to_string(), local(2), rule("two"), None),
        Err(ConnectError::DuplicateKey)
    );
    assert_eq!(keys(&registry), vec!["k".to_string()]);
}

#[test]
fn unreachable_address_is_refused_and_changes_nothing() {
    let mut registry = filled(&["a"]);
    assert_eq!(
        registry.connect("b".to_string(), local(9), rule("x"), None),
        Err(ConnectError::Unreachable)
    );
    assert_eq!(keys(&registry), vec!["a".to_string()]);
    assert!(!registry.contains_key("b"));
}

#[test]
fn disconnect_of_unconnected_key_is_unknown_and_changes_nothing() {
    let mut registry = filled(&["a", "b"]);
    assert_eq!(registry.disconnect("c"), Err(DisconnectError::UnknownKey));
    assert_eq!(keys(&registry), vec!["a".to_string(), "b".to_string()]);
    let mut empty: Registry<u32> = Registry::new();
    assert_eq!(empty.disconnect("a"), Err(DisconnectError::UnknownKey));
    assert_eq!(empty.len(), 0);
}

#[test]
fn disconnect_removes_the_key_and_frees_it() {
    let mut registry: Registry<u32> = Registry::new();
    assert_eq!(registry.connect("k".to_string(), local(1), rule("one"), Some(1)), Ok(()));
    assert_eq!(registry.disconnect("k"), Ok(()));
    assert!(keys(&registry).is_empty());
    assert!(!registry.contains_key("k"));
    assert_eq!(registry.disconnect("k"), Err(DisconnectError::UnknownKey));
    assert_eq!(registry.connect("k".to_string(), local(2), rule("two"), Some(2)), Ok(()));
    assert_eq!(keys(&registry), vec!["k".to_string()]);
    assert_eq!(registry.get(0).unwrap().addr(), &local(2));
}

#[test]
fn disconnect_keeps_the_order_of_the_others() {
    let mut registry = filled(&["a", "b", "c", "d"]);
    assert_eq!(registry.disconnect("b"), Ok(()));
    assert_eq!(keys(&registry), vec!["a".to_string(), "c".to_string(), "d".to_string()]);
    assert_eq!(*registry.get(1).unwrap().link(), 2);
    assert_eq!(registry.disconnect("a"), Ok(()));
    assert_eq!(registry.disconnect("d"), Ok(()));
    assert_eq!(keys(&registry), vec!["c".to_string()]);
    assert_eq!(registry.connect("a".to_string(), local(5), rule("x"), Some(9)), Ok(()));
    assert_eq!(keys(&registry), vec!["c".to_string(), "a".to_string()]);
}

#[test]
fn keys_are_compared_character_by_character() {
    let mut registry = filled(&["key", "ke", "kéy", "KEY"]);
    assert_eq!(registry.len(), 4);
    assert_eq!(registry.find("ke"), Some(1));
    assert_eq!(registry.find("kéy"), Some(2));
    assert_eq!(registry.find("k"), None);
    assert_eq!(registry.find("keyy"), None);
    assert_eq!(registry.disconnect("Key"), Err(DisconnectError::UnknownKey));
    assert_eq!(registry.disconnect("KEY"), Ok(()));
    assert_eq!(registry.len(), 3);
}

#[test]
fn disconnect_releases_the_link() {
    let link = Rc::new(());
    let mut registry: Registry<Rc<()>> = Registry::new();
    assert_eq!(registry.connect("k".to_string(), local(1), rule("x"), Some(link.clone())), Ok(()));
    assert_eq!(Rc::strong_count(&link), 2);
    assert_eq!(registry.disconnect("k"), Ok(()));
    assert_eq!(Rc::strong_count(&link), 1);
}

#[test]
fn refused_connect_releases_the_link_it_was_handed() {
    let first = Rc::new(());
    let second = Rc::new(());
    let mut registry: Registry<Rc<()>> = Registry::new();
    assert_eq!(registry.connect("k".to_string(), local(1), rule("x"), Some(first.clone())), Ok(()));
    assert_eq!(
        registry.connect("k".to_string(), local(2), rule("y"), Some(second.clone())),
        Err(ConnectError::DuplicateKey)
    );
    assert_eq!(Rc::strong_count(&second), 1);
    assert_eq!(Rc::strong_count(&first), 2);
}

#[test]
fn eval_without_matching_rule_is_no_match() {
    let registry = filled(&["a", "b"]);
    assert_eq!(registry.route("notes.txt"), None);
    assert_eq!(registry.eval("(+ 1 2)", "notes.txt"), Err(EvalError::NoMatch));
    assert_eq!(registry.doc("map", "notes.txt"), Err(EvalError::NoMatch));
    let empty: Registry<u32> = Registry::new();
    assert_eq!(empty.eval("(+ 1 2)", "foo.clj"), Err(EvalError::NoMatch));
}

#[test]
fn overlapping_rules_route_to_the_first_registered() {
    let mut registry: Registry<u32> = Registry::new();
    assert_eq!(registry.connect("py".to_string(), local(1), rule("\\.py$"), Some(1)), Ok(()));
    assert_eq!(registry.connect("late".to_string(), local(2), rule("src/"), Some(2)), Ok(()));
    assert_eq!(registry.connect("later".to_string(), local(3), rule("\\.clj$"), Some(3)), Ok(()));
    assert_eq!(registry.route("src/core.clj"), Some(1));
    let request = registry.eval("(inc 1)", "src/core.clj").unwrap();
    assert_eq!(request.target, 1);
    assert_eq!(request.key, "late");
    assert_eq!(registry.route("test/core.clj"), Some(2));
    assert_eq!(registry.route("src/tool.py"), Some(0));
    assert_eq!(registry.disconnect("late"), Ok(()));
    assert_eq!(registry.route("src/core.clj"), Some(1));
    assert_eq!(registry.eval("(inc 1)", "src/core.clj").unwrap().key, "later");
}

#[test]
fn clj_rule_routes_clj_files_only() {
    let mut registry: Registry<u32> = Registry::new();
    assert_eq!(registry.connect("a".to_string(), local(7890), rule("\\.clj$"), Some(1)), Ok(()));
    assert_eq!(registry.get(0).unwrap().addr().text(), "127.0.0.1:7890");
    let request = registry.eval("(+ 1 2)", "foo.clj").unwrap();
    assert_eq!(request.key, "a");
    assert_eq!(request.target, 0);
    assert_eq!(request.kind, RequestKind::Eval);
    assert_eq!(request.text, "(+ 1 2)");
    assert_eq!(registry.eval("(+ 1 2)", "foo.py"), Err(EvalError::NoMatch));
}

#[test]
fn doc_routes_as_eval_does_and_carries_the_name() {
    let registry = filled(&["a"]);
    let request = registry.doc("clojure.core/map", "src/x.clj").unwrap();
    assert_eq!(request.target, 0);
    assert_eq!(request.key, "a");
    assert_eq!(request.kind, RequestKind::Doc);
    assert_eq!(request.text, "clojure.core/map");
}

#[test]
fn request_concludes_by_what_became_of_the_send() {
    let registry = filled(&["a"]);
    let request = registry.eval("1", "x.clj").unwrap();
    assert_eq!(request.conclude(true), Ok(()));
    assert_eq!(request.conclude(false), Err(EvalError::ConnectionUnavailable));
    assert_eq!(registry.len(), 1);
}

#[test]
fn earliest_hit_is_the_first_true() {
    assert_eq!(earliest_hit(&vec![]), None);
    assert_eq!(earliest_hit(&vec![false]), None);
    assert_eq!(earliest_hit(&vec![true]), Some(0));
    assert_eq!(earliest_hit(&vec![false, true, true]), Some(1));
    assert_eq!(earliest_hit(&vec![true, false, true]), Some(0));
    assert_eq!(earliest_hit(&vec![false, false, false, true]), Some(3));
    assert_eq!(earliest_hit(&vec![false, false, false]), None);
}

#[test]
fn claims_tell_for_each_connection_whether_its_rule_matches() {
    let mut registry: Registry<u32> = Registry::new();
    assert_eq!(registry.claims("src/core.clj"), Vec::<bool>::new());
    assert_eq!(registry.connect("py".to_string(), local(1), rule("\\.py$"), Some(1)), Ok(()));
    assert_eq!(registry.connect("src".to_string(), local(2), rule("^src/"), Some(2)), Ok(()));
    assert_eq!(registry.connect("clj".to_string(), local(3), rule("\\.clj$"), Some(3)), Ok(()));
    assert_eq!(registry.claims("src/core.clj"), vec![false, true, true]);
    assert_eq!(registry.claims("src/tool.py"), vec![true, true, false]);
    assert_eq!(registry.claims("README"), vec![false, false, false]);
}
