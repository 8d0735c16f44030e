use wasi_provider::keyed::{Key, KeyedMap};
use wasi_provider::manifest::{ContainerKey, PodKey};

fn map(entries: Vec<(&str, u32)>) -> KeyedMap<String, u32> {
    let mut m = KeyedMap::new();
    for (k, v) in entries {
        m.insert(k.to_string(), v);
    }
    m
}

#[test]
fn insert_get_and_replace() {
    let mut m = map(vec![("a", 1), ("b", 2)]);
    assert_eq!(m.len(), 2);
    assert_eq!(m.get(&"a".to_string()), Some(&1));
    assert_eq!(m.get(&"c".to_string()), None);
    assert!(m.contains_key(&"b".to_string()));
    assert!(!m.contains_key(&"c".to_string()));
    assert_eq!(m.insert("a".to_string(), 10), Some(1));
    assert_eq!(m.insert("c".to_string(), 3), None);
    assert_eq!(m.len(), 3);
    assert_eq!(m.get(&"a".to_string()), Some(&10));
}

#[test]
fn remove_returns_the_value_once() {
    let mut m = map(vec![("a", 1), ("b", 2), ("c", 3)]);
    assert_eq!(m.remove(&"b".to_string()), Some(2));
    assert_eq!(m.remove(&"b".to_string()), None);
    assert_eq!(m.len(), 2);
    assert_eq!(m.get(&"a".to_string()), Some(&1));
    assert_eq!(m.get(&"c".to_string()), Some(&3));
}

#[test]
fn extend_prefers_the_other_map() {
    let mut m = map(vec![("a", 1), ("b", 2)]);
    m.extend(map(vec![("b", 20), ("c", 30)]));
    assert_eq!(m.len(), 3);
    assert_eq!(m.get(&"a".to_string()), Some(&1));
    assert_eq!(m.get(&"b".to_string()), Some(&20));
    assert_eq!(m.get(&"c".to_string()), Some(&30));
    m.extend(KeyedMap::new());
    assert_eq!(m.len(), 3);
}

#[test]
fn entries_hold_each_key_once() {
    let mut m = map(vec![("a", 1), ("b", 2), ("a", 3)]);
    m.remove(&"b".to_string());
    m.insert("b".to_string(), 4);
    let mut seen: Vec<(String, u32)> = m.entries().clone();
    seen.sort();
    assert_eq!(seen, vec![("a".to_string(), 3), ("b".to_string(), 4)]);
    let mut owned = m.into_entries();
    owned.sort();
    assert_eq!(owned, seen);
}

#[test]
fn keys_are_compared_by_what_they_hold() {
    assert!("a".to_string().same(&"a".to_string()));
    assert!(!"a".to_string().same(&"b".to_string()));
    let p = |ns: &str, n: &str| PodKey { namespace: ns.to_string(), name: n.to_string() };
    assert!(p("x", "y").same(&p("x", "y")));
    assert!(!p("x", "y").same(&p("x", "z")));
    assert!(!p("x", "y").same(&p("w", "y")));
    let a = ContainerKey::App("c".to_string());
    let i = ContainerKey::Init("c".to_string());
    assert!(a.same(&ContainerKey::App("c".to_string())));
    assert!(i.same(&ContainerKey::Init("c".to_string())));
    assert!(!a.same(&i));
    assert!(!a.same(&ContainerKey::App("d".to_string())));
}
