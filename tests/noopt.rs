use std::collections::hash_map::DefaultHasher;
use std::collections::HashSet;
use std::hash::{Hash, Hasher};
use unicase::{UniCase, UniCaseNoOpt};

fn hash<T: Hash>(t: &T) -> u64 {
    let mut s = DefaultHasher::new();
    t.hash(&mut s);
    s.finish()
}

#[test]
fn hashset() {
    let mut hm: HashSet<UniCase<String>> = Default::default();
    hm.insert(UniCase::new("ascii".to_string()));
    let key = UniCaseNoOpt::from_ref("Ascii");
    assert_eq!(hash(&key), hash(&UniCase::new("ascii".to_string())));
    assert!(hm.iter().any(|k| *k == key));
    assert!(hm.contains(&UniCase::new("Ascii".to_string())));
}

#[test]
fn borrowed_key_agrees_with_owned_wrapper_on_non_ascii() {
    let owned = UniCase::new("Straße".to_string());
    let key = UniCaseNoOpt::from_ref("STRASSE");
    assert!(owned == key);
    assert_eq!(hash(&owned), hash(&key));
    let mut h = DefaultHasher::new();
    key.hash_into(&mut h);
    assert_eq!(h.finish(), hash(&owned));
    assert!(owned != UniCaseNoOpt::from_ref("STRASE"));
}

#[test]
fn as_key_views_the_same_text() {
    let owned = UniCase::new("Content-Length".to_string());
    let key = owned.as_key();
    assert_eq!(key.as_str(), "Content-Length");
    assert_eq!(hash(&key), hash(&owned));
    assert!(key == UniCaseNoOpt::from_ref("content-length"));
}

#[test]
fn noopt_equality_and_hash() {
    let a = UniCaseNoOpt::new("ﬂour");
    let b: UniCaseNoOpt<&str> = UniCaseNoOpt::from("FLOUR");
    assert!(a == b);
    assert!(a == a);
    assert_eq!(hash(&a), hash(&b));
    assert!(UniCaseNoOpt::new("") == UniCaseNoOpt::new(""));
    assert!(UniCaseNoOpt::new("a") != UniCaseNoOpt::new("aa"));
    assert!(UniCaseNoOpt::new("Maße".to_string()) == UniCaseNoOpt::new("MASSE"));
}
