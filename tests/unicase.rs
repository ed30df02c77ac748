use std::borrow::Cow;
use std::cmp::Ordering;
use std::collections::hash_map::DefaultHasher;
use std::hash::{Hash, Hasher};
use std::str::FromStr;
use unicase::UniCase;

fn hash<T: Hash>(t: &T) -> u64 {
    let mut s = DefaultHasher::new();
    t.hash(&mut s);
    s.finish()
}

#[test]
fn test_case_insensitive() {
    let a = UniCase("foobar");
    let b = UniCase("FOOBAR");

    assert_eq!(a, b);
    assert_eq!(hash(&a), hash(&b));
}

#[test]
fn test_case_cmp() {
    assert!(UniCase("foobar") == UniCase("FOOBAR"));
    assert!(UniCase("a") < UniCase("B"));

    assert!(UniCase("A") < UniCase("b"));
    assert!(UniCase("aa") > UniCase("a"));

    assert!(UniCase("a") < UniCase("aa"));
    assert!(UniCase("a") < UniCase("AA"));
}

#[test]
fn unicase_non_ascii_folds_fully() {
    assert_eq!(UniCase("Maße"), UniCase("MASSE"));
    assert_eq!(UniCase("ﬂour"), UniCase("FLOUR"));
    assert_eq!(UniCase("ÉTÉ"), UniCase("été"));
    assert_eq!(hash(&UniCase("Maße")), hash(&UniCase("masse")));
    assert_ne!(UniCase("Maße"), UniCase("Mase"));
}

#[test]
fn unicase_mixed_ascii_and_non_ascii_values_agree() {
    let ascii = UniCase("STRASSE");
    let other = UniCase("straße");
    assert_eq!(ascii, other);
    assert_eq!(hash(&ascii), hash(&other));
    assert_eq!(ascii.cmp(&other), Ordering::Equal);
}

#[test]
fn unicase_order_is_by_fold_stream() {
    assert_eq!(UniCase("s").cmp(&UniCase("ß")), Ordering::Less);
    assert_eq!(UniCase("ß").cmp(&UniCase("SS")), Ordering::Equal);
    assert_eq!(UniCase("ß").cmp(&UniCase("st")), Ordering::Less);
    assert_eq!(UniCase("b").cmp(&UniCase("A")), Ordering::Greater);
    assert!(UniCase("É") > UniCase("z"));
}

#[test]
fn empty_and_prefix_boundaries() {
    assert_eq!(UniCase(""), UniCase(""));
    assert_eq!(hash(&UniCase("")), hash(&UniCase("")));
    assert_eq!(UniCase("").cmp(&UniCase("")), Ordering::Equal);
    assert_ne!(UniCase(""), UniCase("a"));
    assert!(UniCase("") < UniCase("a"));
    assert_ne!(UniCase("ab"), UniCase("abc"));
    assert!(UniCase("AB") < UniCase("abc"));
    assert_ne!(UniCase("s"), UniCase("ß"));
}

#[test]
fn equality_is_an_equivalence_on_examples() {
    let a = UniCase("Maße");
    let b = UniCase("MASSE");
    let c = UniCase("masse");
    assert_eq!(a, a);
    assert_eq!(a == b, b == a);
    assert!(a == b && b == c);
    assert_eq!(a, c);
}

#[test]
fn compare_with_bare_payload() {
    let a = UniCase("Hello");
    assert!(a == "HELLO");
    assert!(a != "help");
}

#[test]
fn hash_into_matches_hash() {
    for s in ["", "Header-Name", "Maße", "ﬂour", "ᾲ στο διάολο"] {
        let w = UniCase(s);
        let mut h = DefaultHasher::new();
        w.hash_into(&mut h);
        assert_eq!(h.finish(), hash(&w));
    }
}

#[test]
fn round_trip_through_text_for_each_payload_kind() {
    let owned = UniCase::new("Content-Type".to_string());
    let back = UniCase::<String>::from_str(owned.as_str()).unwrap();
    assert_eq!(back, owned);

    let borrowed = UniCase::new("Maße");
    let back = UniCase::new(borrowed.as_str());
    assert_eq!(back, borrowed);

    let cow: UniCase<Cow<str>> = UniCase::new(Cow::Borrowed("ﬂour"));
    let back: UniCase<Cow<str>> = UniCase::new(Cow::Owned(cow.as_str().to_string()));
    assert_eq!(back, cow);
    assert_eq!(back.as_str(), "ﬂour");
}

#[test]
fn deref_and_as_ref_give_the_payload() {
    let w = UniCase::new("MiXeD".to_string());
    assert_eq!(w.len(), 5);
    let s: &str = w.as_ref();
    assert_eq!(s, "MiXeD");
}

#[test]
fn deref_mut_edits_the_payload() {
    let mut w = UniCase::new("Accept".to_string());
    w.push_str("-ENCODING");
    assert_eq!(w, UniCase::new("accept-encoding".to_string()));
}

#[test]
fn from_str_keeps_the_text_and_as_ref_gives_it_back() {
    let u = UniCase::<String>::from_str("Maße").unwrap();
    assert_eq!(u.0, "Maße");
    let cow: UniCase<Cow<str>> = UniCase::new(Cow::Owned("ÉTÉ".to_string()));
    let s: &str = cow.as_ref();
    assert_eq!(s, "ÉTÉ");
    assert_eq!(UniCase::new(Cow::Borrowed(s)), cow);
    let plain = UniCase("Header");
    let t: &str = plain.as_ref();
    assert_eq!(t, "Header");
}
