use std::cmp::Ordering;
use std::collections::hash_map::DefaultHasher;
use std::hash::Hasher;
use unicase::{ascii, Unicode};

fn unicode_hash(s: &str) -> u64 {
    let mut h = DefaultHasher::new();
    Unicode(s).hash_into(&mut h);
    h.finish()
}

fn ascii_hash(s: &str) -> u64 {
    let mut h = DefaultHasher::new();
    ascii::hash_into(s, &mut h);
    h.finish()
}

#[test]
fn ascii_path_agrees_with_unicode_path() {
    let samples = ["", "a", "A", "foobar", "FOOBAR", "Foo-Bar_9", "aa", "AB", "b", "@[`{"];
    for a in samples {
        assert_eq!(ascii_hash(a), unicode_hash(a));
        for b in samples {
            assert_eq!(ascii::eq(a, b), Unicode(a) == Unicode(b));
            assert_eq!(ascii::cmp(a, b), Unicode(a).cmp(&Unicode(b)));
        }
    }
}

#[test]
fn ascii_path_results() {
    assert!(ascii::eq("Content-Type", "content-TYPE"));
    assert!(!ascii::eq("abc", "abd"));
    assert!(!ascii::eq("abc", "ab"));
    assert_eq!(ascii::cmp("a", "B"), Ordering::Less);
    assert_eq!(ascii::cmp("aa", "A"), Ordering::Greater);
    assert_eq!(ascii::cmp("", ""), Ordering::Equal);
    assert!(!ascii::eq("@", "`"));
    assert_eq!(ascii::to_lower_byte(b'Q'), b'q');
    assert_eq!(ascii::to_lower_byte(b'['), b'[');
}

#[test]
fn lower_chunk_lowers_one_byte() {
    assert_eq!(ascii::lower_chunk(b'Z'), [b'z']);
    assert_eq!(ascii::lower_chunk(b'-'), [b'-']);
}
