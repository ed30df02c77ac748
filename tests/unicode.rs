use std::cmp::Ordering;
use std::collections::hash_map::DefaultHasher;
use std::hash::{Hash, Hasher};
use unicase::{char_to_utf8, Fold, Unicode};

fn hash<T: Hash>(t: &T) -> u64 {
    let mut s = DefaultHasher::new();
    t.hash(&mut s);
    s.finish()
}

#[test]
fn test_ascii_folding() {
    assert_eq!(Unicode("foo bar"), Unicode("FoO BAR"));
}

#[test]
fn test_simple_case_folding() {
    assert_eq!(Unicode("στιγμας"), Unicode("στιγμασ"));
}

#[test]
fn test_full_case_folding() {
    assert_eq!(Unicode("ﬂour"), Unicode("flour"));
    assert_eq!(Unicode("Maße"), Unicode("MASSE"));
    assert_eq!(Unicode("ᾲ στο διάολο"), Unicode("ὰι στο διάολο"));
}

#[test]
fn unicode_table_folds_non_ascii_letters() {
    assert_eq!(Unicode("ÉTÉ"), Unicode("été"));
    assert_eq!(Unicode("ΣΊΣΥΦΟΣ"), Unicode("σίσυφος"));
    assert_ne!(Unicode("é"), Unicode("e"));
    assert_eq!(hash(&Unicode("ÉTÉ")), hash(&Unicode("été")));
}

#[test]
fn unicode_equal_values_hash_equal() {
    let pairs = [("ﬂour", "flour"), ("Maße", "MASSE"), ("στιγμας", "στιγμασ"), ("", "")];
    for (a, b) in pairs {
        assert_eq!(Unicode(a), Unicode(b));
        assert_eq!(hash(&Unicode(a)), hash(&Unicode(b)));
    }
}

#[test]
fn unicode_hash_is_utf8_of_fold_stream() {
    let mut expected = DefaultHasher::new();
    for c in "strasse".chars() {
        let mut buf = [0u8; 4];
        expected.write(c.encode_utf8(&mut buf).as_bytes());
    }
    let mut h = DefaultHasher::new();
    Unicode("Straße").hash_into(&mut h);
    assert_eq!(h.finish(), expected.finish());
    assert_eq!(hash(&Unicode("Straße")), expected.finish());
}

#[test]
fn unicode_compares_across_payload_kinds() {
    assert_eq!(Unicode("Maße"), Unicode("MASSE".to_string()));
    assert!(Unicode("Maße".to_string()) != Unicode("Masse!"));
}

#[test]
fn unicode_order() {
    assert_eq!(Unicode("a").cmp(&Unicode("B")), Ordering::Less);
    assert_eq!(Unicode("ﬂour").cmp(&Unicode("FLOUR")), Ordering::Equal);
    assert_eq!(Unicode("ﬂ").cmp(&Unicode("f")), Ordering::Greater);
    assert!(Unicode("aa") > Unicode("a"));
    assert!(Unicode("") < Unicode("a"));
}

#[test]
fn fold_lookup_gives_table_folds_in_order() {
    let mut f = Fold::lookup('ß');
    assert_eq!(f.size_hint(), (2, Some(2)));
    assert_eq!(f.next(), Some('s'));
    assert_eq!(f.next(), Some('s'));
    assert_eq!(f.next(), None);
    assert_eq!(f.len(), 0);

    let mut g = Fold::lookup('ΐ');
    assert_eq!(g.len(), 3);
    assert_eq!(g.next(), Some('ι'));
    assert_eq!(g.next(), Some('\u{308}'));
    assert_eq!(g.next(), Some('\u{301}'));
    assert_eq!(g.next(), None);

    let mut a = Fold::lookup('Q');
    assert_eq!(a.next(), Some('q'));
    assert_eq!(a.next(), None);

    let mut s = Fold::lookup('ς');
    assert_eq!(s.next(), Some('σ'));

    let mut keep = Fold::lookup('7');
    assert_eq!(keep.next(), Some('7'));
}

#[test]
fn fold_from_tuples() {
    let mut one = Fold::from(('x',));
    assert_eq!(one.size_hint(), (1, Some(1)));
    assert_eq!(one.next(), Some('x'));
    let mut three = Fold::from(('a', 'b', 'c'));
    assert_eq!(three.next(), Some('a'));
    assert_eq!(three.next(), Some('b'));
    assert_eq!(three.next(), Some('c'));
    assert_eq!(three.next(), None);
    let two = Fold::from(('a', 'b'));
    assert_eq!(two.size_hint(), (2, Some(2)));
    assert_eq!(Fold::Zero.size_hint(), (0, Some(0)));
}

#[test]
fn char_to_utf8_matches_std_encoding() {
    for c in ['\0', 'a', '\u{7f}', '\u{80}', 'é', '\u{7ff}', '\u{800}', 'ﬂ', '\u{ffff}', '\u{10000}', '😀', '\u{10ffff}'] {
        let mut buf = [0u8; 4];
        let n = char_to_utf8(c, &mut buf);
        let mut expected = [0u8; 4];
        let e = c.encode_utf8(&mut expected).len();
        assert_eq!(n, e);
        assert_eq!(&buf[..n], &expected[..e]);
    }
    let mut buf = [0u8; 4];
    assert_eq!(char_to_utf8('€', &mut buf), 3);
    assert_eq!(buf[..3], [0xE2, 0x82, 0xAC]);
}

#[test]
fn fold_from_options_keeps_present_prefix() {
    let mut f = Fold::from_options((Some('f'), Some('l'), None));
    assert_eq!(f.len(), 2);
    assert_eq!(f.next(), Some('f'));
    assert_eq!(f.next(), Some('l'));
    assert_eq!(f.next(), None);
    assert_eq!(Fold::from_options((Some('x'), None, Some('y'))).len(), 1);
    assert_eq!(Fold::from_options((None, Some('x'), Some('y'))).len(), 0);
    assert_eq!(Fold::from_options((Some('a'), Some('b'), Some('c'))).len(), 3);
}

#[test]
fn char_to_utf8_leaves_the_rest_of_the_buffer() {
    let mut buf = [9u8; 4];
    assert_eq!(char_to_utf8('é', &mut buf), 2);
    assert_eq!(buf, [0xC3, 0xA9, 9, 9]);
    let mut buf = [7u8; 4];
    assert_eq!(char_to_utf8('a', &mut buf), 1);
    assert_eq!(buf, [b'a', 7, 7, 7]);
}
