use crate::unicode::fold::{ascii_lower, char_fold};
use crate::unicode::hasher_write;
use crate::unicode::stream::{folded, lemma_lex_cmp_skip, lex_cmp, utf8_chunks};
use core::cmp::Ordering;
use core::hash::Hasher;
use std::collections::hash_map::DefaultHasher;
use vstd::prelude::*;
use vstd::string::is_ascii;
use vstd::utf8::{encode_scalar, is_ascii_chars, leading_byte_width_1};

verus! {

broadcast use vstd::string::group_string_axioms;

/// ASCII lowering of every character of `t`.
pub open spec fn lower_seq(t: Seq<char>) -> Seq<char> {
    t.map_values(|c: char| ascii_lower(c))
}

/// ASCII lowering of one byte.
pub open spec fn lower_byte(b: u8) -> u8 {
    if 0x41 <= b && b <= 0x5A {
        (b + 0x20) as u8
    } else {
        b
    }
}

/// Lowers an ASCII letter byte; leaves every other byte as it is.
pub fn to_lower_byte(b: u8) -> (r: u8)
    ensures
        r == lower_byte(b),
{
    if 0x41 <= b && b <= 0x5A {
        b + 0x20
    } else {
        b
    }
}

/// The one-byte chunk that hashing writes for byte `b` on the fast path: `b`, lowered.
/// Both hashing paths take their chunks from here.
pub fn lower_chunk(b: u8) -> (r: [u8; 1])
    ensures
        r@ == seq![lower_byte(b)],
{
    let r = [to_lower_byte(b)];
    assert(r@ =~= seq![lower_byte(b)]);
    r
}

/// On ASCII text the fold stream is the ASCII lowering, character for character.
pub proof fn lemma_folded_ascii(t: Seq<char>)
    requires
        is_ascii_chars(t),
    ensures
        folded(t) == lower_seq(t),
    decreases t.len(),
{
    if t.len() > 0 {
        let u = t.drop_last();
        assert(is_ascii_chars(u)) by {
            assert forall|i: int| 0 <= i < u.len() implies (u[i] as u32) < 0x80 by {
                assert(u[i] == t[i]);
            };
        };
        lemma_folded_ascii(u);
        assert((t.last() as u32) < 0x80) by {
            assert(t.last() == t[t.len() - 1]);
        };
        assert(char_fold(t.last()) == seq![ascii_lower(t.last())]);
        assert(folded(t) =~= lower_seq(t));
    }
}

/// The byte of an ASCII character, lowered, is the byte of its lowering.
proof fn lemma_lower_byte(c: char)
    requires
        (c as u32) < 0x80,
    ensures
        lower_byte(c as u8) == ascii_lower(c) as u8,
        (ascii_lower(c) as u32) < 0x80,
        encode_scalar(ascii_lower(c) as u32) == seq![lower_byte(c as u8)],
{
    let v = ascii_lower(c) as u32;
    assert(leading_byte_width_1(v) == v as u8) by (bit_vector)
        requires
            v < 0x80,
    ;
    assert(encode_scalar(v) =~= seq![lower_byte(c as u8)]);
}

/// Two ASCII characters are equal exactly when their bytes are.
proof fn lemma_ascii_byte_order(x: char, y: char)
    requires
        (x as u32) < 0x80,
        (y as u32) < 0x80,
    ensures
        (x == y) == ((x as u8) == (y as u8)),
        (x < y) == ((x as u8) < (y as u8)),
{
    assert(x as int == (x as u8) as int);
    assert(y as int == (y as u8) as int);
}

/// Case-insensitive equality of two ASCII texts, byte by byte.
pub fn eq(a: &str, b: &str) -> (r: bool)
    requires
        is_ascii(a),
        is_ascii(b),
    ensures
        r == (lower_seq(a@) == lower_seq(b@)),
{
    let ab = a.as_bytes();
    let bb = b.as_bytes();
    assert(ab@ =~= Seq::new(a@.len(), |i| a@[i] as u8));
    assert(bb@ =~= Seq::new(b@.len(), |i| b@[i] as u8));
    if ab.len() != bb.len() {
        assert(lower_seq(a@).len() != lower_seq(b@).len());
        return false;
    }
    let mut i: usize = 0;
    while i < ab.len()
        invariant
            ab@ == Seq::new(a@.len(), |i| a@[i] as u8),
            bb@ == Seq::new(b@.len(), |i| b@[i] as u8),
            ab@.len() == bb@.len(),
            is_ascii_chars(a@),
            is_ascii_chars(b@),
            i <= ab@.len(),
            lower_seq(a@).take(i as int) == lower_seq(b@).take(i as int),
        decreases ab@.len() - i,
    {
        proof {
            lemma_lower_byte(a@[i as int]);
            lemma_lower_byte(b@[i as int]);
            lemma_ascii_byte_order(ascii_lower(a@[i as int]), ascii_lower(b@[i as int]));
        }
        if to_lower_byte(ab[i]) != to_lower_byte(bb[i]) {
            assert(lower_seq(a@)[i as int] != lower_seq(b@)[i as int]);
            return false;
        }
        assert(lower_seq(a@).take(i + 1) =~= lower_seq(a@).take(i as int).push(lower_seq(a@)[i as int]));
        assert(lower_seq(b@).take(i + 1) =~= lower_seq(b@).take(i as int).push(lower_seq(b@)[i as int]));
        i = i + 1;
    }
    assert(lower_seq(a@) =~= lower_seq(a@).take(i as int));
    assert(lower_seq(b@) =~= lower_seq(b@).take(i as int));
    true
}

/// Case-insensitive order of two ASCII texts, byte by byte.
pub fn cmp(a: &str, b: &str) -> (r: Ordering)
    requires
        is_ascii(a),
        is_ascii(b),
    ensures
        r == lex_cmp(lower_seq(a@), lower_seq(b@)),
{
    let ab = a.as_bytes();
    let bb = b.as_bytes();
    assert(ab@ =~= Seq::new(a@.len(), |i| a@[i] as u8));
    assert(bb@ =~= Seq::new(b@.len(), |i| b@[i] as u8));
    let ghost la = lower_seq(a@);
    let ghost lb = lower_seq(b@);
    let mut i: usize = 0;
    while i < ab.len() && i < bb.len()
        invariant
            la == lower_seq(a@),
            lb == lower_seq(b@),
            ab@ == Seq::new(a@.len(), |i| a@[i] as u8),
            bb@ == Seq::new(b@.len(), |i| b@[i] as u8),
            is_ascii_chars(a@),
            is_ascii_chars(b@),
            i <= ab@.len(),
            i <= bb@.len(),
            la.take(i as int) == lb.take(i as int),
        decreases ab@.len() - i,
    {
        proof {
            lemma_lower_byte(a@[i as int]);
            lemma_lower_byte(b@[i as int]);
            lemma_ascii_byte_order(ascii_lower(a@[i as int]), ascii_lower(b@[i as int]));
            lemma_lex_cmp_skip(la, lb, i as int);
        }
        let x = to_lower_byte(ab[i]);
        let y = to_lower_byte(bb[i]);
        if x < y {
            return Ordering::Less;
        } else if x > y {
            return Ordering::Greater;
        }
        assert(la.take(i + 1) =~= la.take(i as int).push(la[i as int]));
        assert(lb.take(i + 1) =~= lb.take(i as int).push(lb[i as int]));
        i = i + 1;
    }
    proof {
        lemma_lex_cmp_skip(la, lb, i as int);
    }
    if ab.len() == bb.len() {
        assert(la =~= la.take(i as int));
        assert(lb =~= lb.take(i as int));
        proof {
            crate::unicode::stream::lemma_lex_cmp_equal(la, lb);
        }
        Ordering::Equal
    } else if i == ab.len() {
        Ordering::Less
    } else {
        Ordering::Greater
    }
}

/// Feeds `state` each byte of the ASCII text `s`, lowered, one write per byte.
pub fn hash_into(s: &str, state: &mut DefaultHasher)
    requires
        is_ascii(s),
    ensures
        final(state)@ == old(state)@ + utf8_chunks(lower_seq(s@)),
{
    let sb = s.as_bytes();
    assert(sb@ =~= Seq::new(s@.len(), |i| s@[i] as u8));
    assert(sb@.len() == s@.len());
    let mut i: usize = 0;
    assert(old(state)@ + utf8_chunks(lower_seq(s@).take(0)) =~= old(state)@);
    while i < sb.len()
        invariant
            sb@ == Seq::new(s@.len(), |i| s@[i] as u8),
            sb@.len() == s@.len(),
            is_ascii_chars(s@),
            i <= sb@.len(),
            state@ == old(state)@ + utf8_chunks(lower_seq(s@).take(i as int)),
        decreases sb@.len() - i,
    {
        proof {
            lemma_lower_byte(s@[i as int]);
        }
        let one = lower_chunk(sb[i]);
        assert(one@ == seq![lower_byte(s@[i as int] as u8)]);
        assert(encode_scalar(lower_seq(s@)[i as int] as u32) == one@);
        state.write(one.as_slice());
        assert(lower_seq(s@).take(i + 1) =~= lower_seq(s@).take(i as int).push(lower_seq(s@)[i as int]));
        assert(utf8_chunks(lower_seq(s@).take(i + 1)) =~= utf8_chunks(lower_seq(s@).take(i as int)).push(one@));
        i = i + 1;
    }
    assert(i == s@.len());
    assert(lower_seq(s@).len() == s@.len());
    assert(lower_seq(s@).take(i as int) =~= lower_seq(s@));
}

/// Feeds any hasher what `hash_into` feeds a `DefaultHasher`.
pub fn hash_any<H: Hasher>(s: &str, state: &mut H) {
    let sb = s.as_bytes();
    let mut i: usize = 0;
    while i < sb.len()
        decreases sb@.len() - i,
    {
        let one = lower_chunk(sb[i]);
        hasher_write(state, one.as_slice());
        i = i + 1;
    }
}

} // verus!
