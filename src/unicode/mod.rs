use crate::text::Text;
use core::cmp::Ordering;
use core::hash::{Hash, Hasher};
use std::collections::hash_map::DefaultHasher;
use std::str::Chars;
use vstd::prelude::*;
use vstd::std_specs::iter::IteratorSpec;
use vstd::utf8::*;

pub mod fold;
pub mod stream;
pub mod map;

use fold::{char_fold, Fold};
use stream::{
    folded, hash_chunks, lemma_folded_concat, lemma_folded_single, lemma_lex_cmp_equal,
    lemma_lex_cmp_skip, lex_cmp, utf8_chunks,
};

verus! {

broadcast use vstd::string::group_string_axioms;

/// Takes the next code point of the fold stream made of `pending` followed by the folds
/// of the characters that `chars` has left.
fn next_folded(chars: &mut Chars, pending: &mut Fold) -> (r: Option<char>)
    ensures
        ({
            let before = old(pending)@ + folded((*old(chars)).remaining());
            let after = final(pending)@ + folded((*final(chars)).remaining());
            &&& r is None ==> before.len() == 0
            &&& r matches Some(x) ==> before.len() > 0 && x == before[0] && after
                == before.drop_first()
        }),
{
    if pending.len() == 0 {
        let ghost rest = (*chars).remaining();
        match chars.next() {
            None => {
                assert(pending@ + folded(rest) =~= Seq::<char>::empty());
                return None;
            },
            Some(c) => {
                proof {
                    assert(rest =~= seq![c] + (*chars).remaining());
                    lemma_folded_concat(seq![c], (*chars).remaining());
                    lemma_folded_single(c);
                }
                *pending = Fold::lookup(c);
                assert(old(pending)@ + folded(rest) =~= pending@ + folded((*chars).remaining()));
            },
        }
    }
    let ghost mid = folded((*chars).remaining());
    let r = pending.next();
    assert(pending@ + mid =~= (old(pending)@ + folded((*old(chars)).remaining())).drop_first());
    r
}

/// The fold stream of `t` starts with the fold stream of each of its prefixes.
proof fn lemma_folded_prefix(t: Seq<char>, j: int)
    requires
        0 <= j <= t.len(),
    ensures
        folded(t.take(j)) == folded(t).take(folded(t.take(j)).len() as int),
        folded(t.take(j)).len() <= folded(t).len(),
{
    assert(t =~= t.take(j) + t.skip(j));
    lemma_folded_concat(t.take(j), t.skip(j));
    assert(folded(t.take(j)) =~= folded(t).take(folded(t.take(j)).len() as int));
}

/// Compares the fold streams of two texts lazily, one character group at a time,
/// stopping at the first code point that differs.
pub fn fold_cmp(a: &str, b: &str) -> (r: Ordering)
    ensures
        r == lex_cmp(folded(a@), folded(b@)),
{
    let ghost fa = folded(a@);
    let ghost fb = folded(b@);
    let mut bchars = b.chars();
    let mut bpend = Fold::Zero;
    let ghost mut k: int = 0;
    assert(fb.skip(0) =~= fb);
    for c in it: a.chars()
        invariant
            fa == folded(a@),
            fb == folded(b@),
            it.seq() == a@,
            k == folded(a@.take(it.index())).len(),
            k <= fb.len(),
            fa.take(k) == fb.take(k),
            bpend@ + folded(bchars.remaining()) == fb.skip(k),
    {
        let ghost i = it.index();
        let mut f = Fold::lookup(c);
        proof {
            assert(a@.take(i + 1) =~= a@.take(i).push(c));
            assert(a@.take(i + 1).drop_last() =~= a@.take(i));
            lemma_folded_prefix(a@, i);
            lemma_folded_prefix(a@, i + 1);
        }
        loop
            invariant
                fa == folded(a@),
                fb == folded(b@),
                0 <= i < a@.len(),
                k + f@.len() == folded(a@.take(i + 1)).len(),
                fa.take(k) + f@ == folded(a@.take(i + 1)),
                folded(a@.take(i + 1)) == fa.take(folded(a@.take(i + 1)).len() as int),
                folded(a@.take(i + 1)).len() <= fa.len(),
                k <= fb.len(),
                fa.take(k) == fb.take(k),
                bpend@ + folded(bchars.remaining()) == fb.skip(k),
            ensures
                k == folded(a@.take(i + 1)).len(),
                k <= fb.len(),
                fa.take(k) == fb.take(k),
                bpend@ + folded(bchars.remaining()) == fb.skip(k),
            decreases f@.len(),
        {
            let ghost f0 = f@;
            let x = match f.next() {
                Some(x) => x,
                None => { break; },
            };
            assert(fa[k] == x) by {
                assert((fa.take(k) + f0)[k] == x);
            };
            match next_folded(&mut bchars, &mut bpend) {
                None => {
                    proof {
                        lemma_lex_cmp_skip(fa, fb, k);
                    }
                    return Ordering::Greater;
                },
                Some(y) => {
                    proof {
                        lemma_lex_cmp_skip(fa, fb, k);
                    }
                    if x < y {
                        return Ordering::Less;
                    } else if x > y {
                        return Ordering::Greater;
                    }
                    proof {
                        assert(fa.take(k + 1) =~= fa.take(k).push(x));
                        assert(fb.take(k + 1) =~= fb.take(k).push(y));
                        assert(fa.take(k + 1) + f@ =~= fa.take(k) + f0);
                        assert(fb.skip(k + 1) =~= fb.skip(k).drop_first());
                        k = k + 1;
                    }
                },
            }
        }
    }
    proof {
        assert(a@.take(a@.len() as int) =~= a@);
        lemma_lex_cmp_skip(fa, fb, k);
    }
    match next_folded(&mut bchars, &mut bpend) {
        None => {
            proof {
                lemma_lex_cmp_equal(fa, fb);
                assert(fa =~= fa.take(k));
                assert(fb =~= fb.take(k));
            }
            Ordering::Equal
        },
        Some(_) => Ordering::Less,
    }
}

/// Encodes `c` as UTF-8 into the front of `dst` and returns the number of bytes written.
pub fn char_to_utf8(c: char, dst: &mut [u8; 4]) -> (n: usize)
    ensures
        1 <= n <= 4,
        final(dst)@.subrange(0, n as int) == encode_scalar(c as u32),
        final(dst)@.subrange(n as int, 4) == old(dst)@.subrange(n as int, 4),
{
    let code = c as u32;
    if code <= 0x7F {
        dst[0] = code as u8;
        assert(leading_byte_width_1(code) == code as u8) by (bit_vector)
            requires code <= 0x7F;
        assert(dst@.subrange(0, 1) =~= encode_scalar(code));
        assert(dst@.subrange(1, 4) =~= old(dst)@.subrange(1, 4));
        1
    } else if code <= 0x7FF {
        dst[0] = 0xC0 | ((code >> 6) & 0x1F) as u8;
        dst[1] = 0x80 | (code & 0x3F) as u8;
        assert(dst@.subrange(0, 2) =~= encode_scalar(code));
        assert(dst@.subrange(2, 4) =~= old(dst)@.subrange(2, 4));
        2
    } else if code <= 0xFFFF {
        dst[0] = 0xE0 | ((code >> 12) & 0x0F) as u8;
        dst[1] = 0x80 | ((code >> 6) & 0x3F) as u8;
        dst[2] = 0x80 | (code & 0x3F) as u8;
        assert(dst@.subrange(0, 3) =~= encode_scalar(code));
        assert(dst@.subrange(3, 4) =~= old(dst)@.subrange(3, 4));
        3
    } else {
        dst[0] = 0xF0 | ((code >> 18) & 0x7) as u8;
        dst[1] = 0x80 | ((code >> 12) & 0x3F) as u8;
        dst[2] = 0x80 | ((code >> 6) & 0x3F) as u8;
        dst[3] = 0x80 | (code & 0x3F) as u8;
        assert(dst@.subrange(0, 4) =~= encode_scalar(code));
        assert(dst@.subrange(4, 4) =~= old(dst)@.subrange(4, 4));
        4
    }
}

/// Feeds `state` the UTF-8 bytes of each code point of the fold stream of `s`, one write
/// per code point, with no separator and no length.
pub fn fold_hash(s: &str, state: &mut DefaultHasher)
    ensures
        final(state)@ == old(state)@ + hash_chunks(s@),
{
    let mut buf = [0u8; 4];
    assert(s@.take(0) =~= Seq::<char>::empty());
    assert(old(state)@ + hash_chunks(Seq::<char>::empty()) =~= old(state)@);
    for c in it: s.chars()
        invariant
            it.seq() == s@,
            state@ == old(state)@ + hash_chunks(s@.take(it.index())),
    {
        let ghost i = it.index();
        let ghost before = state@;
        let mut f = Fold::lookup(c);
        loop
            invariant
                0 <= f@.len() <= char_fold(c).len(),
                f@ == char_fold(c).skip(char_fold(c).len() - f@.len()),
                state@ == before + utf8_chunks(char_fold(c).take(char_fold(c).len() - f@.len())),
            ensures
                f@.len() == 0,
                state@ == before + utf8_chunks(char_fold(c)),
            decreases f@.len(),
        {
            let ghost done = char_fold(c).len() - f@.len();
            let ghost f0 = f@;
            let n = match next_chunk(&mut f, &mut buf) {
                Some(n) => n,
                None => {
                    assert(char_fold(c).take(done) =~= char_fold(c));
                    break;
                },
            };
            let bytes = &buf.as_slice()[0..n];
            state.write(bytes);
            let ghost x = f0[0];
            assert(x == char_fold(c)[done]);
            assert(char_fold(c).take(done + 1) =~= char_fold(c).take(done).push(x));
            assert(utf8_chunks(char_fold(c).take(done + 1)) =~= utf8_chunks(char_fold(c).take(done)).push(bytes@));
        }
        proof {
            assert(s@.take(i + 1).drop_last() =~= s@.take(i));
            assert(s@.take(i + 1).last() == c);
            assert(utf8_chunks(folded(s@.take(i)) + char_fold(c)) =~= utf8_chunks(folded(s@.take(i))) + utf8_chunks(char_fold(c)));
        }
    }
    assert(s@.take(s@.len() as int) =~= s@);
}

/// Text wrapper whose equality, order and hash follow full Unicode case folding.
#[derive(Clone, Copy, Debug, Default)]
pub struct Unicode<S>(pub S);

/// Relies on `Hasher::write`: hands `bytes` to the hasher. Nothing is known of a
/// hasher's state in general, so nothing is stated.
#[verifier::external_body]
pub(crate) fn hasher_write<H: Hasher>(state: &mut H, bytes: &[u8]) {
    state.write(bytes)
}

/// Feeds any hasher what `fold_hash` feeds a `DefaultHasher`: the UTF-8 bytes of each
/// code point of the fold stream of `s`, one write per code point.
pub fn fold_hash_any<H: Hasher>(s: &str, state: &mut H) {
    let mut buf = [0u8; 4];
    for c in s.chars() {
        let mut f = Fold::lookup(c);
        loop
            decreases f@.len(),
        {
            match next_chunk(&mut f, &mut buf) {
                Some(n) => hasher_write(state, &buf.as_slice()[0..n]),
                None => { break; },
            }
        }
    }
}

/// Takes the first code point left in `f` and writes its UTF-8 encoding to the front of
/// `buf`, returning the number of bytes; `None` once `f` is empty. Both hashing paths
/// take their chunks from here.
pub fn next_chunk(f: &mut Fold, buf: &mut [u8; 4]) -> (r: Option<usize>)
    ensures
        old(f)@.len() == 0 ==> r is None && final(f)@ == old(f)@,
        old(f)@.len() > 0 ==> (r matches Some(n) && n <= 4 && final(buf)@.subrange(0, n as int)
            == encode_scalar(old(f)@[0] as u32) && final(f)@ == old(f)@.drop_first()),
{
    match f.next() {
        Some(x) => Some(char_to_utf8(x, buf)),
        None => None,
    }
}

/// Equality of fold streams, decided by the lazy comparison.
pub fn fold_eq(a: &str, b: &str) -> (r: bool)
    ensures
        r == (folded(a@) == folded(b@)),
{
    proof {
        lemma_lex_cmp_equal(folded(a@), folded(b@));
    }
    match fold_cmp(a, b) {
        Ordering::Equal => true,
        _ => false,
    }
}

impl<S: Text> Unicode<S> {
    /// Orders by the fold streams, code point by code point.
    pub fn cmp(&self, other: &Self) -> (r: Ordering)
        ensures
            r == lex_cmp(folded(self.0.text()), folded(other.0.text())),
    {
        fold_cmp(self.0.as_text(), other.0.as_text())
    }

    /// Feeds `state` exactly what `Hash::hash` feeds a hasher.
    pub fn hash_into(&self, state: &mut DefaultHasher)
        ensures
            final(state)@ == old(state)@ + hash_chunks(self.0.text()),
    {
        fold_hash(self.0.as_text(), state)
    }
}

impl<S1: Text, S2: Text> PartialEq<Unicode<S2>> for Unicode<S1> {
    fn eq(&self, other: &Unicode<S2>) -> (r: bool) {
        fold_eq(self.0.as_text(), other.0.as_text())
    }
}

impl<S1: Text, S2: Text> vstd::std_specs::cmp::PartialEqSpecImpl<Unicode<S2>> for Unicode<S1> {
    open spec fn obeys_eq_spec() -> bool {
        true
    }

    open spec fn eq_spec(&self, other: &Unicode<S2>) -> bool {
        folded(self.0.text()) == folded(other.0.text())
    }
}

impl<S: Text> Eq for Unicode<S> {

}

impl<S: Text> PartialOrd for Unicode<S> {
    fn partial_cmp(&self, other: &Self) -> (r: Option<Ordering>) {
        Some(self.cmp(other))
    }
}

impl<S: Text> vstd::std_specs::cmp::PartialOrdSpecImpl for Unicode<S> {
    open spec fn obeys_partial_cmp_spec() -> bool {
        true
    }

    open spec fn partial_cmp_spec(&self, other: &Self) -> Option<Ordering> {
        Some(lex_cmp(folded(self.0.text()), folded(other.0.text())))
    }
}

impl<S: Text> Hash for Unicode<S> {
    fn hash<H: Hasher>(&self, state: &mut H) {
        fold_hash_any(self.0.as_text(), state)
    }
}

} // verus!
