use super::fold::char_fold;
use core::cmp::Ordering;
use vstd::prelude::*;
use vstd::utf8::encode_scalar;

verus! {

/// The fold stream of a text: the folds of its characters, flattened in order.
pub open spec fn folded(t: Seq<char>) -> Seq<char>
    decreases t.len(),
{
    if t.len() == 0 {
        seq![]
    } else {
        folded(t.drop_last()) + char_fold(t.last())
    }
}

/// Lexicographic order of two code point sequences; a strict prefix orders first.
pub open spec fn lex_cmp(x: Seq<char>, y: Seq<char>) -> Ordering
    decreases x.len(),
{
    if x.len() == 0 {
        if y.len() == 0 {
            Ordering::Equal
        } else {
            Ordering::Less
        }
    } else if y.len() == 0 {
        Ordering::Greater
    } else if x[0] < y[0] {
        Ordering::Less
    } else if x[0] > y[0] {
        Ordering::Greater
    } else {
        lex_cmp(x.drop_first(), y.drop_first())
    }
}

/// The UTF-8 encoding of each code point of `t`, one chunk per code point.
pub open spec fn utf8_chunks(t: Seq<char>) -> Seq<Seq<u8>> {
    t.map_values(|c: char| encode_scalar(c as u32))
}

/// What hashing a text feeds to a hasher: the UTF-8 chunks of its fold stream.
pub open spec fn hash_chunks(t: Seq<char>) -> Seq<Seq<u8>> {
    utf8_chunks(folded(t))
}

/// Folding distributes over concatenation.
pub proof fn lemma_folded_concat(x: Seq<char>, y: Seq<char>)
    ensures
        folded(x + y) == folded(x) + folded(y),
    decreases y.len(),
{
    if y.len() == 0 {
        assert(x + y =~= x);
        assert(folded(x) + folded(y) =~= folded(x));
    } else {
        let z = x + y;
        assert(z.drop_last() =~= x + y.drop_last());
        assert(z.last() == y.last());
        lemma_folded_concat(x, y.drop_last());
        assert(folded(z) =~= folded(x) + folded(y));
    }
}

/// The fold stream of a one-character text is that character's fold.
pub proof fn lemma_folded_single(c: char)
    ensures
        folded(seq![c]) == char_fold(c),
{
    assert(seq![c].drop_last() =~= Seq::<char>::empty());
    assert(folded(Seq::<char>::empty()) + char_fold(c) =~= char_fold(c));
}

/// Comparing after a common prefix is the same as comparing whole sequences.
pub proof fn lemma_lex_cmp_skip(x: Seq<char>, y: Seq<char>, k: int)
    requires
        0 <= k <= x.len(),
        k <= y.len(),
        x.take(k) == y.take(k),
    ensures
        lex_cmp(x, y) == lex_cmp(x.skip(k), y.skip(k)),
    decreases k,
{
    if k > 0 {
        assert(x[0] == x.take(k)[0]);
        assert(y[0] == y.take(k)[0]);
        assert(x.drop_first().take(k - 1) =~= x.take(k).drop_first());
        assert(y.drop_first().take(k - 1) =~= y.take(k).drop_first());
        lemma_lex_cmp_skip(x.drop_first(), y.drop_first(), k - 1);
        assert(x.drop_first().skip(k - 1) =~= x.skip(k));
        assert(y.drop_first().skip(k - 1) =~= y.skip(k));
    } else {
        assert(x.skip(0) =~= x);
        assert(y.skip(0) =~= y);
    }
}

/// Order is `Equal` exactly on equal sequences.
pub proof fn lemma_lex_cmp_equal(x: Seq<char>, y: Seq<char>)
    ensures
        (lex_cmp(x, y) == Ordering::Equal) == (x == y),
    decreases x.len(),
{
    if x.len() > 0 && y.len() > 0 {
        lemma_lex_cmp_equal(x.drop_first(), y.drop_first());
        if x[0] == y[0] && x.drop_first() == y.drop_first() {
            assert(x =~= seq![x[0]] + x.drop_first());
            assert(y =~= seq![y[0]] + y.drop_first());
        }
        if x == y {
            assert(x.drop_first() == y.drop_first());
        }
    } else if x.len() == 0 && y.len() == 0 {
        assert(x =~= y);
    } else {
        assert(x.len() != y.len());
    }
}

} // verus!
