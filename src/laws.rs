//! Laws that relate the library's operations, proved over their models.
use crate::ascii::{lemma_folded_ascii, lower_seq};
use crate::text::Text;
use crate::unicode::stream::{folded, hash_chunks, lemma_lex_cmp_equal, lemma_lex_cmp_skip, lex_cmp, utf8_chunks};
use crate::{UniCase, UniCaseNoOpt, Unicode};
use core::cmp::Ordering;
use vstd::prelude::*;
use vstd::std_specs::cmp::{PartialEqSpec, PartialOrdSpec};
use vstd::utf8::is_ascii_chars;

verus! {

/// On ASCII text the fast path and the Unicode path agree: equality, hash input and
/// order computed from ASCII lowering are those computed from the fold streams.
pub proof fn lemma_ascii_path_agrees(a: Seq<char>, b: Seq<char>)
    requires
        is_ascii_chars(a),
        is_ascii_chars(b),
    ensures
        (lower_seq(a) == lower_seq(b)) == (folded(a) == folded(b)),
        utf8_chunks(lower_seq(a)) == hash_chunks(a),
        lex_cmp(lower_seq(a), lower_seq(b)) == lex_cmp(folded(a), folded(b)),
{
    lemma_folded_ascii(a);
    lemma_folded_ascii(b);
}

/// `UniCase` equality is reflexive, symmetric and transitive.
pub proof fn lemma_unicase_eq_equivalence<S: Text>(a: UniCase<S>, b: UniCase<S>, c: UniCase<S>)
    ensures
        a.eq_spec(&a),
        a.eq_spec(&b) == b.eq_spec(&a),
        a.eq_spec(&b) && b.eq_spec(&c) ==> a.eq_spec(&c),
{
}

/// `Unicode` equality is reflexive, symmetric and transitive.
pub proof fn lemma_unicode_eq_equivalence<S: Text>(a: Unicode<S>, b: Unicode<S>, c: Unicode<S>)
    ensures
        a.eq_spec(&a),
        a.eq_spec(&b) == b.eq_spec(&a),
        a.eq_spec(&b) && b.eq_spec(&c) ==> a.eq_spec(&c),
{
}

/// `UniCaseNoOpt` equality is reflexive, symmetric and transitive.
pub proof fn lemma_noopt_eq_equivalence<S: Text>(
    a: UniCaseNoOpt<S>,
    b: UniCaseNoOpt<S>,
    c: UniCaseNoOpt<S>,
)
    ensures
        a.eq_spec(&a),
        a.eq_spec(&b) == b.eq_spec(&a),
        a.eq_spec(&b) && b.eq_spec(&c) ==> a.eq_spec(&c),
{
}

/// Equal `UniCase` values feed a hasher the same bytes.
pub proof fn lemma_unicase_hash_agrees<S: Text>(a: UniCase<S>, b: UniCase<S>)
    ensures
        a.eq_spec(&b) ==> hash_chunks(a.0.text()) == hash_chunks(b.0.text()),
{
}

/// Equal `Unicode` values feed a hasher the same bytes.
pub proof fn lemma_unicode_hash_agrees<S: Text>(a: Unicode<S>, b: Unicode<S>)
    ensures
        a.eq_spec(&b) ==> hash_chunks(a.0.text()) == hash_chunks(b.0.text()),
{
}

/// Equal `UniCaseNoOpt` values feed a hasher the same bytes.
pub proof fn lemma_noopt_hash_agrees<S: Text>(a: UniCaseNoOpt<S>, b: UniCaseNoOpt<S>)
    ensures
        a.eq_spec(&b) ==> hash_chunks(a.payload().text()) == hash_chunks(b.payload().text()),
{
}

/// A borrowed key stands in for an owned `UniCase`: it is equal to exactly the owned
/// values that are equal to the `UniCase` over its own text, and when equal to one it
/// feeds a hasher the same bytes.
pub proof fn lemma_borrowed_key_agrees<S: Text, T: Text>(u: UniCase<S>, k: UniCaseNoOpt<T>)
    ensures
        u.eq_spec(&k) == (folded(u.0.text()) == folded(k.payload().text())),
        u.eq_spec(&k) ==> hash_chunks(u.0.text()) == hash_chunks(k.payload().text()),
{
}

/// Order agrees with equality: two values order as `Equal` exactly when they are equal.
pub proof fn lemma_cmp_equal_iff_eq<S: Text>(a: UniCase<S>, b: UniCase<S>, x: Unicode<S>, y: Unicode<S>)
    ensures
        (a.partial_cmp_spec(&b) == Some(Ordering::Equal)) == a.eq_spec(&b),
        (x.partial_cmp_spec(&y) == Some(Ordering::Equal)) == x.eq_spec(&y),
{
    lemma_lex_cmp_equal(folded(a.0.text()), folded(b.0.text()));
    lemma_lex_cmp_equal(folded(x.0.text()), folded(y.0.text()));
}

/// The empty text is equal to the empty text.
pub proof fn lemma_empty_eq<S: Text>(a: UniCase<S>, b: UniCase<S>)
    requires
        a.0.text().len() == 0,
        b.0.text().len() == 0,
    ensures
        a.eq_spec(&b),
        a.partial_cmp_spec(&b) == Some(Ordering::Equal),
{
    assert(a.0.text() =~= b.0.text());
}

/// A text whose fold stream is a strict prefix of another's is never equal to it, and
/// orders before it.
pub proof fn lemma_strict_prefix<S: Text>(a: UniCase<S>, b: UniCase<S>)
    requires
        folded(a.0.text()).len() < folded(b.0.text()).len(),
        folded(a.0.text()) == folded(b.0.text()).take(folded(a.0.text()).len() as int),
    ensures
        !a.eq_spec(&b),
        a.partial_cmp_spec(&b) == Some(Ordering::Less),
{
    let x = folded(a.0.text());
    let y = folded(b.0.text());
    assert(x.take(x.len() as int) =~= x);
    lemma_lex_cmp_skip(x, y, x.len() as int);
    assert(x.skip(x.len() as int).len() == 0);
}

/// A value rebuilt from the text of another, in any payload kind, is equal to it:
/// writing out the unfolded text and wrapping it again loses nothing.
pub proof fn lemma_text_round_trip<S: Text, T: Text>(w: UniCase<S>, v: UniCase<T>)
    requires
        v.0.text() == w.0.text(),
    ensures
        folded(v.0.text()) == folded(w.0.text()),
        hash_chunks(v.0.text()) == hash_chunks(w.0.text()),
{
}

} // verus!
