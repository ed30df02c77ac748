use caseless::Caseless;
use vstd::prelude::*;

verus! {

/// Full Unicode case folding (the C and F rules of CaseFolding.txt) of one character,
/// as the `caseless` crate's table gives it.
pub uninterp spec fn fold_of(c: char) -> Seq<char>;

/// The characters present in a triple of optional characters, up to the first absent one.
pub open spec fn present(r: (Option<char>, Option<char>, Option<char>)) -> Seq<char> {
    match r {
        (Some(a), Some(b), Some(c)) => seq![a, b, c],
        (Some(a), Some(b), None) => seq![a, b],
        (Some(a), None, _) => seq![a],
        (None, _, _) => seq![],
    }
}

/// Relies on `caseless::Caseless::default_case_fold` (the `CaseFold` iterator) applied to
/// the single character `c`: it yields `c`'s full case folding, which its table
/// (`[char; 3]` per entry, at least one character) bounds to one, two or three characters.
#[verifier::external_body]
pub(crate) fn table_fold(c: char) -> (r: (Option<char>, Option<char>, Option<char>))
    ensures
        present(r) == fold_of(c),
        r.0 is Some,
{
    let mut it = core::iter::once(c).default_case_fold();
    (it.next(), it.next(), it.next())
}

} // verus!
