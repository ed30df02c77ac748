//! Case-insensitive text: wrappers whose equality, order and hash ignore letter case,
//! by full Unicode case folding, with a byte-wise fast path for ASCII text.
use core::cmp::Ordering;
use core::hash::{Hash, Hasher};
use std::collections::hash_map::DefaultHasher;
use std::str::FromStr;
use vstd::prelude::*;

pub mod ascii;
pub mod laws;
mod noopt;
mod text;
mod unicode;

pub use noopt::UniCaseNoOpt;
pub use text::Text;
pub use unicode::fold::{ascii_lower, char_fold, Fold};
pub use unicode::map::{fold_of, present};
pub use unicode::stream::{folded, hash_chunks, lex_cmp, utf8_chunks};
pub use unicode::{char_to_utf8, Unicode};

use unicode::{fold_cmp, fold_eq, fold_hash, fold_hash_any};

verus! {

/// Case-insensitive wrapper of a string-like payload. ASCII text takes the byte-wise
/// fast path; any other text is compared by full Unicode case folding. Both give the
/// same results wherever both apply, so values of either kind mix freely.
#[derive(Clone, Debug)]
pub struct UniCase<S>(pub S);

impl<S> UniCase<S> {
    /// Wraps `s`.
    pub fn new(s: S) -> (r: UniCase<S>)
        ensures
            r.0 == s,
    {
        UniCase(s)
    }
}

impl<S: Text> UniCase<S> {
    /// The wrapped text, as it was given.
    pub fn as_str(&self) -> (r: &str)
        ensures
            r@ == self.0.text(),
    {
        self.0.as_text()
    }

    /// Orders by the fold streams, code point by code point.
    pub fn cmp(&self, other: &Self) -> (r: Ordering)
        ensures
            r == lex_cmp(folded(self.0.text()), folded(other.0.text())),
    {
        let a = self.0.as_text();
        let b = other.0.as_text();
        if a.is_ascii() && b.is_ascii() {
            proof {
                laws::lemma_ascii_path_agrees(a@, b@);
            }
            ascii::cmp(a, b)
        } else {
            fold_cmp(a, b)
        }
    }

    /// Feeds `state` exactly what `Hash::hash` feeds a hasher.
    pub fn hash_into(&self, state: &mut DefaultHasher)
        ensures
            final(state)@ == old(state)@ + hash_chunks(self.0.text()),
    {
        let a = self.0.as_text();
        if a.is_ascii() {
            proof {
                laws::lemma_ascii_path_agrees(a@, a@);
            }
            ascii::hash_into(a, state)
        } else {
            fold_hash(a, state)
        }
    }
}

/// Case-insensitive equality of two texts, by the fast path where both are ASCII.
pub(crate) fn text_eq(a: &str, b: &str) -> (r: bool)
    ensures
        r == (folded(a@) == folded(b@)),
{
    if a.is_ascii() && b.is_ascii() {
        proof {
            laws::lemma_ascii_path_agrees(a@, b@);
        }
        ascii::eq(a, b)
    } else {
        fold_eq(a, b)
    }
}

impl<S: Text> PartialEq for UniCase<S> {
    fn eq(&self, other: &UniCase<S>) -> (r: bool) {
        text_eq(self.0.as_text(), other.0.as_text())
    }
}

impl<S: Text> vstd::std_specs::cmp::PartialEqSpecImpl for UniCase<S> {
    open spec fn obeys_eq_spec() -> bool {
        true
    }

    open spec fn eq_spec(&self, other: &UniCase<S>) -> bool {
        folded(self.0.text()) == folded(other.0.text())
    }
}

impl<S: Text> PartialEq<S> for UniCase<S> {
    fn eq(&self, other: &S) -> (r: bool) {
        text_eq(self.0.as_text(), other.as_text())
    }
}

impl<S: Text> vstd::std_specs::cmp::PartialEqSpecImpl<S> for UniCase<S> {
    open spec fn obeys_eq_spec() -> bool {
        true
    }

    open spec fn eq_spec(&self, other: &S) -> bool {
        folded(self.0.text()) == folded(other.text())
    }
}

impl<S: Text> Eq for UniCase<S> {

}

impl<S: Text> PartialOrd for UniCase<S> {
    fn partial_cmp(&self, other: &Self) -> (r: Option<Ordering>) {
        Some(self.cmp(other))
    }
}

impl<S: Text> vstd::std_specs::cmp::PartialOrdSpecImpl for UniCase<S> {
    open spec fn obeys_partial_cmp_spec() -> bool {
        true
    }

    open spec fn partial_cmp_spec(&self, other: &Self) -> Option<Ordering> {
        Some(lex_cmp(folded(self.0.text()), folded(other.0.text())))
    }
}

impl<S: Text> Hash for UniCase<S> {
    fn hash<H: Hasher>(&self, state: &mut H) {
        let a = self.0.as_text();
        if a.is_ascii() {
            ascii::hash_any(a, state)
        } else {
            fold_hash_any(a, state)
        }
    }
}

impl<S> core::ops::Deref for UniCase<S> {
    type Target = S;

    fn deref(&self) -> (r: &S) {
        &self.0
    }
}

impl<S> core::ops::DerefMut for UniCase<S> {
    fn deref_mut(&mut self) -> (r: &mut S) {
        &mut self.0
    }
}

impl<S: Text> AsRef<str> for UniCase<S> {
    fn as_ref(&self) -> (r: &str)
        ensures
            r@ == self.0.text(),
    {
        self.0.as_text()
    }
}

impl FromStr for UniCase<String> {
    type Err = core::convert::Infallible;

    fn from_str(s: &str) -> (r: Result<UniCase<String>, core::convert::Infallible>)
        ensures
            r matches Ok(u) && u.0@ == s@,
    {
        Ok(UniCase(s.to_owned()))
    }
}

} // verus!
