use crate::text::Text;
use crate::unicode::stream::{folded, hash_chunks};
use crate::unicode::{fold_eq, fold_hash, fold_hash_any};
use crate::UniCase;
use core::hash::{Hash, Hasher};
use std::collections::hash_map::DefaultHasher;
use vstd::prelude::*;

verus! {

/// Case-insensitive wrapper that always takes the full Unicode folding path.
///
/// Over a borrowed slice it is a lookup key for values keyed by `UniCase`: it holds
/// the slice itself, copies nothing, and its equality and hash are those of the owning
/// wrapper, bit for bit.
#[derive(Clone, Copy, Debug)]
pub struct UniCaseNoOpt<S>(S);

impl<S> UniCaseNoOpt<S> {
    /// The wrapped payload.
    pub closed spec fn payload(&self) -> S {
        self.0
    }

    /// Wraps `s`.
    pub fn new(s: S) -> (r: Self)
        ensures
            r.payload() == s,
    {
        UniCaseNoOpt(s)
    }
}

impl<'s> UniCaseNoOpt<&'s str> {
    /// A view over the borrowed slice `s`, without copying it.
    pub fn from_ref(s: &'s str) -> (r: UniCaseNoOpt<&'s str>)
        ensures
            r.payload() == s,
    {
        UniCaseNoOpt(s)
    }
}

impl<S: Text> UniCaseNoOpt<S> {
    /// The wrapped text, as it was given.
    pub fn as_str(&self) -> (r: &str)
        ensures
            r@ == self.payload().text(),
    {
        self.0.as_text()
    }

    /// Feeds `state` exactly what `Hash::hash` feeds a hasher.
    pub fn hash_into(&self, state: &mut DefaultHasher)
        ensures
            final(state)@ == old(state)@ + hash_chunks(self.payload().text()),
    {
        fold_hash(self.0.as_text(), state)
    }
}

impl<S> From<S> for UniCaseNoOpt<S> {
    fn from(s: S) -> (r: UniCaseNoOpt<S>)
        ensures
            r.payload() == s,
    {
        UniCaseNoOpt(s)
    }
}

impl<S> vstd::std_specs::convert::FromSpecImpl<S> for UniCaseNoOpt<S> {
    open spec fn obeys_from_spec() -> bool {
        true
    }

    open spec fn from_spec(s: S) -> UniCaseNoOpt<S> {
        UniCaseNoOpt::new_spec(s)
    }
}

impl<S> UniCaseNoOpt<S> {
    /// The wrapper of `s`, in specifications.
    pub closed spec fn new_spec(s: S) -> UniCaseNoOpt<S> {
        UniCaseNoOpt(s)
    }

    /// The wrapper of `s` holds `s`.
    pub proof fn lemma_new_spec_payload(s: S)
        ensures
            Self::new_spec(s).payload() == s,
    {
    }
}

impl<S: Text, T: Text> PartialEq<UniCaseNoOpt<T>> for UniCaseNoOpt<S> {
    fn eq(&self, other: &UniCaseNoOpt<T>) -> (r: bool) {
        fold_eq(self.0.as_text(), other.0.as_text())
    }
}

impl<S: Text, T: Text> vstd::std_specs::cmp::PartialEqSpecImpl<UniCaseNoOpt<T>> for UniCaseNoOpt<S> {
    open spec fn obeys_eq_spec() -> bool {
        true
    }

    open spec fn eq_spec(&self, other: &UniCaseNoOpt<T>) -> bool {
        folded(self.payload().text()) == folded(other.payload().text())
    }
}

impl<S: Text> Eq for UniCaseNoOpt<S> {

}

impl<S: Text> Hash for UniCaseNoOpt<S> {
    fn hash<H: Hasher>(&self, state: &mut H) {
        fold_hash_any(self.0.as_text(), state)
    }
}

impl<S: Text> UniCase<S> {
    /// The lookup key over this wrapper's text: a view of the same bytes.
    pub fn as_key(&self) -> (r: UniCaseNoOpt<&str>)
        ensures
            r.payload()@ == self.0.text(),
    {
        UniCaseNoOpt(self.0.as_text())
    }
}

impl<S: Text, T: Text> PartialEq<UniCaseNoOpt<T>> for UniCase<S> {
    fn eq(&self, other: &UniCaseNoOpt<T>) -> (r: bool) {
        crate::text_eq(self.0.as_text(), other.0.as_text())
    }
}

impl<S: Text, T: Text> vstd::std_specs::cmp::PartialEqSpecImpl<UniCaseNoOpt<T>> for UniCase<S> {
    open spec fn obeys_eq_spec() -> bool {
        true
    }

    open spec fn eq_spec(&self, other: &UniCaseNoOpt<T>) -> bool {
        folded(self.0.text()) == folded(other.payload().text())
    }
}

} // verus!
