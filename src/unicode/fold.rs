use super::map::{fold_of, present, table_fold};
use vstd::prelude::*;

verus! {

/// ASCII lowering of one character: `A`..=`Z` become `a`..=`z`, anything else is kept.
pub open spec fn ascii_lower(c: char) -> char {
    if 'A' <= c && c <= 'Z' {
        ((c as u32) + 0x20) as char
    } else {
        c
    }
}

/// What one character folds to. ASCII characters fold by ASCII lowering (the table
/// maps exactly `A`..=`Z` in that range); every other character folds as the table says.
pub open spec fn char_fold(c: char) -> Seq<char> {
    if (c as u32) < 0x80 {
        seq![ascii_lower(c)]
    } else {
        fold_of(c)
    }
}

/// The code points that one character folds to, consumed front to back.
#[derive(Clone, Copy, Debug)]
pub enum Fold {
    Zero,
    One(char),
    Two(char, char),
    Three(char, char, char),
}

impl View for Fold {
    type V = Seq<char>;

    open spec fn view(&self) -> Seq<char> {
        match *self {
            Fold::Zero => seq![],
            Fold::One(a) => seq![a],
            Fold::Two(a, b) => seq![a, b],
            Fold::Three(a, b, c) => seq![a, b, c],
        }
    }
}

/// Lowers an ASCII letter; leaves every other character as it is.
pub fn to_ascii_lower(c: char) -> (r: char)
    ensures
        r == ascii_lower(c),
{
    if 'A' <= c && c <= 'Z' {
        ((c as u8) + 0x20) as char
    } else {
        c
    }
}

impl Fold {
    /// Looks up what `c` folds to.
    pub fn lookup(c: char) -> (r: Fold)
        ensures
            r@ == char_fold(c),
            r@.len() >= 1,
    {
        if (c as u32) < 0x80 {
            Fold::One(to_ascii_lower(c))
        } else {
            Fold::from_options(table_fold(c))
        }
    }

    /// The fold made of the present characters of `r`, up to the first absent one.
    pub fn from_options(r: (Option<char>, Option<char>, Option<char>)) -> (f: Fold)
        ensures
            f@ == present(r),
    {
        match r {
            (Some(a), Some(b), Some(d)) => Fold::Three(a, b, d),
            (Some(a), Some(b), None) => Fold::Two(a, b),
            (Some(a), None, _) => Fold::One(a),
            (None, _, _) => Fold::Zero,
        }
    }

    /// Takes the first remaining code point, or `None` once all were taken.
    pub fn next(&mut self) -> (r: Option<char>)
        ensures
            old(self)@.len() == 0 ==> r is None && final(self)@ == old(self)@,
            old(self)@.len() > 0 ==> r == Some(old(self)@[0]) && final(self)@
                == old(self)@.drop_first(),
    {
        match *self {
            Fold::Zero => None,
            Fold::One(a) => {
                *self = Fold::Zero;
                Some(a)
            },
            Fold::Two(a, b) => {
                *self = Fold::One(b);
                Some(a)
            },
            Fold::Three(a, b, c) => {
                *self = Fold::Two(b, c);
                Some(a)
            },
        }
    }

    /// The exact number of code points left, as a lower and an upper bound.
    pub fn size_hint(&self) -> (r: (usize, Option<usize>))
        ensures
            r.0 == self@.len(),
            r.1 == Some(self@.len() as usize),
    {
        match *self {
            Fold::Zero => (0, Some(0)),
            Fold::One(..) => (1, Some(1)),
            Fold::Two(..) => (2, Some(2)),
            Fold::Three(..) => (3, Some(3)),
        }
    }

    /// Number of code points left.
    pub fn len(&self) -> (r: usize)
        ensures
            r == self@.len(),
    {
        self.size_hint().0
    }
}

impl From<(char,)> for Fold {
    fn from(t: (char,)) -> (r: Fold) {
        Fold::One(t.0)
    }
}

impl vstd::std_specs::convert::FromSpecImpl<(char,)> for Fold {
    open spec fn obeys_from_spec() -> bool {
        true
    }

    open spec fn from_spec(t: (char,)) -> Fold {
        Fold::One(t.0)
    }
}

impl From<(char, char)> for Fold {
    fn from(t: (char, char)) -> (r: Fold) {
        Fold::Two(t.0, t.1)
    }
}

impl vstd::std_specs::convert::FromSpecImpl<(char, char)> for Fold {
    open spec fn obeys_from_spec() -> bool {
        true
    }

    open spec fn from_spec(t: (char, char)) -> Fold {
        Fold::Two(t.0, t.1)
    }
}

impl From<(char, char, char)> for Fold {
    fn from(t: (char, char, char)) -> (r: Fold) {
        Fold::Three(t.0, t.1, t.2)
    }
}

impl vstd::std_specs::convert::FromSpecImpl<(char, char, char)> for Fold {
    open spec fn obeys_from_spec() -> bool {
        true
    }

    open spec fn from_spec(t: (char, char, char)) -> Fold {
        Fold::Three(t.0, t.1, t.2)
    }
}

} // verus!
