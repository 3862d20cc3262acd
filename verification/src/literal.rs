//! Runtime values.
//!
//! A [`Literal`] is the closed union of runtime values: booleans, numbers,
//! strings and nil.  A number is carried as its decimal text: verified code
//! moves number texts around but never computes with them — every
//! floating-point operation is delegated to the caller through the
//! evaluator's request protocol (see [`crate::interpreter`]).
//!
//! Strings are ordered lexicographically by Unicode scalar value; that order
//! is specified by [`chars_lt`] and decided by [`str_lt`].

use vstd::prelude::*;
use vstd::string::StrSliceExecFns;

verus! {

/// A runtime value: `Boolean`, `Nil`, a `Number` carried as its decimal
/// text, or an owned `Str`.
#[derive(Debug, PartialEq, Eq)]
pub enum Literal {
    Boolean(bool),
    Nil,
    Number(String),
    Str(String),
}

/// Mathematical image of a [`Literal`]: the same tag over character
/// sequences.
pub enum LiteralView {
    Boolean(bool),
    Nil,
    Number(Seq<char>),
    Str(Seq<char>),
}

impl View for Literal {
    type V = LiteralView;

    open spec fn view(&self) -> LiteralView {
        match self {
            Literal::Boolean(b) => LiteralView::Boolean(*b),
            Literal::Nil => LiteralView::Nil,
            Literal::Number(s) => LiteralView::Number(s@),
            Literal::Str(s) => LiteralView::Str(s@),
        }
    }
}

impl Clone for Literal {
    fn clone(&self) -> (res: Self)
        ensures
            res@ == self@,
    {
        match self {
            Literal::Boolean(b) => Literal::Boolean(*b),
            Literal::Nil => Literal::Nil,
            Literal::Number(s) => Literal::Number(s.clone()),
            Literal::Str(s) => Literal::Str(s.clone()),
        }
    }
}

impl LiteralView {
    /// The display form of a value: `"true"`/`"false"` for booleans, `"nil"`
    /// for nil, and the carried text for numbers and strings.
    pub open spec fn display(self) -> Seq<char> {
        match self {
            LiteralView::Boolean(b) => if b {
                "true"@
            } else {
                "false"@
            },
            LiteralView::Nil => "nil"@,
            LiteralView::Number(s) => s,
            LiteralView::Str(s) => s,
        }
    }
}

impl Literal {
    /// Render the value for display.  A computed number is shown as the text
    /// the caller answered the evaluator with; a number literal is shown as
    /// it was written in the source.
    pub fn display(&self) -> (text: String)
        ensures
            text@ == self@.display(),
    {
        match self {
            Literal::Boolean(b) => if *b {
                "true".to_owned()
            } else {
                "false".to_owned()
            },
            Literal::Nil => "nil".to_owned(),
            Literal::Number(s) => s.clone(),
            Literal::Str(s) => s.clone(),
        }
    }
}

/// Strict lexicographic order on character sequences, by Unicode scalar
/// value, with a proper prefix ordered before its extensions.
pub open spec fn chars_lt(a: Seq<char>, b: Seq<char>) -> bool
    decreases a.len(),
{
    if b.len() == 0 {
        false
    } else if a.len() == 0 {
        true
    } else if a[0] != b[0] {
        (a[0] as u32) < (b[0] as u32)
    } else {
        chars_lt(a.drop_first(), b.drop_first())
    }
}

/// Decide equality of two string slices, character by character.
pub fn str_eq(a: &str, b: &str) -> (r: bool)
    ensures
        r == (a@ == b@),
{
    let a_len = a.unicode_len();
    let b_len = b.unicode_len();
    if a_len != b_len {
        return false;
    }
    let mut i: usize = 0;
    while i < a_len
        invariant
            i <= a_len,
            a_len == a@.len(),
            a_len == b@.len(),
            forall|j: int| 0 <= j < i ==> a@[j] == b@[j],
        decreases a_len - i,
    {
        if a.get_char(i) != b.get_char(i) {
            return false;
        }
        i = i + 1;
    }
    proof {
        assert(a@ =~= b@);
    }
    true
}

/// Decide [`chars_lt`] on two string slices.
pub fn str_lt(a: &str, b: &str) -> (r: bool)
    ensures
        r == chars_lt(a@, b@),
{
    let a_len = a.unicode_len();
    let b_len = b.unicode_len();
    let mut i: usize = 0;
    proof {
        assert(a@.skip(0) =~= a@);
        assert(b@.skip(0) =~= b@);
    }
    while i < a_len && i < b_len
        invariant
            i <= a_len,
            i <= b_len,
            a_len == a@.len(),
            b_len == b@.len(),
            chars_lt(a@, b@) == chars_lt(a@.skip(i as int), b@.skip(i as int)),
        decreases a_len - i,
    {
        let ca = a.get_char(i);
        let cb = b.get_char(i);
        if ca != cb {
            proof {
                assert(a@.skip(i as int)[0] == a@[i as int]);
                assert(b@.skip(i as int)[0] == b@[i as int]);
            }
            return (ca as u32) < (cb as u32);
        }
        proof {
            assert(a@.skip(i as int).drop_first() =~= a@.skip(i + 1));
            assert(b@.skip(i as int).drop_first() =~= b@.skip(i + 1));
        }
        i = i + 1;
    }
    proof {
        if i >= a_len {
            assert(a@.skip(i as int).len() == 0);
        } else {
            assert(b@.skip(i as int).len() == 0);
        }
    }
    a_len < b_len
}

} // verus!
