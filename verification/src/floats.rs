//! Double-precision values travel through the language as the decimal text
//! that denotes them: a literal keeps exactly the characters it was written
//! with, and printing a float prints that text back.  Only the four float
//! arithmetic operators need the host's floating-point unit; the evaluator
//! receives that single operation as an ordinary function argument.
use vstd::prelude::*;

verus! {

/// Whether a decimal text denotes the value zero: every character is a sign,
/// a zero digit or the point.  On any decimal representation this coincides
/// with comparing the denoted value against zero.
pub open spec fn float_text_is_zero(s: Seq<char>) -> bool {
    s.len() > 0 && forall|i: int| 0 <= i < s.len() ==> (s[i] == '0' || s[i] == '-' || s[i] == '.')
}

/// Executable form of `float_text_is_zero`.
pub fn float_text_zero(s: &str) -> (r: bool)
    ensures
        r == float_text_is_zero(s@),
{
    let chars = crate::chars::str_chars(s);
    let mut i: usize = 0;
    while i < chars.len()
        invariant
            i <= chars.len(),
            chars@ == s@,
            forall|j: int| 0 <= j < i ==> (s@[j] == '0' || s@[j] == '-' || s@[j] == '.'),
        decreases chars.len() - i,
    {
        let c = chars[i];
        if !(c == '0' || c == '-' || c == '.') {
            return false;
        }
        i = i + 1;
    }
    chars.len() > 0
}

} // verus!
