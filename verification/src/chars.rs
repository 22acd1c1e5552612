//! Conversions between strings and their character sequences, and the one
//! character-class query that only the host can answer.
use vstd::prelude::*;
use vstd::string::StrSliceExecFns;

verus! {

/// The characters of a string, in order, as a vector.
pub fn str_chars(s: &str) -> (r: Vec<char>)
    ensures
        r@ == s@,
{
    let n = s.unicode_len();
    let mut out: Vec<char> = Vec::new();
    let mut i: usize = 0;
    while i < n
        invariant
            n == s@.len(),
            i <= n,
            out@ =~= s@.subrange(0, i as int),
        decreases n - i,
    {
        out.push(s.get_char(i));
        i = i + 1;
        proof {
            assert(out@ =~= s@.subrange(0, i as int));
        }
    }
    proof {
        assert(s@.subrange(0, n as int) =~= s@);
    }
    out
}

/// Relies on `Iterator::collect` for `String`: the collected string holds
/// exactly the characters of the vector, in order.
#[verifier::external_body]
pub fn string_from_chars(v: &Vec<char>) -> (r: String)
    ensures
        r@ == v@,
{
    v.iter().collect()
}

/// Whether two string slices hold the same characters.
pub fn str_eq(a: &str, b: &str) -> (r: bool)
    ensures
        r == (a@ == b@),
{
    let oa: String = a.to_owned();
    let ob: String = b.to_owned();
    oa == ob
}

/// Whether a character counts as alphanumeric in the host's Unicode tables.
pub uninterp spec fn is_alnum(c: char) -> bool;

/// Relies on `char::is_alphanumeric`: the answer is drawn from fixed Unicode
/// character tables and depends on the character alone.  Every ASCII letter
/// and digit is alphanumeric, and the language's punctuation is not.
#[verifier::external_body]
pub fn char_is_alnum(c: char) -> (r: bool)
    ensures
        r == is_alnum(c),
        ('0' <= c && c <= '9') ==> r,
        ('a' <= c && c <= 'z') ==> r,
        ('A' <= c && c <= 'Z') ==> r,
        (c == '(' || c == ')' || c == '[' || c == ']' || c == '"' || c == ':' || c == ' ' || c
            == '\t' || c == '\r' || c == '\n' || c == '-' || c == '.' || c == '_') ==> !r,
{
    c.is_alphanumeric()
}

} // verus!
