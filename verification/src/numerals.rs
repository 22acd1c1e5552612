//! Decimal numerals: the canonical decimal text of an integer, the integer
//! value of a run of digit characters, and executable conversions both ways.
use vstd::prelude::*;

verus! {

/// The digit character for a value below ten.
pub open spec fn digit_char(d: nat) -> char
    recommends
        d < 10,
{
    if d == 0 {
        '0'
    } else if d == 1 {
        '1'
    } else if d == 2 {
        '2'
    } else if d == 3 {
        '3'
    } else if d == 4 {
        '4'
    } else if d == 5 {
        '5'
    } else if d == 6 {
        '6'
    } else if d == 7 {
        '7'
    } else if d == 8 {
        '8'
    } else {
        '9'
    }
}

pub open spec fn is_digit_char(c: char) -> bool {
    '0' <= c && c <= '9'
}

/// Numeric value of a single digit character.
pub open spec fn char_digit_val(c: char) -> nat
    recommends
        is_digit_char(c),
{
    (c as u32 - 48) as nat
}

/// Canonical decimal digit string of a natural number, no leading zeros.
pub open spec fn dec_digits(n: nat) -> Seq<char>
    decreases n,
{
    if n < 10 {
        seq![digit_char(n)]
    } else {
        dec_digits(n / 10).push(digit_char(n % 10))
    }
}

/// Canonical decimal text of an integer: a minus sign for negatives.
pub open spec fn int_text(n: int) -> Seq<char> {
    if n < 0 {
        seq!['-'].add(dec_digits((-n) as nat))
    } else {
        dec_digits(n as nat)
    }
}

pub open spec fn all_digits(s: Seq<char>) -> bool {
    forall|i: int| 0 <= i < s.len() ==> is_digit_char(#[trigger] s[i])
}

/// Value of a digit run, read left to right.
pub open spec fn digits_val(s: Seq<char>) -> nat
    decreases s.len(),
{
    if s.len() == 0 {
        0
    } else {
        digits_val(s.drop_last()) * 10 + char_digit_val(s.last())
    }
}

pub proof fn lemma_digit_char_val(d: nat)
    requires
        d < 10,
    ensures
        is_digit_char(digit_char(d)),
        char_digit_val(digit_char(d)) == d,
{
}

pub proof fn lemma_dec_digits(n: nat)
    ensures
        dec_digits(n).len() >= 1,
        all_digits(dec_digits(n)),
        digits_val(dec_digits(n)) == n,
        n >= 10 ==> dec_digits(n).len() >= 2,
        n > 0 ==> dec_digits(n).first() != '0',
    decreases n,
{
    if n < 10 {
        lemma_digit_char_val(n);
        assert(dec_digits(n) =~= seq![digit_char(n)]);
        assert(dec_digits(n).drop_last() =~= Seq::<char>::empty());
        assert(digits_val(Seq::<char>::empty()) == 0);
        assert(digits_val(dec_digits(n)) == n);
    } else {
        lemma_dec_digits(n / 10);
        lemma_digit_char_val(n % 10);
        let prefix = dec_digits(n / 10);
        let whole = prefix.push(digit_char(n % 10));
        assert(whole.drop_last() =~= prefix);
        assert(whole.last() == digit_char(n % 10));
        assert(digits_val(whole) == (n / 10) * 10 + n % 10);
        assert((n / 10) * 10 + n % 10 == n) by (nonlinear_arith);
        assert(whole.first() == prefix.first());
        assert(n / 10 > 0);
        assert(forall|i: int|
            0 <= i < whole.len() ==> is_digit_char(#[trigger] whole[i])) by {
            assert(forall|i: int|
                0 <= i < prefix.len() ==> is_digit_char(#[trigger] prefix[i]));
        }
    }
}

/// Executable digit test, the specification's digit class exactly.
pub fn is_digit(c: char) -> (r: bool)
    ensures
        r == is_digit_char(c),
{
    '0' <= c && c <= '9'
}

/// The digit character of a value below ten.
pub fn digit_to_char(d: u64) -> (r: char)
    requires
        d < 10,
    ensures
        r == digit_char(d as nat),
{
    match d {
        0 => '0',
        1 => '1',
        2 => '2',
        3 => '3',
        4 => '4',
        5 => '5',
        6 => '6',
        7 => '7',
        8 => '8',
        _ => '9',
    }
}

/// The numeric value of a digit character.
pub fn char_to_digit(c: char) -> (r: u64)
    requires
        is_digit_char(c),
    ensures
        r == char_digit_val(c),
        r < 10,
{
    (c as u32 - 48) as u64
}

/// The canonical digit characters of a 64-bit natural number.
#[verifier::rlimit(30)]
pub fn u64_digits(n: u64) -> (r: Vec<char>)
    ensures
        r@ == dec_digits(n as nat),
{
    let mut rev: Vec<char> = Vec::new();
    let mut m: u64 = n;
    loop
        invariant_except_break
            rev.len() == 0 ==> m == n,
            rev.len() > 0 ==> m > 0,
            dec_digits(n as nat) == if rev.len() == 0 {
                dec_digits(m as nat)
            } else {
                dec_digits(m as nat).add(rev@.reverse())
            },
        ensures
            rev@.reverse() == dec_digits(n as nat),
        decreases m,
    {
        let ghost old_m = m as nat;
        let ghost old_rev = rev@;
        let c = digit_to_char(m % 10);
        rev.push(c);
        m = m / 10;
        proof {
            assert(rev@ =~= old_rev.push(digit_char(old_m % 10)));
            assert(rev@.reverse() =~= seq![digit_char(old_m % 10)].add(old_rev.reverse()));
            if old_m < 10 {
                assert(dec_digits(old_m) =~= seq![digit_char(old_m)]);
                if old_rev.len() == 0 {
                    assert(rev@.reverse() =~= dec_digits(n as nat));
                } else {
                    assert(rev@.reverse() =~= dec_digits(old_m).add(old_rev.reverse()));
                    assert(rev@.reverse() =~= dec_digits(n as nat));
                }
            } else {
                assert(dec_digits(old_m) =~= dec_digits(old_m / 10).add(
                    seq![digit_char(old_m % 10)],
                ));
                if old_rev.len() == 0 {
                    assert(dec_digits(n as nat) =~= dec_digits(m as nat).add(rev@.reverse()));
                } else {
                    assert(dec_digits(old_m).add(old_rev.reverse()) =~= dec_digits(m as nat).add(
                        rev@.reverse(),
                    ));
                    assert(dec_digits(n as nat) =~= dec_digits(m as nat).add(rev@.reverse()));
                }
            }
        }
        if m == 0 {
            break;
        }
    }
    let mut out: Vec<char> = Vec::new();
    let mut i: usize = rev.len();
    while i > 0
        invariant
            i <= rev.len(),
            rev@.reverse() == dec_digits(n as nat),
            out@ =~= rev@.subrange(i as int, rev.len() as int).reverse(),
        decreases i,
    {
        i = i - 1;
        out.push(rev[i]);
        proof {
            assert(out@ =~= rev@.subrange(i as int, rev.len() as int).reverse());
        }
    }
    proof {
        assert(rev@.subrange(0, rev.len() as int) =~= rev@);
    }
    out
}

/// The canonical decimal text of a 64-bit signed integer.
pub fn i64_text(n: i64) -> (r: Vec<char>)
    ensures
        r@ == int_text(n as int),
{
    if n >= 0 {
        u64_digits(n as u64)
    } else {
        let mag: u64 = if n == i64::MIN {
            9223372036854775808u64
        } else {
            (-n) as u64
        };
        let digits = u64_digits(mag);
        let mut out: Vec<char> = Vec::new();
        out.push('-');
        let mut i: usize = 0;
        while i < digits.len()
            invariant
                i <= digits.len(),
                digits@ == dec_digits((-(n as int)) as nat),
                out@ =~= seq!['-'].add(digits@.subrange(0, i as int)),
            decreases digits.len() - i,
        {
            out.push(digits[i]);
            i = i + 1;
            proof {
                assert(out@ =~= seq!['-'].add(digits@.subrange(0, i as int)));
            }
        }
        proof {
            assert(digits@.subrange(0, digits.len() as int) =~= digits@);
        }
        out
    }
}

/// The canonical decimal text of a 32-bit signed integer.
pub fn i32_text(n: i32) -> (r: Vec<char>)
    ensures
        r@ == int_text(n as int),
{
    i64_text(n as i64)
}

/// The canonical decimal text of a count, for arity messages.
pub fn usize_text(n: usize) -> (r: Vec<char>)
    ensures
        r@ == int_text(n as int),
{
    u64_digits(n as u64)
}

} // verus!
