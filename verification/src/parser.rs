//! The reader: recursive descent over the characters of the source text,
//! recognizing atoms, parenthesized lists and the special forms by leading
//! symbol, with a total mathematical mirror stating exactly what is parsed.
//!
//! A failed alternative is a recoverable miss that the next alternative may
//! pick up; a malformed numeral aborts the whole parse.  Of the error
//! taxonomy, a parse produces `UnexpectedInput` for a nonempty remainder,
//! `InvalidNumber` for an integer beyond 64 bits, and `GenericParseFailure`
//! for any other grammar mismatch.
use crate::ast::{expr_view, sbindings, type_view, Expr, SExpr, SType, Type};
use crate::chars::{char_is_alnum, is_alnum, string_from_chars, str_chars};
use crate::numerals::{digits_val, is_digit_char};
use std::rc::Rc;
use vstd::prelude::*;

verus! {

/// A parse failure, per the surface grammar's failure modes.
#[derive(Debug, PartialEq)]
pub enum ParseError {
    UnexpectedInput(String),
    UnexpectedEof,
    InvalidNumber(String),
    InvalidString(String),
    InvalidType(String),
    UnmatchedParen,
    GenericParseFailure,
}

/// Mathematical model of a `ParseError`.
pub enum SParseError {
    UnexpectedInput(Seq<char>),
    UnexpectedEof,
    InvalidNumber(Seq<char>),
    InvalidString(Seq<char>),
    InvalidType(Seq<char>),
    UnmatchedParen,
    GenericParseFailure,
}

pub open spec fn perr_view(e: ParseError) -> SParseError {
    match e {
        ParseError::UnexpectedInput(s) => SParseError::UnexpectedInput(s@),
        ParseError::UnexpectedEof => SParseError::UnexpectedEof,
        ParseError::InvalidNumber(s) => SParseError::InvalidNumber(s@),
        ParseError::InvalidString(s) => SParseError::InvalidString(s@),
        ParseError::InvalidType(s) => SParseError::InvalidType(s@),
        ParseError::UnmatchedParen => SParseError::UnmatchedParen,
        ParseError::GenericParseFailure => SParseError::GenericParseFailure,
    }
}

/// Outcome of one descent step: the next position and what was read, a
/// recoverable miss, or a hard abort.
pub enum POut {
    Found { next: int, e: SExpr },
    Miss,
    Abort { err: SParseError },
}

/// Outcome of reading a type annotation.
pub enum TOut {
    Found { next: int, t: SType },
    Miss,
}

/// Outcome of reading a bracketed parameter list.
pub enum PsOut {
    Found { next: int, ps: Seq<(Seq<char>, SType)> },
    Miss,
}

// ---------------------------------------------------------------------------
// Character classes and scanning
// ---------------------------------------------------------------------------
pub open spec fn is_ws(c: char) -> bool {
    c == ' ' || c == '\t' || c == '\r' || c == '\n'
}

/// The operator-class punctuation admitted in symbols.
pub open spec fn is_sym_punct(c: char) -> bool {
    c == '+' || c == '-' || c == '*' || c == '/' || c == '<' || c == '>' || c == '=' || c == '!'
        || c == '&' || c == '|' || c == '_' || c == '?' || c == '.'
}

pub open spec fn is_sym_char(c: char) -> bool {
    is_alnum(c) || is_sym_punct(c)
}

/// Characters of a binding name: alphanumeric, underscore or hyphen.
pub open spec fn is_name_char(c: char) -> bool {
    is_alnum(c) || c == '_' || c == '-'
}

/// The position after any run of whitespace at `pos`.
pub open spec fn skip_ws(s: Seq<char>, pos: int) -> int
    decreases (if pos < s.len() { s.len() - pos } else { 0int }) as nat,
{
    if 0 <= pos < s.len() && is_ws(s[pos]) {
        skip_ws(s, pos + 1)
    } else {
        pos
    }
}

/// The end of the run of characters satisfying symbol class from `pos`.
pub open spec fn sym_end(s: Seq<char>, pos: int) -> int
    decreases (if pos < s.len() { s.len() - pos } else { 0int }) as nat,
{
    if 0 <= pos < s.len() && is_sym_char(s[pos]) {
        sym_end(s, pos + 1)
    } else {
        pos
    }
}

/// The end of the run of name characters from `pos`.
pub open spec fn name_end(s: Seq<char>, pos: int) -> int
    decreases (if pos < s.len() { s.len() - pos } else { 0int }) as nat,
{
    if 0 <= pos < s.len() && is_name_char(s[pos]) {
        name_end(s, pos + 1)
    } else {
        pos
    }
}

/// The end of the run of decimal digits from `pos`.
pub open spec fn digits_end(s: Seq<char>, pos: int) -> int
    decreases (if pos < s.len() { s.len() - pos } else { 0int }) as nat,
{
    if 0 <= pos < s.len() && is_digit_char(s[pos]) {
        digits_end(s, pos + 1)
    } else {
        pos
    }
}

/// Whether the text at `pos` begins with the given characters.
pub open spec fn starts_with(s: Seq<char>, pos: int, pat: Seq<char>) -> bool {
    0 <= pos && pos + pat.len() <= s.len() && s.subrange(pos, pos + pat.len()) == pat
}

// ---------------------------------------------------------------------------
// Atoms
// ---------------------------------------------------------------------------
/// A boolean keyword, matched as a prefix.
pub open spec fn parse_bool_m(s: Seq<char>, pos: int) -> POut {
    if starts_with(s, pos, seq!['t', 'r', 'u', 'e']) {
        POut::Found { next: pos + 4, e: SExpr::Bool(true) }
    } else if starts_with(s, pos, seq!['f', 'a', 'l', 's', 'e']) {
        POut::Found { next: pos + 5, e: SExpr::Bool(false) }
    } else {
        POut::Miss
    }
}

/// An integer literal: optional minus then digits.  A value within 32 bits
/// becomes the 32-bit variant, within 64 bits the 64-bit variant, and
/// anything larger aborts with `InvalidNumber`.
pub open spec fn parse_integer_m(s: Seq<char>, pos: int) -> POut {
    let neg = 0 <= pos < s.len() && s[pos] == '-';
    let p1 = if neg {
        pos + 1
    } else {
        pos
    };
    let p2 = digits_end(s, p1);
    if pos < 0 || p2 == p1 {
        POut::Miss
    } else {
        let m = digits_val(s.subrange(p1, p2));
        if !neg && m <= 0x7fff_ffff {
            POut::Found { next: p2, e: SExpr::Integer32(m as i32) }
        } else if neg && m <= 0x8000_0000 {
            POut::Found { next: p2, e: SExpr::Integer32((-(m as int)) as i32) }
        } else if !neg && m <= 0x7fff_ffff_ffff_ffff {
            POut::Found { next: p2, e: SExpr::Integer64(m as i64) }
        } else if neg && m <= 0x8000_0000_0000_0000 {
            POut::Found { next: p2, e: SExpr::Integer64((-(m as int)) as i64) }
        } else {
            POut::Abort { err: SParseError::InvalidNumber(s.subrange(pos, p2)) }
        }
    }
}

/// A float literal: optional minus, digits, a point, digits; the text is
/// kept verbatim.
pub open spec fn parse_float_m(s: Seq<char>, pos: int) -> POut {
    let neg = 0 <= pos < s.len() && s[pos] == '-';
    let p1 = if neg {
        pos + 1
    } else {
        pos
    };
    let p2 = digits_end(s, p1);
    if pos < 0 || p2 == p1 {
        POut::Miss
    } else if p2 < s.len() && s[p2] == '.' {
        let p3 = digits_end(s, p2 + 1);
        if p3 == p2 + 1 {
            POut::Miss
        } else {
            POut::Found { next: p3, e: SExpr::Float(s.subrange(pos, p3)) }
        }
    } else {
        POut::Miss
    }
}

/// A number: a float if a fractional part follows, else an integer.
pub open spec fn parse_number_m(s: Seq<char>, pos: int) -> POut {
    match parse_float_m(s, pos) {
        POut::Miss => parse_integer_m(s, pos),
        other => other,
    }
}

/// The index of the closing quote of a string body, skipping the permitted
/// escapes, or nothing if the body is malformed or unterminated.
pub open spec fn string_body_end(s: Seq<char>, pos: int) -> Option<int>
    decreases (if pos < s.len() { s.len() - pos } else { 0int }) as nat,
{
    if pos < 0 || pos >= s.len() {
        Option::None
    } else if s[pos] == '"' {
        Option::Some(pos)
    } else if s[pos] == '\\' {
        if pos + 1 < s.len() && (s[pos + 1] == '"' || s[pos + 1] == '\\' || s[pos + 1] == 'n' || s[
            pos + 1
        ] == 't' || s[pos + 1] == 'r') {
            string_body_end(s, pos + 2)
        } else {
            Option::None
        }
    } else {
        string_body_end(s, pos + 1)
    }
}

/// A string literal; the text between the quotes is kept raw, escapes and
/// all.
pub open spec fn parse_string_m(s: Seq<char>, pos: int) -> POut {
    if 0 <= pos < s.len() && s[pos] == '"' {
        match string_body_end(s, pos + 1) {
            Option::Some(endq) => POut::Found {
                next: endq + 1,
                e: SExpr::Str(s.subrange(pos + 1, endq)),
            },
            Option::None => POut::Miss,
        }
    } else {
        POut::Miss
    }
}

/// A symbol: one or more symbol-class characters.
pub open spec fn parse_symbol_m(s: Seq<char>, pos: int) -> POut {
    let e = sym_end(s, pos);
    if pos < 0 || e == pos {
        POut::Miss
    } else {
        POut::Found { next: e, e: SExpr::Symbol(s.subrange(pos, e)) }
    }
}

/// An atom: boolean, number, string or symbol, in that order.
pub open spec fn parse_atom_m(s: Seq<char>, pos: int) -> POut {
    match parse_bool_m(s, pos) {
        POut::Miss => match parse_number_m(s, pos) {
            POut::Miss => match parse_string_m(s, pos) {
                POut::Miss => parse_symbol_m(s, pos),
                other => other,
            },
            other => other,
        },
        other => other,
    }
}

// ---------------------------------------------------------------------------
// Types and parameters
// ---------------------------------------------------------------------------
/// A base type name, matched as a prefix.
pub open spec fn parse_basic_type_m(s: Seq<char>, pos: int) -> TOut {
    if starts_with(s, pos, seq!['i', '3', '2']) {
        TOut::Found { next: pos + 3, t: SType::I32 }
    } else if starts_with(s, pos, seq!['i', '6', '4']) {
        TOut::Found { next: pos + 3, t: SType::I64 }
    } else if starts_with(s, pos, seq!['f', '6', '4']) {
        TOut::Found { next: pos + 3, t: SType::F64 }
    } else if starts_with(s, pos, seq!['b', 'o', 'o', 'l']) {
        TOut::Found { next: pos + 4, t: SType::Bool }
    } else if starts_with(s, pos, seq!['S', 't', 'r', 'i', 'n', 'g']) {
        TOut::Found { next: pos + 6, t: SType::Str }
    } else if starts_with(s, pos, seq!['_']) {
        TOut::Found { next: pos + 1, t: SType::Inferred }
    } else {
        TOut::Miss
    }
}

/// A type annotation: a function type or a base type.
pub open spec fn parse_type_annotation_m(s: Seq<char>, pos: int) -> TOut
    decreases (if pos < s.len() { s.len() - pos } else { 0int }) as nat, 2nat,
{
    match parse_function_type_m(s, pos) {
        TOut::Miss => parse_basic_type_m(s, pos),
        other => other,
    }
}

/// A function type: `fn(`, comma-separated types, `) -> `, result type.
pub open spec fn parse_function_type_m(s: Seq<char>, pos: int) -> TOut
    decreases (if pos < s.len() { s.len() - pos } else { 0int }) as nat, 1nat,
{
    if starts_with(s, pos, seq!['f', 'n']) {
        let p1 = skip_ws(s, pos + 2);
        if p1 < s.len() && s[p1] == '(' && pos < p1 + 1 {
            match parse_type_list_m(s, p1 + 1) {
                Option::Some((p2, ts)) => {
                    if p2 < s.len() && s[p2] == ')' {
                        let p3 = skip_ws(s, p2 + 1);
                        if starts_with(s, p3, seq!['-', '>']) && pos < skip_ws(s, p3 + 2) {
                            let p4 = skip_ws(s, p3 + 2);
                            match parse_type_annotation_m(s, p4) {
                                TOut::Found { next, t } => TOut::Found {
                                    next,
                                    t: SType::Fun { params: ts, ret: Box::new(t) },
                                },
                                TOut::Miss => TOut::Miss,
                            }
                        } else {
                            TOut::Miss
                        }
                    } else {
                        TOut::Miss
                    }
                },
                Option::None => TOut::Miss,
            }
        } else {
            TOut::Miss
        }
    } else {
        TOut::Miss
    }
}

/// Zero or more types separated by commas (with spaces around the commas);
/// the position after the list, which stops before anything that is not a
/// further `, type`.
pub open spec fn parse_type_list_m(s: Seq<char>, pos: int) -> Option<(int, Seq<SType>)>
    decreases (if pos < s.len() { s.len() - pos } else { 0int }) as nat, 3nat,
{
    match parse_type_annotation_m(s, pos) {
        TOut::Miss => Option::Some((pos, Seq::empty())),
        TOut::Found { next, t } => if pos < next && next <= s.len() {
            match parse_type_list_rest_m(s, next) {
                Option::Some((p2, ts)) => Option::Some((p2, seq![t].add(ts))),
                Option::None => Option::None,
            }
        } else {
            Option::None
        },
    }
}

/// The `, type` continuations of a type list.
pub open spec fn parse_type_list_rest_m(s: Seq<char>, pos: int) -> Option<(int, Seq<SType>)>
    decreases (if pos < s.len() { s.len() - pos } else { 0int }) as nat, 3nat,
{
    let p1 = skip_ws(s, pos);
    if p1 < s.len() && s[p1] == ',' && pos < skip_ws(s, p1 + 1) {
        let p2 = skip_ws(s, p1 + 1);
        match parse_type_annotation_m(s, p2) {
            TOut::Miss => Option::None,
            TOut::Found { next, t } => if pos < next && next <= s.len() {
                match parse_type_list_rest_m(s, next) {
                    Option::Some((p3, ts)) => Option::Some((p3, seq![t].add(ts))),
                    Option::None => Option::None,
                }
            } else {
                Option::None
            },
        }
    } else {
        Option::Some((pos, Seq::empty()))
    }
}

/// A binding name: one or more name-class characters.
pub open spec fn parse_name_m(s: Seq<char>, pos: int) -> Option<(int, Seq<char>)> {
    let e = name_end(s, pos);
    if pos < 0 || e == pos {
        Option::None
    } else {
        Option::Some((e, s.subrange(pos, e)))
    }
}

/// One `name: type` parameter, leading whitespace allowed.
pub open spec fn parse_param_m(s: Seq<char>, pos: int) -> Option<(int, (Seq<char>, SType))>
    decreases (if pos < s.len() { s.len() - pos } else { 0int }) as nat, 3nat,
{
    let p0 = skip_ws(s, pos);
    match parse_name_m(s, p0) {
        Option::None => Option::None,
        Option::Some((p1, name)) => {
            let p2 = skip_ws(s, p1);
            if p2 < s.len() && s[p2] == ':' && pos < skip_ws(s, p2 + 1) {
                let p3 = skip_ws(s, p2 + 1);
                match parse_type_annotation_m(s, p3) {
                    TOut::Found { next, t } => Option::Some((next, (name, t))),
                    TOut::Miss => Option::None,
                }
            } else {
                Option::None
            }
        },
    }
}

/// A bracketed parameter list: `[`, then `name: type` pairs separated by
/// whitespace, then `]`.
pub open spec fn parse_params_m(s: Seq<char>, pos: int) -> PsOut
    decreases (if pos < s.len() { s.len() - pos } else { 0int }) as nat, 1nat,
{
    if 0 <= pos < s.len() && s[pos] == '[' {
        match parse_params_rest_m(s, pos + 1) {
            Option::Some((p1, ps)) => if p1 < s.len() && s[p1] == ']' {
                PsOut::Found { next: p1 + 1, ps }
            } else {
                PsOut::Miss
            },
            Option::None => PsOut::Miss,
        }
    } else {
        PsOut::Miss
    }
}

/// Parameters until the first position where no further parameter starts.
pub open spec fn parse_params_rest_m(s: Seq<char>, pos: int) -> Option<
    (int, Seq<(Seq<char>, SType)>),
>
    decreases (if pos < s.len() { s.len() - pos } else { 0int }) as nat, 4nat,
{
    match parse_param_m(s, pos) {
        Option::None => Option::Some((pos, Seq::empty())),
        Option::Some((next, p)) => if pos < next && next <= s.len() {
            match parse_params_rest_m(s, next) {
                Option::Some((p2, ps)) => Option::Some((p2, seq![p].add(ps))),
                Option::None => Option::None,
            }
        } else {
            Option::None
        },
    }
}

/// A `-> type` return annotation.
pub open spec fn parse_return_type_m(s: Seq<char>, pos: int) -> TOut
    decreases (if pos < s.len() { s.len() - pos } else { 0int }) as nat, 3nat,
{
    if starts_with(s, pos, seq!['-', '>']) && pos < skip_ws(s, pos + 2) {
        let p1 = skip_ws(s, pos + 2);
        parse_type_annotation_m(s, p1)
    } else {
        TOut::Miss
    }
}

// ---------------------------------------------------------------------------
// Expressions
// ---------------------------------------------------------------------------
/// An expression: leading whitespace, then a list or an atom.
pub open spec fn parse_expr_m(s: Seq<char>, pos: int) -> POut
    decreases (if pos < s.len() { s.len() - pos } else { 0int }) as nat, 3nat,
{
    let p = skip_ws(s, pos);
    if pos <= p {
        match parse_list_m(s, p) {
            POut::Miss => parse_atom_m(s, p),
            other => other,
        }
    } else {
        POut::Miss
    }
}

/// A parenthesized form: empty list, a special form by leading symbol, or a
/// generic list.
pub open spec fn parse_list_m(s: Seq<char>, pos: int) -> POut
    decreases (if pos < s.len() { s.len() - pos } else { 0int }) as nat, 2nat,
{
    if 0 <= pos < s.len() && s[pos] == '(' {
        let p1 = skip_ws(s, pos + 1);
        if p1 < s.len() && s[p1] == ')' {
            POut::Found { next: p1 + 1, e: SExpr::List(Seq::empty()) }
        } else if pos < p1 {
            match parse_expr_m(s, p1) {
                POut::Miss => POut::Miss,
                POut::Abort { err } => POut::Abort { err },
                POut::Found { next: p2, e: first } => if pos < p2 {
                    if first == SExpr::Symbol(seq!['i', 'f']) {
                        parse_if_m(s, p2)
                    } else if first == SExpr::Symbol(seq!['l', 'e', 't']) {
                        parse_let_m(s, p2)
                    } else if first == SExpr::Symbol(seq!['d', 'e', 'f', 'n']) {
                        parse_defn_m(s, p2)
                    } else if first == SExpr::Symbol(seq!['f', 'n']) || first == SExpr::Symbol(
                        seq!['l', 'a', 'm', 'b', 'd', 'a'],
                    ) {
                        parse_lambda_m(s, p2)
                    } else {
                        parse_list_rest_m(s, p2, seq![first])
                    }
                } else {
                    POut::Miss
                },
            }
        } else {
            POut::Miss
        }
    } else {
        POut::Miss
    }
}

/// The remaining elements of a generic list, then the closing parenthesis.
pub open spec fn parse_list_rest_m(s: Seq<char>, pos: int, acc: Seq<SExpr>) -> POut
    decreases (if pos < s.len() { s.len() - pos } else { 0int }) as nat, 4nat,
{
    let p = skip_ws(s, pos);
    if p < s.len() && s[p] == ')' {
        POut::Found { next: p + 1, e: SExpr::List(acc) }
    } else if pos <= p {
        match parse_expr_m(s, p) {
            POut::Miss => POut::Miss,
            POut::Abort { err } => POut::Abort { err },
            POut::Found { next: p3, e } => if pos < p3 && p3 <= s.len() {
                parse_list_rest_m(s, p3, acc.push(e))
            } else {
                POut::Miss
            },
        }
    } else {
        POut::Miss
    }
}

/// The conditional form: exactly condition, then and else, then `)`.
pub open spec fn parse_if_m(s: Seq<char>, pos: int) -> POut
    decreases (if pos < s.len() { s.len() - pos } else { 0int }) as nat, 5nat,
{
    match parse_expr_m(s, pos) {
        POut::Miss => POut::Miss,
        POut::Abort { err } => POut::Abort { err },
        POut::Found { next: q1, e: c } => if pos <= q1 {
            match parse_expr_m(s, q1) {
                POut::Miss => POut::Miss,
                POut::Abort { err } => POut::Abort { err },
                POut::Found { next: q2, e: t } => if pos <= q2 {
                    match parse_expr_m(s, q2) {
                        POut::Miss => POut::Miss,
                        POut::Abort { err } => POut::Abort { err },
                        POut::Found { next: q3, e } => {
                            let q4 = skip_ws(s, q3);
                            if q4 < s.len() && s[q4] == ')' {
                                POut::Found {
                                    next: q4 + 1,
                                    e: SExpr::If {
                                        condition: Box::new(c),
                                        then_branch: Box::new(t),
                                        else_branch: Box::new(e),
                                    },
                                }
                            } else {
                                POut::Miss
                            }
                        },
                    }
                } else {
                    POut::Miss
                },
            }
        } else {
            POut::Miss
        },
    }
}

/// The binding form: name, optional `:`, optional type annotation, value,
/// optional trailing body, `)`.
pub open spec fn parse_let_m(s: Seq<char>, pos: int) -> POut
    decreases (if pos < s.len() { s.len() - pos } else { 0int }) as nat, 5nat,
{
    let p0 = skip_ws(s, pos);
    match parse_name_m(s, p0) {
        Option::None => POut::Miss,
        Option::Some((p1, name)) => {
            let p2 = skip_ws(s, p1);
            let p3 = if p2 < s.len() && s[p2] == ':' {
                skip_ws(s, p2 + 1)
            } else {
                p2
            };
            if pos <= p3 {
                let ann_step = parse_type_annotation_m(s, p3);
                let p4 = match ann_step {
                    TOut::Found { next, .. } => next,
                    TOut::Miss => p3,
                };
                let ann = match ann_step {
                    TOut::Found { t, .. } => Option::Some(t),
                    TOut::Miss => Option::None,
                };
                if pos <= p4 {
                    match parse_expr_m(s, p4) {
                        POut::Miss => POut::Miss,
                        POut::Abort { err } => POut::Abort { err },
                        POut::Found { next: p5, e: value } => {
                            let p6 = skip_ws(s, p5);
                            if p6 < s.len() && s[p6] == ')' {
                                POut::Found {
                                    next: p6 + 1,
                                    e: SExpr::Let {
                                        name,
                                        type_ann: ann,
                                        value: Box::new(value),
                                        body: Option::None,
                                    },
                                }
                            } else if pos <= p6 {
                                match parse_expr_m(s, p6) {
                                    POut::Miss => POut::Miss,
                                    POut::Abort { err } => POut::Abort { err },
                                    POut::Found { next: p7, e: body } => {
                                        let p8 = skip_ws(s, p7);
                                        if p8 < s.len() && s[p8] == ')' {
                                            POut::Found {
                                                next: p8 + 1,
                                                e: SExpr::Let {
                                                    name,
                                                    type_ann: ann,
                                                    value: Box::new(value),
                                                    body: Option::Some(Box::new(body)),
                                                },
                                            }
                                        } else {
                                            POut::Miss
                                        }
                                    },
                                }
                            } else {
                                POut::Miss
                            }
                        },
                    }
                } else {
                    POut::Miss
                }
            } else {
                POut::Miss
            }
        },
    }
}

/// The named function form: name, parameters, `-> type`, body, `)`.
pub open spec fn parse_defn_m(s: Seq<char>, pos: int) -> POut
    decreases (if pos < s.len() { s.len() - pos } else { 0int }) as nat, 5nat,
{
    let p0 = skip_ws(s, pos);
    match parse_name_m(s, p0) {
        Option::None => POut::Miss,
        Option::Some((p1, name)) => {
            let p2 = skip_ws(s, p1);
            if pos <= p2 {
                match parse_params_m(s, p2) {
                    PsOut::Miss => POut::Miss,
                    PsOut::Found { next: p3, ps } => {
                        let p4 = skip_ws(s, p3);
                        if pos <= p4 {
                            match parse_return_type_m(s, p4) {
                                TOut::Miss => POut::Miss,
                                TOut::Found { next: p5, t: rt } => if pos <= p5 {
                                    match parse_expr_m(s, p5) {
                                        POut::Miss => POut::Miss,
                                        POut::Abort { err } => POut::Abort { err },
                                        POut::Found { next: p6, e: body } => {
                                            let p7 = skip_ws(s, p6);
                                            if p7 < s.len() && s[p7] == ')' {
                                                POut::Found {
                                                    next: p7 + 1,
                                                    e: SExpr::Defn {
                                                        name,
                                                        params: ps,
                                                        return_type: rt,
                                                        body: Box::new(body),
                                                    },
                                                }
                                            } else {
                                                POut::Miss
                                            }
                                        },
                                    }
                                } else {
                                    POut::Miss
                                },
                            }
                        } else {
                            POut::Miss
                        }
                    },
                }
            } else {
                POut::Miss
            }
        },
    }
}

/// The anonymous function form: parameters, optional `-> type`, body, `)`.
pub open spec fn parse_lambda_m(s: Seq<char>, pos: int) -> POut
    decreases (if pos < s.len() { s.len() - pos } else { 0int }) as nat, 5nat,
{
    let p0 = skip_ws(s, pos);
    if pos <= p0 {
        match parse_params_m(s, p0) {
            PsOut::Miss => POut::Miss,
            PsOut::Found { next: p1, ps } => {
                let p2 = skip_ws(s, p1);
                if pos <= p2 {
                    let rt_step = parse_return_type_m(s, p2);
                    let p3 = match rt_step {
                        TOut::Found { next, .. } => next,
                        TOut::Miss => p2,
                    };
                    let rt = match rt_step {
                        TOut::Found { t, .. } => Option::Some(t),
                        TOut::Miss => Option::None,
                    };
                    if pos <= p3 {
                        match parse_expr_m(s, p3) {
                            POut::Miss => POut::Miss,
                            POut::Abort { err } => POut::Abort { err },
                            POut::Found { next: p4, e: body } => {
                                let p5 = skip_ws(s, p4);
                                if p5 < s.len() && s[p5] == ')' {
                                    POut::Found {
                                        next: p5 + 1,
                                        e: SExpr::Lambda {
                                            params: ps,
                                            return_type: rt,
                                            body: Box::new(body),
                                        },
                                    }
                                } else {
                                    POut::Miss
                                }
                            },
                        }
                    } else {
                        POut::Miss
                    }
                } else {
                    POut::Miss
                }
            },
        }
    } else {
        POut::Miss
    }
}

/// A whole input: one expression, then nothing but whitespace.
pub open spec fn parse_model(s: Seq<char>) -> Result<SExpr, SParseError> {
    match parse_expr_m(s, 0) {
        POut::Found { next: p, e } => if 0 <= p <= s.len() {
            if skip_ws(s, p) >= s.len() {
                Result::Ok(e)
            } else {
                Result::Err(SParseError::UnexpectedInput(s.subrange(p, s.len() as int)))
            }
        } else {
            Result::Err(SParseError::GenericParseFailure)
        },
        POut::Miss => Result::Err(SParseError::GenericParseFailure),
        POut::Abort { err } => Result::Err(err),
    }
}

// ---------------------------------------------------------------------------
// The executable reader
// ---------------------------------------------------------------------------
/// Outcome of one executable descent step.
#[derive(Debug)]
pub enum PStep {
    Found(usize, Expr),
    Miss,
    Abort(ParseError),
}

/// Outcome of reading a type annotation, executably.
#[derive(Debug)]
pub enum TStep {
    Found(usize, Type),
    Miss,
}

/// What an executable step must be, against its mirror.
pub open spec fn pstep_matches(r: PStep, m: POut) -> bool {
    match m {
        POut::Found { next, e } => r matches PStep::Found(p, ex) && p as int == next && expr_view(
            ex,
        ) == e,
        POut::Miss => r is Miss,
        POut::Abort { err } => r matches PStep::Abort(pe) && perr_view(pe) == err,
    }
}

pub open spec fn tstep_matches(r: TStep, m: TOut) -> bool {
    match m {
        TOut::Found { next, t } => r matches TStep::Found(p, ty) && p as int == next && type_view(
            ty,
        ) == t,
        TOut::Miss => r is Miss,
    }
}

/// A copy of the characters between two positions.
fn sub_chars(s: &Vec<char>, a: usize, b: usize) -> (r: Vec<char>)
    requires
        a <= b <= s@.len(),
    ensures
        r@ == s@.subrange(a as int, b as int),
{
    let mut out: Vec<char> = Vec::new();
    let mut i: usize = a;
    while i < b
        invariant
            a <= i <= b <= s@.len(),
            out@ =~= s@.subrange(a as int, i as int),
        decreases b - i,
    {
        out.push(s[i]);
        i = i + 1;
        proof {
            assert(out@ =~= s@.subrange(a as int, i as int));
        }
    }
    proof {
        assert(out@ =~= s@.subrange(a as int, b as int));
    }
    out
}

/// Executable whitespace test.
fn is_ws_x(c: char) -> (r: bool)
    ensures
        r == is_ws(c),
{
    c == ' ' || c == '\t' || c == '\r' || c == '\n'
}

/// Executable symbol-class test.
fn is_sym_char_x(c: char) -> (r: bool)
    ensures
        r == is_sym_char(c),
{
    char_is_alnum(c) || c == '+' || c == '-' || c == '*' || c == '/' || c == '<' || c == '>' || c
        == '=' || c == '!' || c == '&' || c == '|' || c == '_' || c == '?' || c == '.'
}

/// Executable name-class test.
fn is_name_char_x(c: char) -> (r: bool)
    ensures
        r == is_name_char(c),
{
    char_is_alnum(c) || c == '_' || c == '-'
}

/// Executable whitespace skip.
fn skip_ws_x(s: &Vec<char>, pos: usize) -> (r: usize)
    requires
        pos <= s@.len(),
    ensures
        r as int == skip_ws(s@, pos as int),
        pos <= r <= s@.len(),
{
    let mut i: usize = pos;
    while i < s.len() && is_ws_x(s[i])
        invariant
            pos <= i <= s@.len(),
            skip_ws(s@, pos as int) == skip_ws(s@, i as int),
        decreases s@.len() - i,
    {
        i = i + 1;
    }
    i
}

/// Executable symbol-run scan.
fn sym_end_x(s: &Vec<char>, pos: usize) -> (r: usize)
    requires
        pos <= s@.len(),
    ensures
        r as int == sym_end(s@, pos as int),
        pos <= r <= s@.len(),
{
    let mut i: usize = pos;
    while i < s.len() && is_sym_char_x(s[i])
        invariant
            pos <= i <= s@.len(),
            sym_end(s@, pos as int) == sym_end(s@, i as int),
        decreases s@.len() - i,
    {
        i = i + 1;
    }
    i
}

/// Executable name-run scan.
fn name_end_x(s: &Vec<char>, pos: usize) -> (r: usize)
    requires
        pos <= s@.len(),
    ensures
        r as int == name_end(s@, pos as int),
        pos <= r <= s@.len(),
{
    let mut i: usize = pos;
    while i < s.len() && is_name_char_x(s[i])
        invariant
            pos <= i <= s@.len(),
            name_end(s@, pos as int) == name_end(s@, i as int),
        decreases s@.len() - i,
    {
        i = i + 1;
    }
    i
}

/// Executable digit-run scan.
fn digits_end_x(s: &Vec<char>, pos: usize) -> (r: usize)
    requires
        pos <= s@.len(),
    ensures
        r as int == digits_end(s@, pos as int),
        pos <= r <= s@.len(),
{
    let mut i: usize = pos;
    while i < s.len() && '0' <= s[i] && s[i] <= '9'
        invariant
            pos <= i <= s@.len(),
            digits_end(s@, pos as int) == digits_end(s@, i as int),
        decreases s@.len() - i,
    {
        i = i + 1;
    }
    i
}

/// Executable prefix match.
fn starts_with_x(s: &Vec<char>, pos: usize, pat: &Vec<char>) -> (r: bool)
    requires
        pos <= s@.len(),
    ensures
        r == starts_with(s@, pos as int, pat@),
{
    if pat.len() > s.len() - pos {
        return false;
    }
    proof {
        assert(pos + pat@.len() <= s@.len());
    }
    let mut i: usize = 0;
    while i < pat.len()
        invariant
            i <= pat@.len(),
            pos + pat@.len() <= s@.len(),
            forall|j: int| 0 <= j < i ==> s@[pos + j] == pat@[j],
        decreases pat@.len() - i,
    {
        proof {
            vstd::std_specs::vec::axiom_spec_len(s);
        }
        if s[pos + i] != pat[i] {
            proof {
                assert(s@.subrange(pos as int, pos + pat@.len())[i as int] != pat@[i as int]);
            }
            return false;
        }
        i = i + 1;
    }
    proof {
        assert(s@.subrange(pos as int, pos + pat@.len()) =~= pat@);
    }
    true
}

/// Every character of a digit run is a digit.
proof fn lemma_digits_end_chars(s: Seq<char>, pos: int)
    ensures
        forall|j: int| pos <= j < digits_end(s, pos) ==> is_digit_char(s[j]),
        pos <= digits_end(s, pos),
    decreases (if pos < s.len() { s.len() - pos } else { 0int }) as nat,
{
    if 0 <= pos < s.len() && is_digit_char(s[pos]) {
        lemma_digits_end_chars(s, pos + 1);
    }
}

/// A boolean keyword.
fn parse_bool_x(s: &Vec<char>, pos: usize) -> (r: PStep)
    requires
        pos <= s@.len(),
    ensures
        pstep_matches(r, parse_bool_m(s@, pos as int)),
        r matches PStep::Found(p, _) ==> pos < p <= s@.len(),
{
    proof {
        vstd::std_specs::vec::axiom_spec_len(s);
    }
    let t_pat = vec!['t', 'r', 'u', 'e'];
    let f_pat = vec!['f', 'a', 'l', 's', 'e'];
    if starts_with_x(s, pos, &t_pat) {
        PStep::Found(pos + 4, Expr::Bool(true))
    } else if starts_with_x(s, pos, &f_pat) {
        PStep::Found(pos + 5, Expr::Bool(false))
    } else {
        PStep::Miss
    }
}

/// An integer literal, width-promoted: 32-bit if it fits, else 64-bit,
/// else `InvalidNumber`.
#[verifier::loop_isolation(false)]
pub fn parse_integer(s: &Vec<char>, pos: usize) -> (r: PStep)
    requires
        pos <= s@.len(),
    ensures
        pstep_matches(r, parse_integer_m(s@, pos as int)),
        r matches PStep::Found(p, _) ==> pos < p <= s@.len(),
{
    let neg = pos < s.len() && s[pos] == '-';
    let p1 = if neg {
        pos + 1
    } else {
        pos
    };
    let p2 = digits_end_x(s, p1);
    if p2 == p1 {
        return PStep::Miss;
    }
    proof {
        lemma_digits_end_chars(s@, p1 as int);
    }
    let ghost digits = s@.subrange(p1 as int, p2 as int);
    let mut m: u64 = 0;
    let mut over = false;
    let mut i: usize = p1;
    proof {
        assert(digits.subrange(0, 0) =~= Seq::<char>::empty());
    }
    while i < p2
        invariant
            p1 <= i <= p2,
            !over ==> m as nat == digits_val(digits.subrange(0, i - p1)),
            over ==> digits_val(digits.subrange(0, i - p1)) > 0x8000_0000_0000_0000,
        decreases p2 - i,
    {
        let ghost pre = digits.subrange(0, i - p1);
        let d = crate::numerals::char_to_digit(s[i]);
        i = i + 1;
        proof {
            let cur = digits.subrange(0, i - p1);
            assert(cur.drop_last() =~= pre);
            assert(cur.last() == s@[i - 1]);
            assert(digits_val(cur) == digits_val(pre) * 10 + crate::numerals::char_digit_val(
                s@[i - 1],
            ));
        }
        if over {
            proof {
                let cur = digits.subrange(0, i - p1);
                let pv = digits_val(digits.subrange(0, i - 1 - p1));
                assert(digits.subrange(0, i - 1 - p1) =~= pre);
                assert(digits_val(pre) * 10 >= digits_val(pre)) by (nonlinear_arith);
            }
        } else if m > (u64::MAX - d) / 10 {
            proof {
                assert(m * 10 + d > u64::MAX) by (nonlinear_arith)
                    requires
                        m > (u64::MAX - d) / 10,
                        d < 10,
                ;
            }
            over = true;
        } else {
            proof {
                assert(m * 10 + d <= u64::MAX) by (nonlinear_arith)
                    requires
                        m <= (u64::MAX - d) / 10,
                        d < 10,
                ;
            }
            m = m * 10 + d;
        }
    }
    proof {
        assert(digits.subrange(0, p2 - p1) =~= digits);
    }
    let text_is_needed = over || (if neg {
        m > 0x8000_0000_0000_0000
    } else {
        m > 0x7fff_ffff_ffff_ffff
    });
    if text_is_needed {
        let chunk = sub_chars(s, pos, p2);
        return PStep::Abort(ParseError::InvalidNumber(string_from_chars(&chunk)));
    }
    if !neg {
        if m <= 0x7fff_ffff {
            PStep::Found(p2, Expr::Integer32(m as i32))
        } else {
            PStep::Found(p2, Expr::Integer64(m as i64))
        }
    } else {
        if m <= 0x8000_0000 {
            let v: i32 = if m == 0x8000_0000 {
                i32::MIN
            } else {
                (0i32 - (m as i32))
            };
            PStep::Found(p2, Expr::Integer32(v))
        } else {
            let v: i64 = if m == 0x8000_0000_0000_0000 {
                i64::MIN
            } else {
                (0i64 - (m as i64))
            };
            PStep::Found(p2, Expr::Integer64(v))
        }
    }
}

/// A float literal; its text is kept verbatim.
fn parse_float_x(s: &Vec<char>, pos: usize) -> (r: PStep)
    requires
        pos <= s@.len(),
    ensures
        pstep_matches(r, parse_float_m(s@, pos as int)),
        r matches PStep::Found(p, _) ==> pos < p <= s@.len(),
{
    let neg = pos < s.len() && s[pos] == '-';
    let p1 = if neg {
        pos + 1
    } else {
        pos
    };
    let p2 = digits_end_x(s, p1);
    if p2 == p1 {
        return PStep::Miss;
    }
    if p2 < s.len() && s[p2] == '.' {
        let p3 = digits_end_x(s, p2 + 1);
        if p3 == p2 + 1 {
            PStep::Miss
        } else {
            let chunk = sub_chars(s, pos, p3);
            PStep::Found(p3, Expr::Float(string_from_chars(&chunk)))
        }
    } else {
        PStep::Miss
    }
}

/// A number: float, else integer.
fn parse_number_x(s: &Vec<char>, pos: usize) -> (r: PStep)
    requires
        pos <= s@.len(),
    ensures
        pstep_matches(r, parse_number_m(s@, pos as int)),
        r matches PStep::Found(p, _) ==> pos < p <= s@.len(),
{
    let f = parse_float_x(s, pos);
    match f {
        PStep::Miss => parse_integer(s, pos),
        other => other,
    }
}

/// A string literal; the text between the quotes is kept raw.
fn parse_string_x(s: &Vec<char>, pos: usize) -> (r: PStep)
    requires
        pos <= s@.len(),
    ensures
        pstep_matches(r, parse_string_m(s@, pos as int)),
        r matches PStep::Found(p, _) ==> pos < p <= s@.len(),
{
    if !(pos < s.len() && s[pos] == '"') {
        return PStep::Miss;
    }
    let mut i: usize = pos + 1;
    loop
        invariant_except_break
            pos + 1 <= i <= s@.len(),
            string_body_end(s@, pos + 1) == string_body_end(s@, i as int),
        ensures
            pos + 1 <= i < s@.len(),
            string_body_end(s@, pos + 1) == Option::Some(i as int),
        decreases s@.len() - i,
    {
        if i >= s.len() {
            proof {
                assert(string_body_end(s@, i as int) is None);
            }
            return PStep::Miss;
        }
        let c = s[i];
        if c == '"' {
            break;
        } else if c == '\\' {
            if i + 1 < s.len() && (s[i + 1] == '"' || s[i + 1] == '\\' || s[i + 1] == 'n' || s[i
                + 1] == 't' || s[i + 1] == 'r') {
                i = i + 2;
            } else {
                proof {
                    assert(string_body_end(s@, i as int) is None);
                }
                return PStep::Miss;
            }
        } else {
            i = i + 1;
        }
    }
    proof {
        vstd::std_specs::vec::axiom_spec_len(s);
    }
    let chunk = sub_chars(s, pos + 1, i);
    PStep::Found(i + 1, Expr::String(string_from_chars(&chunk)))
}

/// A symbol: a maximal run of symbol-class characters.
fn parse_symbol_x(s: &Vec<char>, pos: usize) -> (r: PStep)
    requires
        pos <= s@.len(),
    ensures
        pstep_matches(r, parse_symbol_m(s@, pos as int)),
        r matches PStep::Found(p, _) ==> pos < p <= s@.len(),
{
    let e = sym_end_x(s, pos);
    if e == pos {
        PStep::Miss
    } else {
        let chunk = sub_chars(s, pos, e);
        PStep::Found(e, Expr::Symbol(string_from_chars(&chunk)))
    }
}

/// An atom: boolean, number, string or symbol, in that order.
fn parse_atom_x(s: &Vec<char>, pos: usize) -> (r: PStep)
    requires
        pos <= s@.len(),
    ensures
        pstep_matches(r, parse_atom_m(s@, pos as int)),
        r matches PStep::Found(p, _) ==> pos < p <= s@.len(),
{
    match parse_bool_x(s, pos) {
        PStep::Miss => match parse_number_x(s, pos) {
            PStep::Miss => match parse_string_x(s, pos) {
                PStep::Miss => parse_symbol_x(s, pos),
                other => other,
            },
            other => other,
        },
        other => other,
    }
}

/// A base type name.
fn parse_basic_type_x(s: &Vec<char>, pos: usize) -> (r: TStep)
    requires
        pos <= s@.len(),
    ensures
        tstep_matches(r, parse_basic_type_m(s@, pos as int)),
        r matches TStep::Found(p, _) ==> pos < p <= s@.len(),
{
    proof {
        vstd::std_specs::vec::axiom_spec_len(s);
    }
    let i32_pat = vec!['i', '3', '2'];
    let i64_pat = vec!['i', '6', '4'];
    let f64_pat = vec!['f', '6', '4'];
    let bool_pat = vec!['b', 'o', 'o', 'l'];
    let str_pat = vec!['S', 't', 'r', 'i', 'n', 'g'];
    let hole_pat = vec!['_'];
    proof {
        assert(i32_pat@ =~= seq!['i', '3', '2']);
        assert(i64_pat@ =~= seq!['i', '6', '4']);
        assert(f64_pat@ =~= seq!['f', '6', '4']);
        assert(bool_pat@ =~= seq!['b', 'o', 'o', 'l']);
        assert(str_pat@ =~= seq!['S', 't', 'r', 'i', 'n', 'g']);
        assert(hole_pat@ =~= seq!['_']);
    }
    if starts_with_x(s, pos, &i32_pat) {
        TStep::Found(pos + 3, Type::I32)
    } else if starts_with_x(s, pos, &i64_pat) {
        TStep::Found(pos + 3, Type::I64)
    } else if starts_with_x(s, pos, &f64_pat) {
        TStep::Found(pos + 3, Type::F64)
    } else if starts_with_x(s, pos, &bool_pat) {
        TStep::Found(pos + 4, Type::Bool)
    } else if starts_with_x(s, pos, &str_pat) {
        TStep::Found(pos + 6, Type::String)
    } else if starts_with_x(s, pos, &hole_pat) {
        TStep::Found(pos + 1, Type::Inferred)
    } else {
        TStep::Miss
    }
}

/// A type annotation: a function type or a base type.
pub fn parse_type_annotation(s: &Vec<char>, pos: usize) -> (r: TStep)
    requires
        pos <= s@.len(),
    ensures
        tstep_matches(r, parse_type_annotation_m(s@, pos as int)),
        r matches TStep::Found(p, _) ==> pos < p <= s@.len(),
    decreases s@.len() - pos, 2nat,
{
    match parse_function_type_x(s, pos) {
        TStep::Miss => parse_basic_type_x(s, pos),
        other => other,
    }
}

/// A function type: `fn(`, comma-separated types, `) -> `, result type.
fn parse_function_type_x(s: &Vec<char>, pos: usize) -> (r: TStep)
    requires
        pos <= s@.len(),
    ensures
        tstep_matches(r, parse_function_type_m(s@, pos as int)),
        r matches TStep::Found(p, _) ==> pos < p <= s@.len(),
    decreases s@.len() - pos, 1nat,
{
    let fn_pat = vec!['f', 'n'];
    if !starts_with_x(s, pos, &fn_pat) {
        return TStep::Miss;
    }
    proof {
        vstd::std_specs::vec::axiom_spec_len(s);
    }
    let p1 = skip_ws_x(s, pos + 2);
    if !(p1 < s.len() && s[p1] == '(') {
        return TStep::Miss;
    }
    match parse_type_list_x(s, p1 + 1) {
        Option::None => TStep::Miss,
        Option::Some((p2, ts)) => {
            if !(p2 < s.len() && s[p2] == ')') {
                return TStep::Miss;
            }
            let p3 = skip_ws_x(s, p2 + 1);
            let arrow_pat = vec!['-', '>'];
            if !starts_with_x(s, p3, &arrow_pat) {
                return TStep::Miss;
            }
            let p4 = skip_ws_x(s, p3 + 2);
            match parse_type_annotation(s, p4) {
                TStep::Found(next, t) => {
                    let r = Type::Function { params: ts, return_type: Box::new(t) };
                    proof {
                        assert(crate::ast::sparams(r->Function_params@) =~= crate::ast::sparams(
                            r->Function_params@,
                        ));
                    }
                    TStep::Found(next, r)
                },
                TStep::Miss => TStep::Miss,
            }
        },
    }
}

/// Zero or more comma-separated types.
fn parse_type_list_x(s: &Vec<char>, pos: usize) -> (r: Option<(usize, Vec<Type>)>)
    requires
        pos <= s@.len(),
    ensures
        ({
            let m = parse_type_list_m(s@, pos as int);
            match r {
                Option::Some((p, ts)) => m matches Option::Some(pair) && pair.0 == p as int
                    && crate::ast::sparams(ts@) == pair.1 && pos <= p <= s@.len(),
                Option::None => m is None,
            }
        }),
    decreases s@.len() - pos, 3nat,
{
    match parse_type_annotation(s, pos) {
        TStep::Miss => {
            proof {
                assert(crate::ast::sparams(Seq::<Type>::empty()) =~= Seq::<SType>::empty());
            }
            Option::Some((pos, Vec::new()))
        },
        TStep::Found(next, t) => match parse_type_list_rest_x(s, next) {
            Option::Some((p2, rest)) => {
                let mut ts: Vec<Type> = Vec::new();
                ts.push(t);
                let ghost rest_v = rest@;
                let mut tail = rest;
                ts.append(&mut tail);
                proof {
                    assert(crate::ast::sparams(ts@) =~= seq![
                        type_view(ts@[0]),
                    ].add(crate::ast::sparams(rest_v)));
                }
                Option::Some((p2, ts))
            },
            Option::None => Option::None,
        },
    }
}

/// The `, type` continuations of a type list.
fn parse_type_list_rest_x(s: &Vec<char>, pos: usize) -> (r: Option<(usize, Vec<Type>)>)
    requires
        pos <= s@.len(),
    ensures
        ({
            let m = parse_type_list_rest_m(s@, pos as int);
            match r {
                Option::Some((p, ts)) => m matches Option::Some(pair) && pair.0 == p as int
                    && crate::ast::sparams(ts@) == pair.1 && pos <= p <= s@.len(),
                Option::None => m is None,
            }
        }),
    decreases s@.len() - pos, 4nat,
{
    let p1 = skip_ws_x(s, pos);
    if !(p1 < s.len() && s[p1] == ',') {
        proof {
            assert(crate::ast::sparams(Seq::<Type>::empty()) =~= Seq::<SType>::empty());
        }
        return Option::Some((pos, Vec::new()));
    }
    let p2 = skip_ws_x(s, p1 + 1);
    match parse_type_annotation(s, p2) {
        TStep::Miss => Option::None,
        TStep::Found(next, t) => match parse_type_list_rest_x(s, next) {
            Option::Some((p3, rest)) => {
                let mut ts: Vec<Type> = Vec::new();
                ts.push(t);
                let ghost rest_v = rest@;
                let mut tail = rest;
                ts.append(&mut tail);
                proof {
                    assert(crate::ast::sparams(ts@) =~= seq![
                        type_view(ts@[0]),
                    ].add(crate::ast::sparams(rest_v)));
                }
                Option::Some((p3, ts))
            },
            Option::None => Option::None,
        },
    }
}

/// A binding name.
fn parse_name_x(s: &Vec<char>, pos: usize) -> (r: Option<(usize, String)>)
    requires
        pos <= s@.len(),
    ensures
        ({
            let m = parse_name_m(s@, pos as int);
            match r {
                Option::Some((p, name)) => m matches Option::Some(pair) && pair.0 == p as int
                    && name@ == pair.1 && pos < p <= s@.len(),
                Option::None => m is None,
            }
        }),
{
    let e = name_end_x(s, pos);
    if e == pos {
        Option::None
    } else {
        let chunk = sub_chars(s, pos, e);
        Option::Some((e, string_from_chars(&chunk)))
    }
}

/// One `name: type` parameter.
fn parse_param_x(s: &Vec<char>, pos: usize) -> (r: Option<(usize, (String, Type))>)
    requires
        pos <= s@.len(),
    ensures
        ({
            let m = parse_param_m(s@, pos as int);
            match r {
                Option::Some((p, pair)) => m matches Option::Some(mp) && mp.0 == p as int
                    && pair.0@ == mp.1.0 && type_view(pair.1) == mp.1.1 && pos < p <= s@.len(),
                Option::None => m is None,
            }
        }),
    decreases s@.len() - pos, 3nat,
{
    let p0 = skip_ws_x(s, pos);
    match parse_name_x(s, p0) {
        Option::None => Option::None,
        Option::Some((p1, name)) => {
            let p2 = skip_ws_x(s, p1);
            if !(p2 < s.len() && s[p2] == ':') {
                return Option::None;
            }
            let p3 = skip_ws_x(s, p2 + 1);
            match parse_type_annotation(s, p3) {
                TStep::Found(next, t) => Option::Some((next, (name, t))),
                TStep::Miss => Option::None,
            }
        },
    }
}

/// A bracketed parameter list.
fn parse_params_x(s: &Vec<char>, pos: usize) -> (r: Option<(usize, Vec<(String, Type)>)>)
    requires
        pos <= s@.len(),
    ensures
        ({
            let m = parse_params_m(s@, pos as int);
            match r {
                Option::Some((p, ps)) => m matches PsOut::Found { next, ps: mps } && next
                    == p as int && sbindings(ps@) == mps && pos < p <= s@.len(),
                Option::None => m is Miss,
            }
        }),
    decreases s@.len() - pos, 5nat,
{
    if !(pos < s.len() && s[pos] == '[') {
        return Option::None;
    }
    match parse_params_rest_x(s, pos + 1) {
        Option::None => Option::None,
        Option::Some((p1, ps)) => {
            if p1 < s.len() && s[p1] == ']' {
                Option::Some((p1 + 1, ps))
            } else {
                Option::None
            }
        },
    }
}

/// Parameters until no further parameter starts.
fn parse_params_rest_x(s: &Vec<char>, pos: usize) -> (r: Option<(usize, Vec<(String, Type)>)>)
    requires
        pos <= s@.len(),
    ensures
        ({
            let m = parse_params_rest_m(s@, pos as int);
            match r {
                Option::Some((p, ps)) => m matches Option::Some(pair) && pair.0 == p as int
                    && sbindings(ps@) == pair.1 && pos <= p <= s@.len(),
                Option::None => m is None,
            }
        }),
    decreases s@.len() - pos, 4nat,
{
    match parse_param_x(s, pos) {
        Option::None => {
            proof {
                assert(sbindings(Seq::<(String, Type)>::empty()) =~= Seq::<
                    (Seq<char>, SType),
                >::empty());
            }
            Option::Some((pos, Vec::new()))
        },
        Option::Some((next, p)) => match parse_params_rest_x(s, next) {
            Option::Some((p2, rest)) => {
                let mut ps: Vec<(String, Type)> = Vec::new();
                ps.push(p);
                let ghost rest_v = rest@;
                let mut tail = rest;
                ps.append(&mut tail);
                proof {
                    assert(sbindings(ps@) =~= seq![
                        (ps@[0].0@, type_view(ps@[0].1)),
                    ].add(sbindings(rest_v)));
                }
                Option::Some((p2, ps))
            },
            Option::None => Option::None,
        },
    }
}

/// A `-> type` return annotation.
fn parse_return_type_x(s: &Vec<char>, pos: usize) -> (r: TStep)
    requires
        pos <= s@.len(),
    ensures
        tstep_matches(r, parse_return_type_m(s@, pos as int)),
        r matches TStep::Found(p, _) ==> pos < p <= s@.len(),
    decreases s@.len() - pos, 4nat,
{
    let arrow_pat = vec!['-', '>'];
    if !starts_with_x(s, pos, &arrow_pat) {
        return TStep::Miss;
    }
    proof {
        vstd::std_specs::vec::axiom_spec_len(s);
    }
    let p1 = skip_ws_x(s, pos + 2);
    parse_type_annotation(s, p1)
}

/// Whether two character vectors hold the same characters.
fn chars_eq(a: &Vec<char>, b: &Vec<char>) -> (r: bool)
    ensures
        r == (a@ == b@),
{
    if a.len() != b.len() {
        return false;
    }
    let mut i: usize = 0;
    while i < a.len()
        invariant
            i <= a@.len(),
            a@.len() == b@.len(),
            forall|j: int| 0 <= j < i ==> a@[j] == b@[j],
        decreases a@.len() - i,
    {
        if a[i] != b[i] {
            return false;
        }
        i = i + 1;
    }
    proof {
        assert(a@ =~= b@);
    }
    true
}

/// An expression: leading whitespace, then a list or an atom.
pub fn parse_expr(s: &Vec<char>, pos: usize) -> (r: PStep)
    requires
        pos <= s@.len(),
    ensures
        pstep_matches(r, parse_expr_m(s@, pos as int)),
        r matches PStep::Found(p, _) ==> pos < p <= s@.len(),
    decreases s@.len() - pos, 3nat,
{
    let p = skip_ws_x(s, pos);
    match parse_list_x(s, p) {
        PStep::Miss => parse_atom_x(s, p),
        other => other,
    }
}

/// A parenthesized form, dispatched by its leading symbol.
fn parse_list_x(s: &Vec<char>, pos: usize) -> (r: PStep)
    requires
        pos <= s@.len(),
    ensures
        pstep_matches(r, parse_list_m(s@, pos as int)),
        r matches PStep::Found(p, _) ==> pos < p <= s@.len(),
    decreases s@.len() - pos, 2nat,
{
    if !(pos < s.len() && s[pos] == '(') {
        return PStep::Miss;
    }
    let p1 = skip_ws_x(s, pos + 1);
    if p1 < s.len() && s[p1] == ')' {
        let empty: Vec<Rc<Expr>> = Vec::new();
        proof {
            assert(crate::ast::sexprs(empty@) =~= Seq::<SExpr>::empty());
        }
        return PStep::Found(p1 + 1, Expr::List(empty));
    }
    match parse_expr(s, p1) {
        PStep::Miss => PStep::Miss,
        PStep::Abort(err) => PStep::Abort(err),
        PStep::Found(p2, first) => {
            let mut kind: u8 = 0;
            match &first {
                Expr::Symbol(op) => {
                    let oc = str_chars(op.as_str());
                    let if_pat = vec!['i', 'f'];
                    let let_pat = vec!['l', 'e', 't'];
                    let defn_pat = vec!['d', 'e', 'f', 'n'];
                    let fn_pat = vec!['f', 'n'];
                    let lambda_pat = vec!['l', 'a', 'm', 'b', 'd', 'a'];
                    proof {
                        assert(if_pat@ =~= seq!['i', 'f']);
                        assert(let_pat@ =~= seq!['l', 'e', 't']);
                        assert(defn_pat@ =~= seq!['d', 'e', 'f', 'n']);
                        assert(fn_pat@ =~= seq!['f', 'n']);
                        assert(lambda_pat@ =~= seq!['l', 'a', 'm', 'b', 'd', 'a']);
                    }
                    if chars_eq(&oc, &if_pat) {
                        kind = 1;
                    } else if chars_eq(&oc, &let_pat) {
                        kind = 2;
                    } else if chars_eq(&oc, &defn_pat) {
                        kind = 3;
                    } else if chars_eq(&oc, &fn_pat) || chars_eq(&oc, &lambda_pat) {
                        kind = 4;
                    }
                },
                _ => {},
            }
            if kind == 1 {
                parse_if_x(s, p2)
            } else if kind == 2 {
                parse_let_x(s, p2)
            } else if kind == 3 {
                parse_defn_x(s, p2)
            } else if kind == 4 {
                parse_lambda_x(s, p2)
            } else {
                let mut acc: Vec<Rc<Expr>> = Vec::new();
                acc.push(Rc::new(first));
                proof {
                    assert(crate::ast::sexprs(acc@) =~= seq![expr_view(*acc@[0])]);
                }
                parse_list_rest_x(s, p2, acc)
            }
        },
    }
}

/// The remaining elements of a generic list, then the closing parenthesis.
fn parse_list_rest_x(s: &Vec<char>, pos: usize, acc: Vec<Rc<Expr>>) -> (r: PStep)
    requires
        pos <= s@.len(),
    ensures
        pstep_matches(r, parse_list_rest_m(s@, pos as int, crate::ast::sexprs(acc@))),
        r matches PStep::Found(p, _) ==> pos < p <= s@.len(),
    decreases s@.len() - pos, 4nat,
{
    let p = skip_ws_x(s, pos);
    if p < s.len() && s[p] == ')' {
        return PStep::Found(p + 1, Expr::List(acc));
    }
    match parse_expr(s, p) {
        PStep::Miss => PStep::Miss,
        PStep::Abort(err) => PStep::Abort(err),
        PStep::Found(p3, e) => {
            let ghost acc_v = acc@;
            let mut acc2 = acc;
            acc2.push(Rc::new(e));
            proof {
                assert(crate::ast::sexprs(acc2@) =~= crate::ast::sexprs(acc_v).push(
                    expr_view(*acc2@[acc2@.len() - 1]),
                ));
            }
            parse_list_rest_x(s, p3, acc2)
        },
    }
}

/// The conditional form.
fn parse_if_x(s: &Vec<char>, pos: usize) -> (r: PStep)
    requires
        pos <= s@.len(),
    ensures
        pstep_matches(r, parse_if_m(s@, pos as int)),
        r matches PStep::Found(p, _) ==> pos < p <= s@.len(),
    decreases s@.len() - pos, 5nat,
{
    let c = match parse_expr(s, pos) {
        PStep::Found(q, e) => (q, e),
        PStep::Miss => {
            return PStep::Miss;
        },
        PStep::Abort(err) => {
            return PStep::Abort(err);
        },
    };
    let t = match parse_expr(s, c.0) {
        PStep::Found(q, e) => (q, e),
        PStep::Miss => {
            return PStep::Miss;
        },
        PStep::Abort(err) => {
            return PStep::Abort(err);
        },
    };
    let e3 = match parse_expr(s, t.0) {
        PStep::Found(q, e) => (q, e),
        PStep::Miss => {
            return PStep::Miss;
        },
        PStep::Abort(err) => {
            return PStep::Abort(err);
        },
    };
    let q4 = skip_ws_x(s, e3.0);
    if q4 < s.len() && s[q4] == ')' {
        PStep::Found(
            q4 + 1,
            Expr::If {
                condition: Rc::new(c.1),
                then_branch: Rc::new(t.1),
                else_branch: Rc::new(e3.1),
            },
        )
    } else {
        PStep::Miss
    }
}

/// The binding form, with its optional annotation and optional body.
fn parse_let_x(s: &Vec<char>, pos: usize) -> (r: PStep)
    requires
        pos <= s@.len(),
    ensures
        pstep_matches(r, parse_let_m(s@, pos as int)),
        r matches PStep::Found(p, _) ==> pos < p <= s@.len(),
    decreases s@.len() - pos, 5nat,
{
    let p0 = skip_ws_x(s, pos);
    let (p1, name) = match parse_name_x(s, p0) {
        Option::Some(pair) => pair,
        Option::None => {
            return PStep::Miss;
        },
    };
    let p2 = skip_ws_x(s, p1);
    let p3: usize = if p2 < s.len() && s[p2] == ':' {
        skip_ws_x(s, p2 + 1)
    } else {
        p2
    };
    let astep = parse_type_annotation(s, p3);
    let p4: usize = match &astep {
        TStep::Found(n, _) => *n,
        TStep::Miss => p3,
    };
    let ann: Option<Type> = match astep {
        TStep::Found(_, t) => Option::Some(t),
        TStep::Miss => Option::None,
    };
    let (p5, value) = match parse_expr(s, p4) {
        PStep::Found(q, e) => (q, e),
        PStep::Miss => {
            return PStep::Miss;
        },
        PStep::Abort(err) => {
            return PStep::Abort(err);
        },
    };
    let p6 = skip_ws_x(s, p5);
    if p6 < s.len() && s[p6] == ')' {
        let node = Expr::Let {
            name,
            type_ann: ann,
            value: Rc::new(value),
            body: Option::None,
        };
        proof {
            assert(crate::ast::sopt_view(&node->Let_body) == Option::<Box<SExpr>>::None);
            assert(crate::ast::sopt_type_view(&node->Let_type_ann) == (match parse_type_annotation_m(
                s@,
                p3 as int,
            ) {
                TOut::Found { t, .. } => Option::Some(t),
                TOut::Miss => Option::<SType>::None,
            }));
        }
        return PStep::Found(p6 + 1, node);
    }
    let (p7, body) = match parse_expr(s, p6) {
        PStep::Found(q, e) => (q, e),
        PStep::Miss => {
            return PStep::Miss;
        },
        PStep::Abort(err) => {
            return PStep::Abort(err);
        },
    };
    let p8 = skip_ws_x(s, p7);
    if p8 < s.len() && s[p8] == ')' {
        let body_rc = Rc::new(body);
        let node = Expr::Let {
            name,
            type_ann: ann,
            value: Rc::new(value),
            body: Option::Some(body_rc),
        };
        proof {
            assert(crate::ast::sopt_view(&node->Let_body) matches Option::Some(_));
            assert(crate::ast::sopt_type_view(&node->Let_type_ann) == (match parse_type_annotation_m(
                s@,
                p3 as int,
            ) {
                TOut::Found { t, .. } => Option::Some(t),
                TOut::Miss => Option::<SType>::None,
            }));
        }
        PStep::Found(p8 + 1, node)
    } else {
        PStep::Miss
    }
}

/// The named function form.
fn parse_defn_x(s: &Vec<char>, pos: usize) -> (r: PStep)
    requires
        pos <= s@.len(),
    ensures
        pstep_matches(r, parse_defn_m(s@, pos as int)),
        r matches PStep::Found(p, _) ==> pos < p <= s@.len(),
    decreases s@.len() - pos, 5nat,
{
    let p0 = skip_ws_x(s, pos);
    let (p1, name) = match parse_name_x(s, p0) {
        Option::Some(pair) => pair,
        Option::None => {
            return PStep::Miss;
        },
    };
    let p2 = skip_ws_x(s, p1);
    let (p3, ps) = match parse_params_x(s, p2) {
        Option::Some(pair) => pair,
        Option::None => {
            return PStep::Miss;
        },
    };
    let p4 = skip_ws_x(s, p3);
    let (p5, rt) = match parse_return_type_x(s, p4) {
        TStep::Found(q, t) => (q, t),
        TStep::Miss => {
            return PStep::Miss;
        },
    };
    let (p6, body) = match parse_expr(s, p5) {
        PStep::Found(q, e) => (q, e),
        PStep::Miss => {
            return PStep::Miss;
        },
        PStep::Abort(err) => {
            return PStep::Abort(err);
        },
    };
    let p7 = skip_ws_x(s, p6);
    if p7 < s.len() && s[p7] == ')' {
        PStep::Found(
            p7 + 1,
            Expr::Defn { name, params: ps, return_type: rt, body: Rc::new(body) },
        )
    } else {
        PStep::Miss
    }
}

/// The anonymous function form.
fn parse_lambda_x(s: &Vec<char>, pos: usize) -> (r: PStep)
    requires
        pos <= s@.len(),
    ensures
        pstep_matches(r, parse_lambda_m(s@, pos as int)),
        r matches PStep::Found(p, _) ==> pos < p <= s@.len(),
    decreases s@.len() - pos, 5nat,
{
    let p0 = skip_ws_x(s, pos);
    let (p1, ps) = match parse_params_x(s, p0) {
        Option::Some(pair) => pair,
        Option::None => {
            return PStep::Miss;
        },
    };
    let p2 = skip_ws_x(s, p1);
    let rstep = parse_return_type_x(s, p2);
    let p3: usize = match &rstep {
        TStep::Found(n, _) => *n,
        TStep::Miss => p2,
    };
    let rt: Option<Type> = match rstep {
        TStep::Found(_, t) => Option::Some(t),
        TStep::Miss => Option::None,
    };
    let (p4, body) = match parse_expr(s, p3) {
        PStep::Found(q, e) => (q, e),
        PStep::Miss => {
            return PStep::Miss;
        },
        PStep::Abort(err) => {
            return PStep::Abort(err);
        },
    };
    let p5 = skip_ws_x(s, p4);
    if p5 < s.len() && s[p5] == ')' {
        let node = Expr::Lambda { params: ps, return_type: rt, body: Rc::new(body) };
        proof {
            assert(crate::ast::sopt_type_view(&node->Lambda_return_type) == (match parse_return_type_m(
                s@,
                p2 as int,
            ) {
                TOut::Found { t, .. } => Option::Some(t),
                TOut::Miss => Option::<SType>::None,
            }));
        }
        PStep::Found(p5 + 1, node)
    } else {
        PStep::Miss
    }
}

/// Parse a whole input: one expression and nothing but whitespace after it.
pub fn parse(input: &str) -> (r: Result<Expr, ParseError>)
    ensures
        match r {
            Result::Ok(e) => parse_model(input@) matches Result::Ok(me) && expr_view(e) == me,
            Result::Err(pe) => parse_model(input@) matches Result::Err(me) && perr_view(pe) == me,
        },
{
    let chars = str_chars(input);
    match parse_expr(&chars, 0) {
        PStep::Found(p, e) => {
            let q = skip_ws_x(&chars, p);
            if q >= chars.len() {
                Result::Ok(e)
            } else {
                let rest = sub_chars(&chars, p, chars.len());
                Result::Err(ParseError::UnexpectedInput(string_from_chars(&rest)))
            }
        },
        PStep::Miss => Result::Err(ParseError::GenericParseFailure),
        PStep::Abort(err) => Result::Err(err),
    }
}

} // verus!
