use vstd::prelude::*;

use crate::bignum::is_dec_digit;
use crate::token::{Span, Token, TokenModel};

verus! {

/// Whitespace skipped between tokens: the ASCII whitespace characters.
pub open spec fn is_ws_char(c: char) -> bool {
    c == ' ' || c == '\t' || c == '\n' || c == '\r' || c == '\u{c}'
}

pub open spec fn is_ident_start(c: char) -> bool {
    (97 <= c as u32 <= 122) || (65 <= c as u32 <= 90) || c == '_'
}

pub open spec fn is_ident_char(c: char) -> bool {
    is_ident_start(c) || is_dec_digit(c)
}

/// First position at or after `i` that does not hold a decimal digit.
pub open spec fn digits_end(s: Seq<char>, i: int) -> int
    decreases s.len() - i,
{
    if 0 <= i < s.len() && is_dec_digit(s[i]) {
        digits_end(s, i + 1)
    } else {
        i
    }
}

/// First position at or after `i` that does not hold an identifier
/// character.
pub open spec fn ident_end(s: Seq<char>, i: int) -> int
    decreases s.len() - i,
{
    if 0 <= i < s.len() && is_ident_char(s[i]) {
        ident_end(s, i + 1)
    } else {
        i
    }
}

/// End of an integer part `0 | [1-9][0-9]*` starting at `i`, if one
/// starts there.
pub open spec fn int_part_end(s: Seq<char>, i: int) -> Option<int> {
    if 0 <= i < s.len() && s[i] == '0' {
        Some(i + 1)
    } else if 0 <= i < s.len() && is_dec_digit(s[i]) {
        Some(digits_end(s, i))
    } else {
        None
    }
}

/// End of an exponent `[eE][+-]?[0-9]+` starting at `i`, if one starts
/// there.
pub open spec fn exp_end(s: Seq<char>, i: int) -> Option<int> {
    if 0 <= i < s.len() && (s[i] == 'e' || s[i] == 'E') {
        let j = if i + 1 < s.len() && (s[i + 1] == '+' || s[i + 1] == '-') {
            i + 2
        } else {
            i + 1
        };
        if j < s.len() && is_dec_digit(s[j]) {
            Some(digits_end(s, j))
        } else {
            None
        }
    } else {
        None
    }
}

/// Longest numeric literal starting at `i` (where `s[i]` is `-`, a
/// digit, or `.`): whether it is a float, and its end. `None` when no
/// numeric literal starts there.
pub open spec fn scan_number(s: Seq<char>, i: int) -> Option<(bool, int)> {
    let j0 = if 0 <= i < s.len() && s[i] == '-' {
        i + 1
    } else {
        i
    };
    if j0 < s.len() && s[j0] == '.' && j0 + 1 < s.len() && is_dec_digit(s[j0 + 1]) {
        let fe = digits_end(s, j0 + 1);
        match exp_end(s, fe) {
            Some(e) => Some((true, e)),
            None => Some((true, fe)),
        }
    } else {
        match int_part_end(s, j0) {
            None => None,
            Some(ip) => {
                if ip < s.len() && s[ip] == '.' {
                    let fe = digits_end(s, ip + 1);
                    match exp_end(s, fe) {
                        Some(e) => Some((true, e)),
                        None => Some((true, fe)),
                    }
                } else {
                    match exp_end(s, ip) {
                        Some(e) => Some((true, e)),
                        None => Some((false, ip)),
                    }
                }
            },
        }
    }
}

/// Position just after the closing quote of a string literal whose
/// content starts at `j`; `None` when the literal is unterminated.
pub open spec fn string_end(s: Seq<char>, j: int) -> Option<int>
    decreases s.len() - j,
{
    if !(0 <= j < s.len()) {
        None
    } else if s[j] == '"' {
        Some(j + 1)
    } else if s[j] == '\\' {
        if j + 1 < s.len() {
            string_end(s, j + 2)
        } else {
            None
        }
    } else {
        string_end(s, j + 1)
    }
}

/// What one escape character after a backslash denotes, if anything.
pub open spec fn escape_value(c: char) -> Option<char> {
    if c == '\\' {
        Some('\\')
    } else if c == 't' {
        Some('\t')
    } else if c == 'n' {
        Some('\n')
    } else if c == 'r' {
        Some('\r')
    } else if c == '0' {
        Some('\u{0}')
    } else if c == '"' {
        Some('"')
    } else if c == '\'' {
        Some('\'')
    } else if c == 'b' {
        Some('\u{8}')
    } else if c == 'f' {
        Some('\u{c}')
    } else if c == 'v' {
        Some('\u{b}')
    } else if c == 'a' {
        Some('\u{7}')
    } else {
        None
    }
}

/// Escape decoding of string-literal content: every backslash pair
/// becomes its escape value; `None` on an unknown escape or a trailing
/// backslash.
pub open spec fn spec_unescape(s: Seq<char>) -> Option<Seq<char>>
    decreases s.len(),
{
    if s.len() == 0 {
        Some(Seq::empty())
    } else if s[0] == '\\' {
        if s.len() >= 2 {
            match escape_value(s[1]) {
                Some(c) => match spec_unescape(s.subrange(2, s.len() as int)) {
                    Some(t) => Some(seq![c] + t),
                    None => None,
                },
                None => None,
            }
        } else {
            None
        }
    } else {
        match spec_unescape(s.subrange(1, s.len() as int)) {
            Some(t) => Some(seq![s[0]] + t),
            None => None,
        }
    }
}

/// The token starting at position `i` (not whitespace), and the
/// position after it: longest match, with single-character tokens for
/// what nothing longer fits.
pub open spec fn spec_token_at(s: Seq<char>, i: int) -> (TokenModel, int) {
    let c = s[i];
    if c == '(' {
        (TokenModel::LParen, i + 1)
    } else if c == ')' {
        (TokenModel::RParen, i + 1)
    } else if c == '+' {
        (TokenModel::AddOp, i + 1)
    } else if c == '*' {
        (TokenModel::MulOp, i + 1)
    } else if c == '/' {
        (TokenModel::DivOp, i + 1)
    } else if c == ',' {
        (TokenModel::CommaT, i + 1)
    } else if c == '-' || c == '.' || is_dec_digit(c) {
        match scan_number(s, i) {
            Some((isf, end)) => if isf {
                (TokenModel::FloatLit(s.subrange(i, end)), end)
            } else {
                (TokenModel::IntLit(s.subrange(i, end)), end)
            },
            None => if c == '-' {
                (TokenModel::SubOp, i + 1)
            } else {
                (TokenModel::ErrorT, i + 1)
            },
        }
    } else if c == '"' {
        match string_end(s, i + 1) {
            None => (TokenModel::ErrorT, i + 1),
            Some(end) => match spec_unescape(s.subrange(i + 1, end - 1)) {
                Some(d) => (TokenModel::StrLit(d), end),
                None => (TokenModel::ErrorT, end),
            },
        }
    } else if is_ident_start(c) {
        (TokenModel::Ident(s.subrange(i, ident_end(s, i))), ident_end(s, i))
    } else {
        (TokenModel::ErrorT, i + 1)
    }
}

/// The token sequence of the source from position `i` on, with the
/// character span of each token.
pub open spec fn spec_lex_at(s: Seq<char>, i: int) -> Seq<(TokenModel, int, int)>
    decreases s.len() - i, 1int,
{
    if !(0 <= i < s.len()) {
        Seq::empty()
    } else if is_ws_char(s[i]) {
        spec_lex_at(s, i + 1)
    } else {
        let (t, j) = spec_token_at(s, i);
        if i < j <= s.len() {
            seq![(t, i, j)] + spec_lex_at(s, j)
        } else {
            Seq::empty()
        }
    }
}

/// The token sequence of the whole source.
pub open spec fn spec_lex(s: Seq<char>) -> Seq<(TokenModel, int, int)> {
    spec_lex_at(s, 0)
}

pub proof fn lemma_digits_end_bounds(s: Seq<char>, i: int)
    requires
        0 <= i <= s.len(),
    ensures
        i <= digits_end(s, i) <= s.len(),
    decreases s.len() - i,
{
    if i < s.len() && is_dec_digit(s[i]) {
        lemma_digits_end_bounds(s, i + 1);
    }
}

pub proof fn lemma_ident_end_bounds(s: Seq<char>, i: int)
    requires
        0 <= i <= s.len(),
    ensures
        i <= ident_end(s, i) <= s.len(),
    decreases s.len() - i,
{
    if i < s.len() && is_ident_char(s[i]) {
        lemma_ident_end_bounds(s, i + 1);
    }
}

pub proof fn lemma_string_end_bounds(s: Seq<char>, j: int)
    requires
        0 <= j,
    ensures
        match string_end(s, j) {
            Some(e) => j < e <= s.len(),
            None => true,
        },
    decreases s.len() - j,
{
    if 0 <= j < s.len() {
        if s[j] == '"' {
        } else if s[j] == '\\' {
            if j + 1 < s.len() {
                lemma_string_end_bounds(s, j + 2);
            }
        } else {
            lemma_string_end_bounds(s, j + 1);
        }
    }
}

pub proof fn lemma_exp_end_bounds(s: Seq<char>, i: int)
    requires
        0 <= i,
    ensures
        match exp_end(s, i) {
            Some(e) => i < e <= s.len(),
            None => true,
        },
{
    if 0 <= i < s.len() && (s[i] == 'e' || s[i] == 'E') {
        let j = if i + 1 < s.len() && (s[i + 1] == '+' || s[i + 1] == '-') {
            i + 2
        } else {
            i + 1
        };
        if j < s.len() && is_dec_digit(s[j]) {
            lemma_digits_end_bounds(s, j);
        }
    }
}

pub proof fn lemma_int_part_end_bounds(s: Seq<char>, i: int)
    requires
        0 <= i,
    ensures
        match int_part_end(s, i) {
            Some(e) => i < e <= s.len(),
            None => true,
        },
{
    if 0 <= i < s.len() && s[i] != '0' && is_dec_digit(s[i]) {
        assert(digits_end(s, i) == digits_end(s, i + 1));
        lemma_digits_end_bounds(s, i + 1);
    }
}

pub proof fn lemma_scan_number_bounds(s: Seq<char>, i: int)
    requires
        0 <= i < s.len(),
    ensures
        match scan_number(s, i) {
            Some((isf, e)) => i < e <= s.len(),
            None => true,
        },
{
    let j0 = if s[i] == '-' {
        i + 1
    } else {
        i
    };
    if j0 < s.len() && s[j0] == '.' && j0 + 1 < s.len() && is_dec_digit(s[j0 + 1]) {
        lemma_digits_end_bounds(s, j0 + 1);
        lemma_exp_end_bounds(s, digits_end(s, j0 + 1));
    } else {
        match int_part_end(s, j0) {
            None => {},
            Some(ip) => {
                lemma_int_part_end_bounds(s, j0);
                if ip < s.len() && s[ip] == '.' {
                    lemma_digits_end_bounds(s, ip + 1);
                    lemma_exp_end_bounds(s, digits_end(s, ip + 1));
                } else {
                    lemma_exp_end_bounds(s, ip);
                }
            },
        }
    }
}

/// A token always makes progress and stays inside the source.
pub proof fn lemma_token_at_bounds(s: Seq<char>, i: int)
    requires
        0 <= i < s.len(),
    ensures
        i < spec_token_at(s, i).1 <= s.len(),
{
    let c = s[i];
    if c == '-' || c == '.' || is_dec_digit(c) {
        lemma_scan_number_bounds(s, i);
    } else if c == '"' {
        lemma_string_end_bounds(s, i + 1);
    } else if is_ident_start(c) {
        assert(ident_end(s, i) == ident_end(s, i + 1));
        lemma_ident_end_bounds(s, i + 1);
    }
}

} // verus!

verus! {

fn ch_digit(c: char) -> (r: bool)
    ensures
        r == is_dec_digit(c),
{
    let u = c as u32;
    48 <= u && u <= 57
}

fn ch_ws(c: char) -> (r: bool)
    ensures
        r == is_ws_char(c),
{
    c == ' ' || c == '\t' || c == '\n' || c == '\r' || c == '\u{c}'
}

fn ch_ident_start(c: char) -> (r: bool)
    ensures
        r == is_ident_start(c),
{
    let u = c as u32;
    (97 <= u && u <= 122) || (65 <= u && u <= 90) || c == '_'
}

fn ch_ident(c: char) -> (r: bool)
    ensures
        r == is_ident_char(c),
{
    ch_ident_start(c) || ch_digit(c)
}

fn ch_escape(c: char) -> (r: Option<char>)
    ensures
        r == escape_value(c),
{
    if c == '\\' {
        Some('\\')
    } else if c == 't' {
        Some('\t')
    } else if c == 'n' {
        Some('\n')
    } else if c == 'r' {
        Some('\r')
    } else if c == '0' {
        Some('\u{0}')
    } else if c == '"' {
        Some('"')
    } else if c == '\'' {
        Some('\'')
    } else if c == 'b' {
        Some('\u{8}')
    } else if c == 'f' {
        Some('\u{c}')
    } else if c == 'v' {
        Some('\u{b}')
    } else if c == 'a' {
        Some('\u{7}')
    } else {
        None
    }
}

/// Relies on String::push: appends exactly the one character.
#[verifier::external_body]
pub(crate) fn push_char(s: &mut String, c: char)
    ensures
        final(s)@ == old(s)@.push(c),
{
    s.push(c);
}

/// Copies the characters of `v[lo..hi]` into a fresh string.
pub(crate) fn chars_range_to_string(v: &Vec<char>, lo: usize, hi: usize) -> (r: String)
    requires
        lo <= hi <= v@.len(),
    ensures
        r@ == v@.subrange(lo as int, hi as int),
{
    let mut out = String::new();
    let mut k: usize = lo;
    while k < hi
        invariant
            lo <= k <= hi <= v@.len(),
            out@ == v@.subrange(lo as int, k as int),
        decreases hi - k,
    {
        let c = v[k];
        push_char(&mut out, c);
        k += 1;
        proof {
            assert(v@.subrange(lo as int, k as int) =~= v@.subrange(lo as int, k - 1).push(c));
        }
    }
    out
}

/// The characters of a string slice, in order.
pub(crate) fn str_to_chars(s: &str) -> (r: Vec<char>)
    ensures
        r@ == s@,
{
    let n = s.unicode_len();
    let mut v: Vec<char> = Vec::new();
    let mut i: usize = 0;
    while i < n
        invariant
            i <= n,
            n == s@.len(),
            v@ == s@.subrange(0, i as int),
        decreases n - i,
    {
        let c = s.get_char(i);
        v.push(c);
        i += 1;
        proof {
            assert(s@.subrange(0, i as int) =~= s@.subrange(0, i - 1).push(c));
        }
    }
    proof {
        assert(s@.subrange(0, n as int) =~= s@);
    }
    v
}

fn digits_end_x(v: &Vec<char>, i: usize) -> (r: usize)
    requires
        i <= v@.len(),
    ensures
        r as int == digits_end(v@, i as int),
        i <= r <= v@.len(),
{
    let mut j: usize = i;
    while j < v.len() && ch_digit(v[j])
        invariant
            i <= j <= v@.len(),
            digits_end(v@, i as int) == digits_end(v@, j as int),
        decreases v@.len() - j,
    {
        j += 1;
    }
    proof {
        lemma_digits_end_bounds(v@, j as int);
    }
    j
}

fn ident_end_x(v: &Vec<char>, i: usize) -> (r: usize)
    requires
        i <= v@.len(),
    ensures
        r as int == ident_end(v@, i as int),
        i <= r <= v@.len(),
{
    let mut j: usize = i;
    while j < v.len() && ch_ident(v[j])
        invariant
            i <= j <= v@.len(),
            ident_end(v@, i as int) == ident_end(v@, j as int),
        decreases v@.len() - j,
    {
        j += 1;
    }
    j
}

fn string_end_x(v: &Vec<char>, j: usize) -> (r: Option<usize>)
    requires
        j <= v@.len(),
    ensures
        match r {
            Some(e) => string_end(v@, j as int) == Some(e as int) && j < e <= v@.len(),
            None => string_end(v@, j as int) is None,
        },
{
    let mut k: usize = j;
    loop
        invariant
            j <= k <= v@.len(),
            string_end(v@, j as int) == string_end(v@, k as int),
        decreases v@.len() - k,
    {
        if k >= v.len() {
            return None;
        }
        let c = v[k];
        if c == '"' {
            return Some(k + 1);
        } else if c == '\\' {
            if k + 1 < v.len() {
                k += 2;
            } else {
                return None;
            }
        } else {
            k += 1;
        }
    }
}

fn int_part_end_x(v: &Vec<char>, i: usize) -> (r: Option<usize>)
    requires
        i <= v@.len(),
    ensures
        match r {
            Some(e) => int_part_end(v@, i as int) == Some(e as int) && i < e <= v@.len(),
            None => int_part_end(v@, i as int) is None,
        },
{
    if i < v.len() {
        let c = v[i];
        if c == '0' {
            Some(i + 1)
        } else if ch_digit(c) {
            proof {
                assert(digits_end(v@, i as int) == digits_end(v@, i + 1));
                lemma_digits_end_bounds(v@, i + 1);
            }
            Some(digits_end_x(v, i))
        } else {
            None
        }
    } else {
        None
    }
}

fn exp_end_x(v: &Vec<char>, i: usize) -> (r: Option<usize>)
    requires
        i <= v@.len(),
    ensures
        match r {
            Some(e) => exp_end(v@, i as int) == Some(e as int) && i < e <= v@.len(),
            None => exp_end(v@, i as int) is None,
        },
{
    if i < v.len() && (v[i] == 'e' || v[i] == 'E') {
        let j: usize = if i + 1 < v.len() && (v[i + 1] == '+' || v[i + 1] == '-') {
            i + 2
        } else {
            i + 1
        };
        if j < v.len() && ch_digit(v[j]) {
            proof {
                assert(digits_end(v@, j as int) == digits_end(v@, j + 1));
                lemma_digits_end_bounds(v@, j + 1);
            }
            Some(digits_end_x(v, j))
        } else {
            None
        }
    } else {
        None
    }
}

fn scan_number_x(v: &Vec<char>, i: usize) -> (r: Option<(bool, usize)>)
    requires
        i < v@.len(),
    ensures
        match r {
            Some((isf, e)) => scan_number(v@, i as int) == Some((isf, e as int)) && i < e
                <= v@.len(),
            None => scan_number(v@, i as int) is None,
        },
{
    let n = v.len();
    let j0: usize = if v[i] == '-' {
        i + 1
    } else {
        i
    };
    if j0 < v.len() && v[j0] == '.' && j0 + 1 < v.len() && ch_digit(v[j0 + 1]) {
        let fe = digits_end_x(v, j0 + 1);
        match exp_end_x(v, fe) {
            Some(e) => Some((true, e)),
            None => Some((true, fe)),
        }
    } else {
        match int_part_end_x(v, j0) {
            None => None,
            Some(ip) => {
                if ip < v.len() && v[ip] == '.' {
                    let fe = digits_end_x(v, ip + 1);
                    match exp_end_x(v, fe) {
                        Some(e) => Some((true, e)),
                        None => Some((true, fe)),
                    }
                } else {
                    match exp_end_x(v, ip) {
                        Some(e) => Some((true, e)),
                        None => Some((false, ip)),
                    }
                }
            },
        }
    }
}

pub(crate) fn unescape_chars(v: &Vec<char>, lo: usize, hi: usize) -> (r: Option<String>)
    requires
        lo <= hi <= v@.len(),
    ensures
        match r {
            Some(st) => spec_unescape(v@.subrange(lo as int, hi as int)) == Some(st@),
            None => spec_unescape(v@.subrange(lo as int, hi as int)) is None,
        },
{
    let ghost full = v@.subrange(lo as int, hi as int);
    let mut out = String::new();
    let mut k: usize = lo;
    while k < hi
        invariant
            lo <= k <= hi <= v@.len(),
            full == v@.subrange(lo as int, hi as int),
            match spec_unescape(v@.subrange(k as int, hi as int)) {
                Some(t) => spec_unescape(full) == Some(out@ + t),
                None => spec_unescape(full) is None,
            },
        decreases hi - k,
    {
        let ghost sub_k = v@.subrange(k as int, hi as int);
        let c = v[k];
        if c == '\\' {
            if k + 1 < hi {
                match ch_escape(v[k + 1]) {
                    Some(d) => {
                        proof {
                            assert(sub_k.subrange(2, sub_k.len() as int) =~= v@.subrange(
                                k + 2, hi as int));
                        }
                        let ghost old_out = out@;
                        push_char(&mut out, d);
                        k += 2;
                        proof {
                            match spec_unescape(v@.subrange(k as int, hi as int)) {
                                Some(t) => {
                                    assert(spec_unescape(sub_k) == Some(seq![d] + t));
                                    assert(old_out + (seq![d] + t) =~= (old_out.push(d)) + t);
                                },
                                None => {},
                            }
                        }
                    },
                    None => {
                        return None;
                    },
                }
            } else {
                return None;
            }
        } else {
            proof {
                assert(sub_k.subrange(1, sub_k.len() as int) =~= v@.subrange(k + 1, hi as int));
            }
            let ghost old_out = out@;
            push_char(&mut out, c);
            k += 1;
            proof {
                match spec_unescape(v@.subrange(k as int, hi as int)) {
                    Some(t) => {
                        assert(spec_unescape(sub_k) == Some(seq![c] + t));
                        assert(old_out + (seq![c] + t) =~= (old_out.push(c)) + t);
                    },
                    None => {},
                }
            }
        }
    }
    proof {
        assert(v@.subrange(k as int, hi as int) =~= Seq::<char>::empty());
        assert(out@ + Seq::<char>::empty() =~= out@);
    }
    Some(out)
}

/// The token starting at position `i`, which must not be whitespace,
/// and the position after it.
fn token_at_x(v: &Vec<char>, i: usize) -> (r: (Token, usize))
    requires
        i < v@.len(),
    ensures
        r.0@ == spec_token_at(v@, i as int).0,
        r.1 as int == spec_token_at(v@, i as int).1,
        i < r.1 <= v@.len(),
{
    proof {
        lemma_token_at_bounds(v@, i as int);
    }
    let n = v.len();
    let c = v[i];
    if c == '(' {
        (Token::LeftParen, i + 1)
    } else if c == ')' {
        (Token::RightParen, i + 1)
    } else if c == '+' {
        (Token::Add, i + 1)
    } else if c == '*' {
        (Token::Mul, i + 1)
    } else if c == '/' {
        (Token::Div, i + 1)
    } else if c == ',' {
        (Token::Comma, i + 1)
    } else if c == '-' || c == '.' || ch_digit(c) {
        match scan_number_x(v, i) {
            Some((isf, end)) => {
                let text = chars_range_to_string(v, i, end);
                if isf {
                    (Token::Float(text), end)
                } else {
                    (Token::Int(text), end)
                }
            },
            None => {
                if c == '-' {
                    (Token::Sub, i + 1)
                } else {
                    (Token::Error, i + 1)
                }
            },
        }
    } else if c == '"' {
        match string_end_x(v, i + 1) {
            None => (Token::Error, i + 1),
            Some(end) => {
                match unescape_chars(v, i + 1, end - 1) {
                    Some(d) => (Token::Str(d), end),
                    None => (Token::Error, end),
                }
            },
        }
    } else if ch_ident_start(c) {
        let e = ident_end_x(v, i);
        let text = chars_range_to_string(v, i, e);
        (Token::Var(text), e)
    } else {
        (Token::Error, i + 1)
    }
}

/// Splits the source into its tokens, each with its character span.
pub fn tokenize(src: &str) -> (r: Vec<(Token, Span)>)
    ensures
        r@.len() == spec_lex(src@).len(),
        forall|k: int|
            0 <= k < r@.len() ==> r@[k].0@ == spec_lex(src@)[k].0 && r@[k].1.lo as int == spec_lex(
                src@,
            )[k].1 && r@[k].1.hi as int == spec_lex(src@)[k].2,
{
    let v = str_to_chars(src);
    let ghost s = src@;
    let ghost m = spec_lex(s);
    let mut out: Vec<(Token, Span)> = Vec::new();
    let mut i: usize = 0;
    while i < v.len()
        invariant
            v@ == s,
            m == spec_lex(s),
            i <= v@.len(),
            out@.len() + spec_lex_at(s, i as int).len() == m.len(),
            spec_lex_at(s, i as int) =~= m.subrange(out@.len() as int, m.len() as int),
            forall|k: int|
                0 <= k < out@.len() ==> out@[k].0@ == m[k].0 && out@[k].1.lo as int == m[k].1
                    && out@[k].1.hi as int == m[k].2,
        decreases v@.len() - i,
    {
        let c = v[i];
        if ch_ws(c) {
            i += 1;
        } else {
            let ghost rest = spec_lex_at(s, i as int);
            let (t, j) = token_at_x(&v, i);
            proof {
                assert(rest == seq![(spec_token_at(s, i as int).0, i as int, j as int)]
                    + spec_lex_at(s, j as int));
                assert(rest[0] == (spec_token_at(s, i as int).0, i as int, j as int));
                assert(m[out@.len() as int] == rest[0]);
                assert(spec_lex_at(s, j as int) =~= rest.subrange(1, rest.len() as int));
                assert(rest.subrange(1, rest.len() as int) =~= m.subrange(out@.len() as int + 1,
                    m.len() as int));
            }
            out.push((t, Span { lo: i, hi: j }));
            i = j;
        }
    }
    proof {
        assert(spec_lex_at(s, i as int) =~= Seq::<(TokenModel, int, int)>::empty());
    }
    out
}

} // verus!
