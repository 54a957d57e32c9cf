use vstd::prelude::*;
use vstd::std_specs::iter::IteratorSpec;
use crate::token::{Fault, IntFault, LexError, Lexeme, Token, item_view};

verus! {

/// The characters with Unicode's White_Space property, which is what
/// `char::is_whitespace` tests.
pub open spec fn is_space(c: char) -> bool {
    let u = c as u32;
    (0x9 <= u <= 0xd) || u == 0x20 || u == 0x85 || u == 0xa0 || u == 0x1680 || (0x2000 <= u
        <= 0x200a) || u == 0x2028 || u == 0x2029 || u == 0x202f || u == 0x205f || u == 0x3000
}

pub fn space(c: char) -> (r: bool)
    ensures
        r == is_space(c),
{
    let u = c as u32;
    (0x9 <= u && u <= 0xd) || u == 0x20 || u == 0x85 || u == 0xa0 || u == 0x1680 || (0x2000 <= u
        && u <= 0x200a) || u == 0x2028 || u == 0x2029 || u == 0x202f || u == 0x205f || u == 0x3000
}

pub open spec fn is_ascii_letter(c: char) -> bool {
    ('a' <= c <= 'z') || ('A' <= c <= 'Z')
}

/// Whether a character has Unicode's Alphabetic property.
pub uninterp spec fn alphabetic(c: char) -> bool;

/// Relies on `char::is_alphabetic`: whether `c` has the Alphabetic property.
/// Among ASCII characters exactly the letters have it.
#[verifier::external_body]
pub(crate) fn letter(c: char) -> (r: bool)
    ensures
        r == alphabetic(c),
        (c as u32) < 128 ==> (r <==> is_ascii_letter(c)),
{
    c.is_alphabetic()
}

pub open spec fn is_digit(c: char) -> bool {
    '0' <= c <= '9'
}

pub open spec fn digit_value(c: char) -> int {
    c as int - '0' as int
}

pub open spec fn all_digits(a: Seq<char>) -> bool {
    forall|i: int| 0 <= i < a.len() ==> #[trigger] is_digit(a[i])
}

/// The number that a run of decimal digits denotes.
pub open spec fn digits_value(a: Seq<char>) -> int
    decreases a.len(),
{
    if a.len() == 0 {
        0
    } else {
        10 * digits_value(a.drop_last()) + digit_value(a.last())
    }
}

/// What reading `a` as a decimal `i64` gives: a literal here never starts
/// with a sign.
pub open spec fn int_literal(a: Seq<char>) -> Result<i64, IntFault> {
    if !all_digits(a) {
        Err(IntFault::InvalidDigit)
    } else if digits_value(a) > i64::MAX {
        Err(IntFault::TooLarge)
    } else {
        Ok(digits_value(a) as i64)
    }
}

/// The first index at or after `i` that does not hold a digit, or the length.
pub open spec fn digits_end(a: Seq<char>, i: int) -> int
    decreases a.len() - i,
{
    if i < 0 || i >= a.len() || !is_digit(a[i]) {
        i
    } else {
        digits_end(a, i + 1)
    }
}

/// A float literal that starts with a digit and holds a point:
/// digits, `.`, digits (maybe none), and an optional exponent made of
/// `e` or `E`, an optional sign, and at least one digit.
pub open spec fn float_literal(a: Seq<char>) -> bool {
    let p = digits_end(a, 0);
    let q = digits_end(a, p + 1);
    let r = if q + 1 < a.len() && (a[q + 1] == '+' || a[q + 1] == '-') {
        q + 2
    } else {
        q + 1
    };
    &&& 1 <= p < a.len()
    &&& a[p] == '.'
    &&& (q == a.len() || ((a[q] == 'e' || a[q] == 'E') && r < a.len() && digits_end(a, r)
        == a.len()))
}

/// The keyword that `a` spells, if any.
pub open spec fn keyword(a: Seq<char>) -> Option<Token> {
    if a == "if"@ {
        Some(Token::If)
    } else if a == "else"@ {
        Some(Token::Else)
    } else if a == "true"@ {
        Some(Token::True)
    } else if a == "false"@ {
        Some(Token::False)
    } else if a == "fn"@ {
        Some(Token::Fn)
    } else if a == "for"@ {
        Some(Token::For)
    } else if a == "in"@ {
        Some(Token::In)
    } else if a == "null"@ {
        Some(Token::Null)
    } else if a == "print"@ {
        Some(Token::Print)
    } else if a == "return"@ {
        Some(Token::Return)
    } else if a == "let"@ {
        Some(Token::Let)
    } else if a == "loop"@ {
        Some(Token::Loop)
    } else {
        None
    }
}

/// What an atom (a run of non-whitespace characters) stands for, given
/// whether its first character is alphabetic.
pub open spec fn classify(a: Seq<char>, leading_letter: bool) -> Result<Lexeme, Fault> {
    match keyword(a) {
        Some(t) => Ok(Lexeme::Sym(t)),
        None => if a.len() > 0 && is_digit(a[0]) {
            if a.contains('.') {
                if float_literal(a) {
                    Ok(Lexeme::Float(a))
                } else {
                    Err(Fault::MalformedFloat(a))
                }
            } else {
                match int_literal(a) {
                    Ok(v) => Ok(Lexeme::Int(v)),
                    Err(f) => Err(Fault::MalformedInt(a, f)),
                }
            }
        } else if leading_letter {
            Ok(Lexeme::Iden(a))
        } else {
            Err(Fault::UnexpectedToken(a))
        },
    }
}

/// The characters of `s`, in order.
pub fn chars_of(s: &str) -> (r: Vec<char>)
    ensures
        r@ == s@,
{
    let mut r: Vec<char> = Vec::new();
    let mut it = s.chars();
    loop
        invariant
            r@ + it.remaining() == s@,
            it.decrease() is Some,
        ensures
            r@ == s@,
        decreases it.decrease()->0,
    {
        match it.next() {
            Some(c) => {
                r.push(c);
            },
            None => {
                assert(r@ + it.remaining() =~= r@);
                break;
            },
        }
    }
    r
}

/// Whether `a` spells `w`.
fn spells(a: &Vec<char>, w: &str) -> (r: bool)
    ensures
        r == (a@ == w@),
{
    let n = w.unicode_len();
    if a.len() != n {
        return false;
    }
    let mut i: usize = 0;
    while i < n
        invariant
            n == w@.len(),
            a@.len() == n,
            i <= n,
            forall|k: int| 0 <= k < i ==> a@[k] == w@[k],
        decreases n - i,
    {
        if a[i] != w.get_char(i) {
            return false;
        }
        i += 1;
    }
    assert(a@ =~= w@);
    true
}

/// The keyword that `a` spells, if any.
pub fn keyword_of(a: &Vec<char>) -> (r: Option<Token>)
    ensures
        r == keyword(a@),
{
    if spells(a, "if") {
        Some(Token::If)
    } else if spells(a, "else") {
        Some(Token::Else)
    } else if spells(a, "true") {
        Some(Token::True)
    } else if spells(a, "false") {
        Some(Token::False)
    } else if spells(a, "fn") {
        Some(Token::Fn)
    } else if spells(a, "for") {
        Some(Token::For)
    } else if spells(a, "in") {
        Some(Token::In)
    } else if spells(a, "null") {
        Some(Token::Null)
    } else if spells(a, "print") {
        Some(Token::Print)
    } else if spells(a, "return") {
        Some(Token::Return)
    } else if spells(a, "let") {
        Some(Token::Let)
    } else if spells(a, "loop") {
        Some(Token::Loop)
    } else {
        None
    }
}

fn digit(c: char) -> (r: bool)
    ensures
        r == is_digit(c),
{
    '0' <= c && c <= '9'
}

proof fn lemma_digits_value_nonneg(a: Seq<char>)
    requires
        all_digits(a),
    ensures
        digits_value(a) >= 0,
    decreases a.len(),
{
    if a.len() > 0 {
        assert(is_digit(a[a.len() - 1]));
        lemma_digits_value_nonneg(a.drop_last());
    }
}

/// The value of a prefix of a digit run is at most that of the whole run.
proof fn lemma_prefix_value_le(a: Seq<char>, k: int)
    requires
        all_digits(a),
        0 <= k <= a.len(),
    ensures
        digits_value(a.take(k)) <= digits_value(a),
    decreases a.len() - k,
{
    if k == a.len() {
        assert(a.take(k) =~= a);
    } else {
        lemma_prefix_value_le(a, k + 1);
        assert(a.take(k + 1).drop_last() =~= a.take(k));
        assert(is_digit(a[k]));
        lemma_digits_value_nonneg(a.take(k));
    }
}

/// Reads `a` as a decimal `i64`.
pub fn parse_int(a: &Vec<char>) -> (r: Result<i64, IntFault>)
    ensures
        r == int_literal(a@),
{
    let mut i: usize = 0;
    while i < a.len()
        invariant
            i <= a@.len(),
            forall|k: int| 0 <= k < i ==> is_digit(a@[k]),
        decreases a.len() - i,
    {
        if !digit(a[i]) {
            return Err(IntFault::InvalidDigit);
        }
        i += 1;
    }
    assert(all_digits(a@));
    let mut acc: i64 = 0;
    i = 0;
    while i < a.len()
        invariant
            all_digits(a@),
            i <= a@.len(),
            acc == digits_value(a@.take(i as int)),
            acc >= 0,
        decreases a.len() - i,
    {
        assert(is_digit(a@[i as int]));
        assert(a@.take(i + 1).drop_last() =~= a@.take(i as int));
        let d = (a[i] as u32 - '0' as u32) as i64;
        if acc > 922337203685477580 || (acc == 922337203685477580 && d > 7) {
            proof {
                lemma_prefix_value_le(a@, i + 1);
            }
            return Err(IntFault::TooLarge);
        }
        acc = acc * 10 + d;
        i += 1;
    }
    assert(a@.take(a@.len() as int) =~= a@);
    Ok(acc)
}

/// The first index at or after `i` that does not hold a digit, or the length.
fn digit_run_end(a: &Vec<char>, i: usize) -> (r: usize)
    requires
        i <= a@.len(),
    ensures
        r == digits_end(a@, i as int),
        i <= r <= a@.len(),
{
    let mut j = i;
    while j < a.len() && digit(a[j])
        invariant
            i <= j <= a@.len(),
            digits_end(a@, j as int) == digits_end(a@, i as int),
        decreases a.len() - j,
    {
        j += 1;
    }
    j
}

/// Whether `a` is a float literal as `float_literal` describes.
pub fn is_float_literal(a: &Vec<char>) -> (r: bool)
    ensures
        r == float_literal(a@),
{
    let p = digit_run_end(a, 0);
    if !(1 <= p && p < a.len() && a[p] == '.') {
        return false;
    }
    let q = digit_run_end(a, p + 1);
    if q == a.len() {
        return true;
    }
    if !(a[q] == 'e' || a[q] == 'E') {
        return false;
    }
    let r = if q + 1 < a.len() && (a[q + 1] == '+' || a[q + 1] == '-') {
        q + 2
    } else {
        q + 1
    };
    r < a.len() && digit_run_end(a, r) == a.len()
}

fn has_point(a: &Vec<char>) -> (r: bool)
    ensures
        r == a@.contains('.'),
{
    let mut i: usize = 0;
    while i < a.len()
        invariant
            i <= a@.len(),
            forall|k: int| 0 <= k < i ==> a@[k] != '.',
        decreases a.len() - i,
    {
        if a[i] == '.' {
            return true;
        }
        i += 1;
    }
    false
}

/// Classifies an atom, a run of non-whitespace characters, given whether
/// its first character is alphabetic.
pub fn classify_atom(atom: &str, leading_letter: bool) -> (r: Result<Token, LexError>)
    ensures
        item_view(r) == classify(atom@, leading_letter),
{
    let a = chars_of(atom);
    match keyword_of(&a) {
        Some(t) => Ok(t),
        None => {
            if a.len() > 0 && digit(a[0]) {
                if has_point(&a) {
                    if is_float_literal(&a) {
                        Ok(Token::Float(atom.to_owned()))
                    } else {
                        Err(LexError::MalformedFloat(atom.to_owned()))
                    }
                } else {
                    match parse_int(&a) {
                        Ok(v) => Ok(Token::Int(v)),
                        Err(f) => Err(LexError::MalformedInt(atom.to_owned(), f)),
                    }
                }
            } else if leading_letter {
                Ok(Token::Iden(atom.to_owned()))
            } else {
                Err(LexError::UnexpectedToken(atom.to_owned()))
            }
        },
    }
}

} // verus!
