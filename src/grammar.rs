use vstd::prelude::*;
use crate::classify::{alphabetic, classify, is_space};
use crate::token::{Fault, Lexeme, Token};

verus! {

/// The first index at or after `i` that holds no whitespace, or the length.
pub open spec fn skip_space(s: Seq<char>, i: int) -> int
    decreases s.len() - i,
{
    if 0 <= i < s.len() && is_space(s[i]) {
        skip_space(s, i + 1)
    } else {
        i
    }
}

/// The first index at or after `i` that holds a newline, or the length.
pub open spec fn line_end(s: Seq<char>, i: int) -> int
    decreases s.len() - i,
{
    if 0 <= i < s.len() && s[i] != '\n' {
        line_end(s, i + 1)
    } else {
        i
    }
}

/// The first index at or after `i` that holds whitespace, or the length.
pub open spec fn atom_end(s: Seq<char>, i: int) -> int
    decreases s.len() - i,
{
    if 0 <= i < s.len() && !is_space(s[i]) {
        atom_end(s, i + 1)
    } else {
        i
    }
}

/// The first index at or after `i` that holds a `"`, if any.
pub open spec fn quote_end(s: Seq<char>, i: int) -> Option<int>
    decreases s.len() - i,
{
    if i < 0 || i >= s.len() {
        None
    } else if s[i] == '"' {
        Some(i)
    } else {
        quote_end(s, i + 1)
    }
}

/// Inside a block comment with `depth` comments open, the index just after
/// the `*/` that closes the outermost one, if any.
pub open spec fn comment_end(s: Seq<char>, i: int, depth: nat) -> Option<int>
    decreases s.len() - i,
{
    if i < 0 || i + 1 >= s.len() {
        None
    } else if s[i] == '/' && s[i + 1] == '*' {
        comment_end(s, i + 2, depth + 1)
    } else if s[i] == '*' && s[i + 1] == '/' {
        if depth <= 1 {
            Some(i + 2)
        } else {
            comment_end(s, i + 2, (depth - 1) as nat)
        }
    } else {
        comment_end(s, i + 1, depth)
    }
}

/// The token that a character makes on its own.
pub open spec fn one_char_token(c: char) -> Option<Token> {
    if c == '(' {
        Some(Token::LParen)
    } else if c == ')' {
        Some(Token::RParen)
    } else if c == '{' {
        Some(Token::LBrace)
    } else if c == '}' {
        Some(Token::RBrace)
    } else if c == ',' {
        Some(Token::Comma)
    } else if c == '.' {
        Some(Token::Dot)
    } else if c == ';' {
        Some(Token::Semicolon)
    } else if c == '-' {
        Some(Token::Minus)
    } else if c == '+' {
        Some(Token::Plus)
    } else if c == '*' {
        Some(Token::Star)
    } else if c == '/' {
        Some(Token::Slash)
    } else if c == '=' {
        Some(Token::Eq)
    } else if c == '!' {
        Some(Token::Bang)
    } else if c == '>' {
        Some(Token::Gt)
    } else if c == '<' {
        Some(Token::Lt)
    } else if c == '|' {
        Some(Token::Pipe)
    } else if c == '&' {
        Some(Token::Ampersand)
    } else if c == ':' {
        Some(Token::Colon)
    } else {
        None
    }
}

/// The token that two characters make together.
pub open spec fn two_char_token(c: char, d: char) -> Option<Token> {
    if c == '=' && d == '=' {
        Some(Token::EqEq)
    } else if c == '!' && d == '=' {
        Some(Token::NEq)
    } else if c == '>' && d == '=' {
        Some(Token::GtEq)
    } else if c == '<' && d == '=' {
        Some(Token::LtEq)
    } else if c == '|' && d == '|' {
        Some(Token::Or)
    } else if c == '&' && d == '&' {
        Some(Token::And)
    } else if c == ':' && d == ':' {
        Some(Token::ColonColon)
    } else {
        None
    }
}

/// The item that starts at `j`, where no whitespace or comment starts, and
/// the index just after it.
pub open spec fn token_at(s: Seq<char>, j: int) -> (Result<Lexeme, Fault>, int) {
    let c = s[j];
    if j + 1 < s.len() && two_char_token(c, s[j + 1]) is Some {
        (Ok(Lexeme::Sym(two_char_token(c, s[j + 1])->0)), j + 2)
    } else if one_char_token(c) is Some {
        (Ok(Lexeme::Sym(one_char_token(c)->0)), j + 1)
    } else if c == '"' {
        match quote_end(s, j + 1) {
            Some(q) => (Ok(Lexeme::Str(s.subrange(j + 1, q))), q + 1),
            None => (Err(Fault::UnterminatedString), s.len() as int),
        }
    } else {
        let e = atom_end(s, j);
        (classify(s.subrange(j, e), alphabetic(c)), e)
    }
}

pub open spec fn starts_line_comment(s: Seq<char>, j: int) -> bool {
    0 <= j && j + 1 < s.len() && s[j] == '/' && s[j + 1] == '/'
}

pub open spec fn starts_block_comment(s: Seq<char>, j: int) -> bool {
    0 <= j && j + 1 < s.len() && s[j] == '/' && s[j + 1] == '*'
}

/// The next item of output from index `i` on, and the index where scanning
/// goes on after it; `None` where only whitespace and comments remain.
pub open spec fn next_item(s: Seq<char>, i: int) -> Option<(Result<Lexeme, Fault>, int)>
    decreases s.len() - i,
    via next_item_decreases
{
    let j = skip_space(s, i);
    if i < 0 || j >= s.len() {
        None
    } else if starts_line_comment(s, j) {
        next_item(s, line_end(s, j + 2))
    } else if starts_block_comment(s, j) {
        match comment_end(s, j + 2, 1) {
            Some(k) => next_item(s, k),
            None => Some((Err(Fault::UnterminatedBlockComment), s.len() as int)),
        }
    } else {
        Some(token_at(s, j))
    }
}

pub proof fn lemma_skip_space_bounds(s: Seq<char>, i: int)
    requires
        0 <= i,
    ensures
        i <= skip_space(s, i),
        i <= s.len() ==> skip_space(s, i) <= s.len(),
        skip_space(s, i) < s.len() ==> !is_space(s[skip_space(s, i)]),
    decreases s.len() - i,
{
    if 0 <= i < s.len() && is_space(s[i]) {
        lemma_skip_space_bounds(s, i + 1);
    }
}

pub proof fn lemma_line_end_bounds(s: Seq<char>, i: int)
    requires
        0 <= i <= s.len(),
    ensures
        i <= line_end(s, i) <= s.len(),
    decreases s.len() - i,
{
    if i < s.len() && s[i] != '\n' {
        lemma_line_end_bounds(s, i + 1);
    }
}

pub proof fn lemma_atom_end_bounds(s: Seq<char>, i: int)
    requires
        0 <= i <= s.len(),
    ensures
        i <= atom_end(s, i) <= s.len(),
    decreases s.len() - i,
{
    if i < s.len() && !is_space(s[i]) {
        lemma_atom_end_bounds(s, i + 1);
    }
}

pub proof fn lemma_quote_end_bounds(s: Seq<char>, i: int)
    requires
        0 <= i,
    ensures
        quote_end(s, i) matches Some(q) ==> i <= q < s.len() && s[q] == '"',
    decreases s.len() - i,
{
    if 0 <= i < s.len() && s[i] != '"' {
        lemma_quote_end_bounds(s, i + 1);
    }
}

pub proof fn lemma_comment_end_bounds(s: Seq<char>, i: int, depth: nat)
    requires
        0 <= i,
    ensures
        comment_end(s, i, depth) matches Some(k) ==> i + 2 <= k <= s.len(),
    decreases s.len() - i,
{
    if i + 1 < s.len() {
        if s[i] == '/' && s[i + 1] == '*' {
            lemma_comment_end_bounds(s, i + 2, depth + 1);
        } else if s[i] == '*' && s[i + 1] == '/' {
            if depth > 1 {
                lemma_comment_end_bounds(s, i + 2, (depth - 1) as nat);
            }
        } else {
            lemma_comment_end_bounds(s, i + 1, depth);
        }
    }
}

#[via_fn]
proof fn next_item_decreases(s: Seq<char>, i: int) {
    if i >= 0 {
        let j = skip_space(s, i);
        lemma_skip_space_bounds(s, i);
        if j < s.len() {
            if starts_line_comment(s, j) {
                lemma_line_end_bounds(s, j + 2);
            } else if starts_block_comment(s, j) {
                lemma_comment_end_bounds(s, j + 2, 1);
            }
        }
    }
}

/// A token that scanning yields from index `i` on ends after `i`, within the text.
pub proof fn lemma_next_item_progress(s: Seq<char>, i: int)
    requires
        0 <= i <= s.len(),
    ensures
        next_item(s, i) matches Some((Ok(_), k)) ==> i < k <= s.len(),
    decreases s.len() - i,
{
    let j = skip_space(s, i);
    lemma_skip_space_bounds(s, i);
    if j < s.len() {
        if starts_line_comment(s, j) {
            lemma_line_end_bounds(s, j + 2);
            lemma_next_item_progress(s, line_end(s, j + 2));
        } else if starts_block_comment(s, j) {
            lemma_comment_end_bounds(s, j + 2, 1);
            if let Some(k) = comment_end(s, j + 2, 1) {
                lemma_next_item_progress(s, k);
            }
        } else {
            lemma_quote_end_bounds(s, j + 1);
            lemma_atom_end_bounds(s, j);
            if j + 1 < s.len() && two_char_token(s[j], s[j + 1]) is Some {
            } else if one_char_token(s[j]) is Some {
            } else if s[j] == '"' {
            } else {
                assert(!is_space(s[j]));
                assert(atom_end(s, j) == atom_end(s, j + 1));
                lemma_atom_end_bounds(s, j + 1);
            }
        }
    }
}

/// The whole output from index `i` on: every item up to the end of input,
/// or up to and including the first error.
pub open spec fn lex_from(s: Seq<char>, i: int) -> Seq<Result<Lexeme, Fault>>
    decreases s.len() - i,
    via lex_from_decreases
{
    if 0 <= i <= s.len() {
        match next_item(s, i) {
            None => seq![],
            Some((Err(f), _)) => seq![Err(f)],
            Some((Ok(t), k)) => seq![Ok(t)] + lex_from(s, k),
        }
    } else {
        seq![]
    }
}

#[via_fn]
proof fn lex_from_decreases(s: Seq<char>, i: int) {
    if 0 <= i <= s.len() {
        lemma_next_item_progress(s, i);
    }
}

/// The output of scanning the text `s`.
pub open spec fn lexed(s: Seq<char>) -> Seq<Result<Lexeme, Fault>> {
    lex_from(s, 0)
}

} // verus!
