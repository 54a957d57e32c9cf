use vstd::prelude::*;
use crate::classify::{alphabetic, classify, is_digit, is_space, keyword};
use crate::grammar::{
    comment_end, lex_from, lexed, line_end, next_item, one_char_token, quote_end, skip_space,
    two_char_token,
};
use crate::token::{Fault, LexError, Lexeme, Token, items_view};

verus! {

/// A one-character operator or punctuation mark, alone, lexes to exactly
/// its token.
pub proof fn single_symbol_lexes_alone(c: char)
    requires
        one_char_token(c) is Some,
    ensures
        lexed(seq![c]) == seq![Ok::<Lexeme, Fault>(Lexeme::Sym(one_char_token(c)->0))],
{
    let s = seq![c];
    assert(skip_space(s, 0) == 0);
    assert(next_item(s, 0) == Some((Ok::<Lexeme, Fault>(Lexeme::Sym(one_char_token(c)->0)), 1int)));
    assert(skip_space(s, 1) == 1);
    assert(next_item(s, 1) is None);
    assert(lex_from(s, 1) =~= seq![]);
    assert(lexed(s) =~= seq![Ok::<Lexeme, Fault>(Lexeme::Sym(one_char_token(c)->0))]);
}

/// A two-character operator or punctuation mark, alone, lexes to exactly
/// its one token, not to two.
pub proof fn pair_symbol_lexes_alone(c: char, d: char)
    requires
        two_char_token(c, d) is Some,
    ensures
        lexed(seq![c, d]) == seq![Ok::<Lexeme, Fault>(Lexeme::Sym(two_char_token(c, d)->0))],
{
    let s = seq![c, d];
    assert(skip_space(s, 0) == 0);
    assert(next_item(s, 0) == Some(
        (Ok::<Lexeme, Fault>(Lexeme::Sym(two_char_token(c, d)->0)), 2int),
    ));
    assert(skip_space(s, 2) == 2);
    assert(next_item(s, 2) is None);
    assert(lex_from(s, 2) =~= seq![]);
    assert(lexed(s) =~= seq![Ok::<Lexeme, Fault>(Lexeme::Sym(two_char_token(c, d)->0))]);
}

proof fn lemma_skip_space_run(s: Seq<char>, i: int, k: int)
    requires
        0 <= i <= k <= s.len(),
        forall|m: int| i <= m < k ==> is_space(#[trigger] s[m]),
    ensures
        skip_space(s, i) == skip_space(s, k),
    decreases k - i,
{
    if i < k {
        lemma_skip_space_run(s, i + 1, k);
    }
}

/// Whitespace is transparent: scanning from the start of a run of
/// whitespace gives what scanning from its end gives.
pub proof fn space_run_is_transparent(s: Seq<char>, i: int, k: int)
    requires
        0 <= i <= k <= s.len(),
        forall|m: int| i <= m < k ==> is_space(#[trigger] s[m]),
    ensures
        lex_from(s, i) == lex_from(s, k),
{
    lemma_skip_space_run(s, i, k);
    assert(next_item(s, i) == next_item(s, k));
}

proof fn lemma_line_end_run(s: Seq<char>, i: int, k: int)
    requires
        0 <= i <= k <= s.len(),
        forall|m: int| i <= m < k ==> #[trigger] s[m] != '\n',
        k == s.len() || s[k] == '\n',
    ensures
        line_end(s, i) == k,
    decreases k - i,
{
    if i < k {
        lemma_line_end_run(s, i + 1, k);
    }
}

/// A line comment is transparent: scanning from its `//` gives what
/// scanning from the end of its line gives.
pub proof fn line_comment_is_transparent(s: Seq<char>, i: int, k: int)
    requires
        0 <= i,
        i + 2 <= k <= s.len(),
        s[i] == '/',
        s[i + 1] == '/',
        forall|m: int| i + 2 <= m < k ==> #[trigger] s[m] != '\n',
        k == s.len() || s[k] == '\n',
    ensures
        lex_from(s, i) == lex_from(s, k),
{
    lemma_line_end_run(s, i + 2, k);
    assert(skip_space(s, i) == i);
    assert(next_item(s, i) == next_item(s, k));
}

/// A block comment, with the comments nested in it, is transparent:
/// scanning from its `/*` gives what scanning from just after the `*/` that
/// closes it gives.
pub proof fn block_comment_is_transparent(s: Seq<char>, i: int, k: int)
    requires
        0 <= i,
        i + 1 < s.len(),
        s[i] == '/',
        s[i + 1] == '*',
        comment_end(s, i + 2, 1) == Some(k),
    ensures
        lex_from(s, i) == lex_from(s, k),
{
    crate::grammar::lemma_comment_end_bounds(s, i + 2, 1);
    assert(skip_space(s, i) == i);
    assert(next_item(s, i) == next_item(s, k));
}

/// A block comment that is never closed ends the output with an error.
pub proof fn unclosed_block_comment_fails(s: Seq<char>, i: int)
    requires
        0 <= i,
        i + 1 < s.len(),
        s[i] == '/',
        s[i + 1] == '*',
        comment_end(s, i + 2, 1) is None,
    ensures
        lex_from(s, i) == seq![Err::<Lexeme, Fault>(Fault::UnterminatedBlockComment)],
{
    assert(skip_space(s, i) == i);
    assert(lex_from(s, i) =~= seq![Err::<Lexeme, Fault>(Fault::UnterminatedBlockComment)]);
}

proof fn lemma_quote_end_run(s: Seq<char>, i: int, k: int)
    requires
        0 <= i <= k <= s.len(),
        forall|m: int| i <= m < k ==> #[trigger] s[m] != '"',
    ensures
        quote_end(s, i) == quote_end(s, k),
    decreases k - i,
{
    if i < k {
        lemma_quote_end_run(s, i + 1, k);
    }
}

/// A text without quotes, between two quotes, lexes to a string token that
/// holds exactly that text, the empty text included.
pub proof fn quoted_text_lexes_to_itself(body: Seq<char>)
    requires
        !body.contains('"'),
    ensures
        lexed(seq!['"'] + body + seq!['"']) == seq![Ok::<Lexeme, Fault>(Lexeme::Str(body))],
{
    let s = seq!['"'] + body + seq!['"'];
    let n = body.len() + 1int;
    assert forall|m: int| 1 <= m < n implies #[trigger] s[m] != '"' by {
        assert(s[m] == body[m - 1]);
    }
    lemma_quote_end_run(s, 1, n);
    assert(quote_end(s, n) == Some(n));
    assert(skip_space(s, 0) == 0);
    assert(s.subrange(1, n) =~= body);
    assert(next_item(s, 0) == Some((Ok::<Lexeme, Fault>(Lexeme::Str(body)), n + 1)));
    assert(skip_space(s, n + 1) == n + 1);
    assert(lex_from(s, n + 1) =~= seq![]);
    assert(lexed(s) =~= seq![Ok::<Lexeme, Fault>(Lexeme::Str(body))]);
}

/// A quote that is never closed ends the output with an error.
pub proof fn unclosed_quote_fails(body: Seq<char>)
    requires
        !body.contains('"'),
    ensures
        lexed(seq!['"'] + body) == seq![Err::<Lexeme, Fault>(Fault::UnterminatedString)],
{
    let s = seq!['"'] + body;
    let n = body.len() + 1int;
    assert forall|m: int| 1 <= m < n implies #[trigger] s[m] != '"' by {
        assert(s[m] == body[m - 1]);
    }
    lemma_quote_end_run(s, 1, n);
    assert(skip_space(s, 0) == 0);
    assert(lexed(s) =~= seq![Err::<Lexeme, Fault>(Fault::UnterminatedString)]);
}

proof fn lemma_atom_end_whole(a: Seq<char>, i: int)
    requires
        0 <= i <= a.len(),
        forall|m: int| 0 <= m < a.len() ==> !is_space(#[trigger] a[m]),
    ensures
        crate::grammar::atom_end(a, i) == a.len(),
    decreases a.len() - i,
{
    if i < a.len() {
        lemma_atom_end_whole(a, i + 1);
    }
}

/// A run of non-whitespace characters that starts with no operator,
/// punctuation mark or quote lexes to one item, its class: a keyword
/// token, a number, an identifier with exactly its text, or an error.
pub proof fn atom_lexes_to_its_class(a: Seq<char>)
    requires
        a.len() > 0,
        forall|m: int| 0 <= m < a.len() ==> !is_space(#[trigger] a[m]),
        one_char_token(a[0]) is None,
        a[0] != '"',
    ensures
        lexed(a) == seq![classify(a, alphabetic(a[0]))],
        keyword(a) matches Some(t) ==> lexed(a) == seq![Ok::<Lexeme, Fault>(Lexeme::Sym(t))],
        keyword(a) is None && !is_digit(a[0]) && alphabetic(a[0]) ==> lexed(a) == seq![
            Ok::<Lexeme, Fault>(Lexeme::Iden(a)),
        ],
{
    lemma_atom_end_whole(a, 0);
    assert(skip_space(a, 0) == 0);
    assert(a.subrange(0, a.len() as int) =~= a);
    assert(a.len() > 1 ==> two_char_token(a[0], a[1]) is None);
    assert(next_item(a, 0) == Some((classify(a, alphabetic(a[0])), a.len() as int)));
    assert(skip_space(a, a.len() as int) == a.len());
    assert(lex_from(a, a.len() as int) =~= seq![]);
    assert(lexed(a) =~= seq![classify(a, alphabetic(a[0]))]);
}

/// Each keyword, alone, lexes to its keyword token.
pub proof fn keyword_lexes_to_itself(a: Seq<char>)
    requires
        keyword(a) is Some,
    ensures
        lexed(a) == seq![Ok::<Lexeme, Fault>(Lexeme::Sym(keyword(a)->0))],
{
    reveal_strlit("if");
    reveal_strlit("else");
    reveal_strlit("true");
    reveal_strlit("false");
    reveal_strlit("fn");
    reveal_strlit("for");
    reveal_strlit("in");
    reveal_strlit("null");
    reveal_strlit("print");
    reveal_strlit("return");
    reveal_strlit("let");
    reveal_strlit("loop");
    assert(forall|m: int| 0 <= m < a.len() ==> 'a' <= #[trigger] a[m] <= 'z');
    atom_lexes_to_its_class(a);
}

/// Scanning stops at the first error: every item of the output but the
/// last is a token.
pub proof fn only_the_last_item_can_fail(s: Seq<char>, i: int)
    requires
        0 <= i <= s.len(),
    ensures
        forall|k: int| 0 <= k < lex_from(s, i).len() - 1 ==> #[trigger] lex_from(s, i)[k] is Ok,
    decreases s.len() - i,
{
    crate::grammar::lemma_next_item_progress(s, i);
    if let Some((Ok(t), k)) = next_item(s, i) {
        only_the_last_item_can_fail(s, k);
        let rest = lex_from(s, k);
        assert forall|m: int| 0 <= m < lex_from(s, i).len() - 1 implies #[trigger] lex_from(
            s,
            i,
        )[m] is Ok by {
            if m > 0 {
                assert(lex_from(s, i)[m] == rest[m - 1]);
            }
        }
    }
}

/// Lexing is a function of the text: two outputs produced for the same text
/// agree item by item.
pub proof fn relexing_agrees(
    s: Seq<char>,
    first: Seq<Result<Token, LexError>>,
    second: Seq<Result<Token, LexError>>,
)
    requires
        items_view(first) == lexed(s),
        items_view(second) == lexed(s),
    ensures
        first.len() == second.len(),
        items_view(first) == items_view(second),
{
    assert(first.len() == items_view(first).len());
    assert(second.len() == items_view(second).len());
}

} // verus!
