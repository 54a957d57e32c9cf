use vstd::prelude::*;
use crate::classify::{chars_of, classify_atom, letter, space};
use crate::grammar::{
    atom_end, comment_end, lex_from, lexed, line_end, next_item, one_char_token, quote_end,
    skip_space, starts_block_comment, starts_line_comment, token_at, two_char_token,
};
use crate::token::{Fault, LexError, Lexeme, Token, item_view, items_view};

verus! {

fn one_char(c: char) -> (r: Option<Token>)
    ensures
        r == one_char_token(c),
{
    match c {
        '(' => Some(Token::LParen),
        ')' => Some(Token::RParen),
        '{' => Some(Token::LBrace),
        '}' => Some(Token::RBrace),
        ',' => Some(Token::Comma),
        '.' => Some(Token::Dot),
        ';' => Some(Token::Semicolon),
        '-' => Some(Token::Minus),
        '+' => Some(Token::Plus),
        '*' => Some(Token::Star),
        '/' => Some(Token::Slash),
        '=' => Some(Token::Eq),
        '!' => Some(Token::Bang),
        '>' => Some(Token::Gt),
        '<' => Some(Token::Lt),
        '|' => Some(Token::Pipe),
        '&' => Some(Token::Ampersand),
        ':' => Some(Token::Colon),
        _ => None,
    }
}

fn two_char(c: char, d: char) -> (r: Option<Token>)
    ensures
        r == two_char_token(c, d),
{
    match (c, d) {
        ('=', '=') => Some(Token::EqEq),
        ('!', '=') => Some(Token::NEq),
        ('>', '=') => Some(Token::GtEq),
        ('<', '=') => Some(Token::LtEq),
        ('|', '|') => Some(Token::Or),
        ('&', '&') => Some(Token::And),
        (':', ':') => Some(Token::ColonColon),
        _ => None,
    }
}

fn skip_space_from(a: &Vec<char>, i: usize) -> (r: usize)
    requires
        i <= a@.len(),
    ensures
        r == skip_space(a@, i as int),
        i <= r <= a@.len(),
{
    let mut j = i;
    while j < a.len() && space(a[j])
        invariant
            i <= j <= a@.len(),
            skip_space(a@, j as int) == skip_space(a@, i as int),
        decreases a.len() - j,
    {
        j += 1;
    }
    j
}

fn line_end_from(a: &Vec<char>, i: usize) -> (r: usize)
    requires
        i <= a@.len(),
    ensures
        r == line_end(a@, i as int),
        i <= r <= a@.len(),
{
    let mut j = i;
    while j < a.len() && a[j] != '\n'
        invariant
            i <= j <= a@.len(),
            line_end(a@, j as int) == line_end(a@, i as int),
        decreases a.len() - j,
    {
        j += 1;
    }
    j
}

fn atom_end_from(a: &Vec<char>, i: usize) -> (r: usize)
    requires
        i <= a@.len(),
    ensures
        r == atom_end(a@, i as int),
        i <= r <= a@.len(),
{
    let mut j = i;
    while j < a.len() && !space(a[j])
        invariant
            i <= j <= a@.len(),
            atom_end(a@, j as int) == atom_end(a@, i as int),
        decreases a.len() - j,
    {
        j += 1;
    }
    j
}

fn quote_end_from(a: &Vec<char>, i: usize) -> (r: Option<usize>)
    requires
        i <= a@.len(),
    ensures
        match r {
            Some(q) => quote_end(a@, i as int) == Some(q as int) && i <= q < a@.len(),
            None => quote_end(a@, i as int) is None,
        },
{
    let mut j = i;
    while j < a.len()
        invariant
            i <= j <= a@.len(),
            quote_end(a@, j as int) == quote_end(a@, i as int),
        decreases a.len() - j,
    {
        if a[j] == '"' {
            return Some(j);
        }
        j += 1;
    }
    None
}

/// Inside a block comment whose opening `/*` ends just before `i`, the index
/// just after the `*/` that closes it, counting the comments nested in it.
pub fn find_matching_block_comment(a: &Vec<char>, i: usize) -> (r: Option<usize>)
    requires
        i <= a@.len(),
    ensures
        match r {
            Some(k) => comment_end(a@, i as int, 1) == Some(k as int) && i < k <= a@.len(),
            None => comment_end(a@, i as int, 1) is None,
        },
{
    let mut j = i;
    let mut depth: usize = 1;
    while j < a.len() && a.len() - j >= 2
        invariant
            i <= j <= a@.len(),
            1 <= depth <= j + 1,
            comment_end(a@, j as int, depth as nat) == comment_end(a@, i as int, 1),
        decreases a.len() - j,
    {
        if a[j] == '/' && a[j + 1] == '*' {
            depth += 1;
            j += 2;
        } else if a[j] == '*' && a[j + 1] == '/' {
            if depth == 1 {
                return Some(j + 2);
            }
            depth -= 1;
            j += 2;
        } else {
            j += 1;
        }
    }
    None
}

/// A scanner over a borrowed text, handing out one item per pull. Scanning
/// stops for good after the first error.
pub struct Scanner<'a> {
    source: &'a str,
    chars: Vec<char>,
    pos: usize,
    done: bool,
}

impl<'a> Scanner<'a> {
    /// The text being scanned.
    pub closed spec fn text(&self) -> Seq<char> {
        self.chars@
    }

    pub closed spec fn wf(&self) -> bool {
        &&& self.chars@ == self.source@
        &&& self.pos <= self.chars@.len()
    }

    /// The items that the scanner has yet to hand out.
    pub closed spec fn pending(&self) -> Seq<Result<Lexeme, Fault>> {
        if self.done {
            seq![]
        } else {
            lex_from(self.chars@, self.pos as int)
        }
    }

    pub fn new(source: &'a str) -> (r: Scanner<'a>)
        ensures
            r.wf(),
            r.text() == source@,
            r.pending() == lexed(source@),
    {
        Scanner { source, chars: chars_of(source), pos: 0, done: false }
    }

    /// The item that starts at `j`, where no whitespace or comment starts,
    /// and the index just after it.
    fn item_at(&self, j: usize) -> (r: (Result<Token, LexError>, usize))
        requires
            self.wf(),
            j < self.chars@.len(),
        ensures
            item_view(r.0) == token_at(self.chars@, j as int).0,
            r.1 as int == token_at(self.chars@, j as int).1,
    {
        let n = self.chars.len();
        let c = self.chars[j];
        if j + 1 < n {
            if let Some(t) = two_char(c, self.chars[j + 1]) {
                return (Ok(t), j + 2);
            }
        }
        if let Some(t) = one_char(c) {
            return (Ok(t), j + 1);
        }
        if c == '"' {
            match quote_end_from(&self.chars, j + 1) {
                Some(q) => (Ok(Token::Str(self.source.substring_char(j + 1, q).to_owned())), q + 1),
                None => (Err(LexError::UnterminatedString), n),
            }
        } else {
            let e = atom_end_from(&self.chars, j);
            let atom = self.source.substring_char(j, e);
            (classify_atom(atom, letter(c)), e)
        }
    }

    /// Hands out the next item: `None` once the text holds nothing but
    /// whitespace and comments, or after an error.
    pub fn next_token(&mut self) -> (r: Option<Result<Token, LexError>>)
        requires
            old(self).wf(),
        ensures
            final(self).wf(),
            final(self).text() == old(self).text(),
            r is None <==> old(self).pending().len() == 0,
            r is None ==> final(self).pending() == old(self).pending(),
            r matches Some(x) ==> item_view(x) == old(self).pending()[0] && final(self).pending()
                == old(self).pending().drop_first(),
            r matches Some(Err(_)) ==> final(self).pending().len() == 0,
    {
        if self.done {
            return None;
        }
        let n = self.chars.len();
        let ghost s = self.chars@;
        let ghost start = self.pos as int;
        loop
            invariant
                self.wf(),
                !self.done,
                self.chars@ == s,
                n == s.len(),
                start <= self.pos <= n,
                old(self).chars@ == s,
                old(self).pos == start,
                !old(self).done,
                next_item(s, self.pos as int) == next_item(s, start),
            decreases n - self.pos,
        {
            let j = skip_space_from(&self.chars, self.pos);
            if j >= n {
                assert(lex_from(s, self.pos as int) =~= seq![]);
                return None;
            }
            let c = self.chars[j];
            if c == '/' && j + 1 < n && self.chars[j + 1] == '/' {
                assert(starts_line_comment(s, j as int));
                self.pos = line_end_from(&self.chars, j + 2);
                continue;
            }
            if c == '/' && j + 1 < n && self.chars[j + 1] == '*' {
                assert(starts_block_comment(s, j as int));
                match find_matching_block_comment(&self.chars, j + 2) {
                    Some(k) => {
                        self.pos = k;
                        continue;
                    },
                    None => {
                        self.done = true;
                        return Some(Err(LexError::UnterminatedBlockComment));
                    },
                }
            }
            let (item, k) = self.item_at(j);
            if item.is_err() {
                self.done = true;
            } else {
                self.pos = k;
                proof {
                    crate::grammar::lemma_next_item_progress(s, start);
                    let p = lex_from(s, start);
                    assert(p.drop_first() =~= lex_from(s, k as int));
                }
            }
            return Some(item);
        }
    }
}

/// Scans the whole text: every item up to the end of input, or up to and
/// including the first error.
pub fn lex(source: &str) -> (r: Vec<Result<Token, LexError>>)
    ensures
        items_view(r@) == lexed(source@),
{
    let mut sc = Scanner::new(source);
    let mut out: Vec<Result<Token, LexError>> = Vec::new();
    loop
        invariant
            sc.wf(),
            items_view(out@) + sc.pending() == lexed(source@),
        ensures
            items_view(out@) == lexed(source@),
        decreases sc.pending().len(),
    {
        let ghost before = sc.pending();
        match sc.next_token() {
            None => {
                assert(items_view(out@) + sc.pending() =~= items_view(out@));
                break;
            },
            Some(x) => {
                let ghost prev = out@;
                out.push(x);
                assert(items_view(out@) =~= items_view(prev).push(item_view(x)));
                assert(items_view(out@) + sc.pending() =~= items_view(prev) + before);
            },
        }
    }
    out
}

/// Scans one line of input: all of its tokens, or the error that stopped
/// scanning.
pub fn run(line: &str) -> (r: Result<Vec<Token>, LexError>)
    ensures
        match r {
            Ok(ts) => ts@.len() == lexed(line@).len() && forall|k: int|
                0 <= k < ts@.len() ==> lexed(line@)[k] == Ok::<Lexeme, Fault>(#[trigger] ts@[k]@),
            Err(e) => lexed(line@).len() > 0 && lexed(line@).last() == Err::<Lexeme, Fault>(e@),
        },
{
    let mut sc = Scanner::new(line);
    let mut ts: Vec<Token> = Vec::new();
    loop
        invariant
            sc.wf(),
            ts@.map_values(|t: Token| Ok::<Lexeme, Fault>(t@)) + sc.pending() == lexed(line@),
        decreases sc.pending().len(),
    {
        let ghost before = sc.pending();
        let ghost prev = ts@.map_values(|t: Token| Ok::<Lexeme, Fault>(t@));
        match sc.next_token() {
            None => {
                assert(prev + sc.pending() =~= prev);
                return Ok(ts);
            },
            Some(Ok(t)) => {
                ts.push(t);
                assert(ts@.map_values(|t: Token| Ok::<Lexeme, Fault>(t@)) =~= prev.push(
                    Ok::<Lexeme, Fault>(t@),
                ));
                assert(ts@.map_values(|t: Token| Ok::<Lexeme, Fault>(t@)) + sc.pending() =~= prev
                    + before);
            },
            Some(Err(e)) => {
                assert(before =~= seq![Err::<Lexeme, Fault>(e@)]);
                assert((prev + before).last() == Err::<Lexeme, Fault>(e@));
                return Err(e);
            },
        }
    }
}

} // verus!
