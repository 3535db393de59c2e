//! The tokens of a directive's argument list.

use crate::schema::{identifier_char, is_identifier_char};
use crate::syntax::{literal_text, literal_value};
use crate::text::{chars_of, is_whitespace, text_between, whitespace};
use vstd::prelude::*;

verus! {

/// One token of a directive's argument list.
#[derive(Debug, PartialEq, Eq)]
pub enum Token {
    /// A run of identifier characters.
    Word(String),
    /// A string literal; the token holds the text that the literal stands for.
    Literal(String),
    /// `=`
    Equals,
    /// `,`
    Comma,
    /// `[`
    Open,
    /// `]`
    Close,
}

/// The mathematical content of a [`Token`].
pub enum TokenView {
    Word(Seq<char>),
    Literal(Seq<char>),
    Equals,
    Comma,
    Open,
    Close,
}

impl View for Token {
    type V = TokenView;

    open spec fn view(&self) -> TokenView {
        match self {
            Token::Word(s) => TokenView::Word(s@),
            Token::Literal(s) => TokenView::Literal(s@),
            Token::Equals => TokenView::Equals,
            Token::Comma => TokenView::Comma,
            Token::Open => TokenView::Open,
            Token::Close => TokenView::Close,
        }
    }
}

/// The views of a list of tokens, in order.
pub open spec fn token_views(tokens: Seq<Token>) -> Seq<TokenView> {
    tokens.map_values(|t: Token| t@)
}

/// The end of the run of identifier characters that begins at `at`.
pub open spec fn word_end(s: Seq<char>, at: int) -> int
    decreases s.len() - at,
{
    if 0 <= at < s.len() && is_identifier_char(s[at]) {
        word_end(s, at + 1)
    } else {
        at
    }
}

/// The position of the double quote that closes the string literal whose
/// content begins at `at`: the first double quote that no backslash
/// escapes. `None` where the literal is not closed.
pub open spec fn literal_close(s: Seq<char>, at: int) -> Option<int>
    decreases s.len() - at,
{
    if at < 0 || at >= s.len() {
        None
    } else if s[at] == '"' {
        Some(at)
    } else if s[at] == '\\' {
        if at + 1 < s.len() {
            literal_close(s, at + 2)
        } else {
            None
        }
    } else {
        literal_close(s, at + 1)
    }
}

/// The token that begins at `at`, where `s[at]` is not whitespace, and the
/// position behind it. `None` where no token begins there.
pub open spec fn token_at(s: Seq<char>, at: int) -> Option<(TokenView, int)> {
    let c = s[at];
    if c == '=' {
        Some((TokenView::Equals, at + 1))
    } else if c == ',' {
        Some((TokenView::Comma, at + 1))
    } else if c == '[' {
        Some((TokenView::Open, at + 1))
    } else if c == ']' {
        Some((TokenView::Close, at + 1))
    } else if c == '"' {
        match literal_close(s, at + 1) {
            Some(close) => match literal_value(s.subrange(at, close + 1)) {
                Some(value) => Some((TokenView::Literal(value), close + 1)),
                None => None,
            },
            None => None,
        }
    } else if is_identifier_char(c) {
        Some((TokenView::Word(s.subrange(at, word_end(s, at))), word_end(s, at)))
    } else {
        None
    }
}

/// The tokens of `s` from position `at` on, with the whitespace between them
/// dropped. `None` where some character begins no token.
pub open spec fn scan_from(s: Seq<char>, at: int) -> Option<Seq<TokenView>>
    decreases s.len() - at,
{
    if at < 0 || at >= s.len() {
        Some(Seq::empty())
    } else if is_whitespace(s[at]) {
        scan_from(s, at + 1)
    } else {
        match token_at(s, at) {
            Some((token, next)) => if at < next <= s.len() {
                match scan_from(s, next) {
                    Some(rest) => Some(seq![token] + rest),
                    None => None,
                }
            } else {
                None
            },
            None => None,
        }
    }
}

/// The tokens of a text.
pub open spec fn scanned(s: Seq<char>) -> Option<Seq<TokenView>> {
    scan_from(s, 0)
}

/// A run of identifier characters ends inside the text and not before its
/// start.
pub proof fn lemma_word_end(s: Seq<char>, at: int)
    requires
        0 <= at <= s.len(),
    ensures
        at <= word_end(s, at) <= s.len(),
        0 <= at < s.len() && is_identifier_char(s[at]) ==> at < word_end(s, at),
    decreases s.len() - at,
{
    if at < s.len() && is_identifier_char(s[at]) {
        lemma_word_end(s, at + 1);
    }
}

fn find_word_end(v: &Vec<char>, at: usize) -> (end: usize)
    requires
        at <= v.len(),
    ensures
        end == word_end(v@, at as int),
        at <= end <= v.len(),
{
    let mut end: usize = at;
    while end < v.len() && identifier_char(v[end])
        invariant
            at <= end <= v.len(),
            word_end(v@, at as int) == word_end(v@, end as int),
        decreases v.len() - end,
    {
        end = end + 1;
    }
    end
}

fn find_literal_close(v: &Vec<char>, at: usize) -> (r: Option<usize>)
    requires
        at <= v.len(),
    ensures
        match r {
            Some(close) => literal_close(v@, at as int) == Some(close as int) && at <= close
                < v.len(),
            None => literal_close(v@, at as int) is None,
        },
{
    let mut j: usize = at;
    while j < v.len()
        invariant
            at <= j,
            literal_close(v@, at as int) == literal_close(v@, j as int),
        decreases v.len() - j,
    {
        if v[j] == '"' {
            return Some(j);
        } else if v[j] == '\\' {
            if j + 1 >= v.len() {
                return None;
            }
            j = j + 2;
        } else {
            j = j + 1;
        }
    }
    None
}

/// Splits the argument list of a directive into tokens. `None` where some
/// character begins no token, a string literal is not closed, or `syn` does
/// not accept a string literal. A string literal begins with a double quote:
/// the raw form `r"..."` is not read as one.
pub fn tokenize(text: &str) -> (r: Option<Vec<Token>>)
    ensures
        match r {
            Some(tokens) => scanned(text@) == Some(token_views(tokens@)),
            None => scanned(text@) is None,
        },
{
    let v = chars_of(text);
    let mut tokens: Vec<Token> = Vec::new();
    let mut at: usize = 0;
    while at < v.len()
        invariant
            v@ == text@,
            at <= v.len(),
            scanned(v@) == match scan_from(v@, at as int) {
                Some(rest) => Some(token_views(tokens@) + rest),
                None => None,
            },
        decreases v.len() - at,
    {
        let c = v[at];
        let ghost done = token_views(tokens@);
        if whitespace(c) {
            at = at + 1;
        } else {
            let next: usize;
            let token: Token;
            if c == '=' {
                token = Token::Equals;
                next = at + 1;
            } else if c == ',' {
                token = Token::Comma;
                next = at + 1;
            } else if c == '[' {
                token = Token::Open;
                next = at + 1;
            } else if c == ']' {
                token = Token::Close;
                next = at + 1;
            } else if c == '"' {
                match find_literal_close(&v, at + 1) {
                    Some(close) => {
                        let source = text_between(&v, at, close + 1);
                        match literal_text(source.as_str()) {
                            Some(value) => {
                                token = Token::Literal(value);
                                next = close + 1;
                            },
                            None => {
                                return None;
                            },
                        }
                    },
                    None => {
                        return None;
                    },
                }
            } else if identifier_char(c) {
                let end = find_word_end(&v, at);
                proof {
                    lemma_word_end(v@, at as int);
                }
                token = Token::Word(text_between(&v, at, end));
                next = end;
            } else {
                return None;
            }
            assert(token_at(v@, at as int) == Some((token@, next as int)));
            tokens.push(token);
            proof {
                assert(token_views(tokens@) =~= done.push(token@));
                match scan_from(v@, next as int) {
                    Some(rest) => {
                        assert(done + (seq![token@] + rest) =~= done.push(token@) + rest);
                    },
                    None => {},
                }
            }
            at = next;
        }
    }
    assert(token_views(tokens@) + Seq::<TokenView>::empty() =~= token_views(tokens@));
    Some(tokens)
}

} // verus!
