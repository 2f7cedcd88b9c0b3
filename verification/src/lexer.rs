//! The tokenizer: source text to a sequence of lexical tokens.
//!
//! Outside a string literal each of the eight symbol characters produces one
//! token and every other character is silently skipped. A double quote opens
//! a string literal; inside it a backslash makes the next character literal,
//! and an unescaped double quote closes it. The literal's token carries the
//! raw text between the quotes, escape sequences untouched.

use vstd::prelude::*;
use vstd::string::StrSliceExecFns;
use crate::errors::LexError;
use crate::text::{seq_rem, str_to_chars};

verus! {

/// The kind of a token, without any carried text; used when an error names a
/// token.
#[derive(Clone, Copy, Debug, PartialEq, Eq, Structural)]
pub enum TokenKind {
    Input,
    Str,
    Dollar,
    Plus,
    Colon,
    OpenParen,
    CloseParen,
    OpenBracket,
    CloseBracket,
}

/// The mathematical model of a token: a string literal's text is a sequence
/// of characters.
pub enum SpecToken {
    Input,
    Str(Seq<char>),
    Dollar,
    Plus,
    Colon,
    OpenParen,
    CloseParen,
    OpenBracket,
    CloseBracket,
}

/// A lexical token. A string-literal token owns the raw (still escaped) text
/// between its quotes.
#[derive(Debug, PartialEq, Eq)]
pub enum Token {
    Input,
    Str(String),
    Dollar,
    Plus,
    Colon,
    OpenParen,
    CloseParen,
    OpenBracket,
    CloseBracket,
}

impl View for Token {
    type V = SpecToken;

    open spec fn view(&self) -> SpecToken {
        match self {
            Token::Input => SpecToken::Input,
            Token::Str(s) => SpecToken::Str(s@),
            Token::Dollar => SpecToken::Dollar,
            Token::Plus => SpecToken::Plus,
            Token::Colon => SpecToken::Colon,
            Token::OpenParen => SpecToken::OpenParen,
            Token::CloseParen => SpecToken::CloseParen,
            Token::OpenBracket => SpecToken::OpenBracket,
            Token::CloseBracket => SpecToken::CloseBracket,
        }
    }
}

impl DeepView for Token {
    type V = SpecToken;

    open spec fn deep_view(&self) -> SpecToken {
        self.view()
    }
}

impl SpecToken {
    /// The kind of this token.
    pub open spec fn kind(self) -> TokenKind {
        match self {
            SpecToken::Input => TokenKind::Input,
            SpecToken::Str(_) => TokenKind::Str,
            SpecToken::Dollar => TokenKind::Dollar,
            SpecToken::Plus => TokenKind::Plus,
            SpecToken::Colon => TokenKind::Colon,
            SpecToken::OpenParen => TokenKind::OpenParen,
            SpecToken::CloseParen => TokenKind::CloseParen,
            SpecToken::OpenBracket => TokenKind::OpenBracket,
            SpecToken::CloseBracket => TokenKind::CloseBracket,
        }
    }
}

impl TokenKind {
    /// The human-readable description of this kind of token.
    pub open spec fn spec_describe(self) -> Seq<char> {
        match self {
            TokenKind::Input => "_"@,
            TokenKind::Str => "string"@,
            TokenKind::Dollar => "$"@,
            TokenKind::Plus => "+"@,
            TokenKind::Colon => ":"@,
            TokenKind::OpenParen => "`(`"@,
            TokenKind::CloseParen => "`)`"@,
            TokenKind::OpenBracket => "`[`"@,
            TokenKind::CloseBracket => "`]`"@,
        }
    }

    /// The human-readable description of this kind of token.
    pub fn describe(&self) -> (r: &'static str)
        ensures
            r@ == self.spec_describe(),
    {
        match self {
            TokenKind::Input => "_",
            TokenKind::Str => "string",
            TokenKind::Dollar => "$",
            TokenKind::Plus => "+",
            TokenKind::Colon => ":",
            TokenKind::OpenParen => "`(`",
            TokenKind::CloseParen => "`)`",
            TokenKind::OpenBracket => "`[`",
            TokenKind::CloseBracket => "`]`",
        }
    }
}

impl Token {
    /// The kind of this token.
    pub fn kind(&self) -> (k: TokenKind)
        ensures
            k == self@.kind(),
    {
        match self {
            Token::Input => TokenKind::Input,
            Token::Str(_) => TokenKind::Str,
            Token::Dollar => TokenKind::Dollar,
            Token::Plus => TokenKind::Plus,
            Token::Colon => TokenKind::Colon,
            Token::OpenParen => TokenKind::OpenParen,
            Token::CloseParen => TokenKind::CloseParen,
            Token::OpenBracket => TokenKind::OpenBracket,
            Token::CloseBracket => TokenKind::CloseBracket,
        }
    }

    /// The human-readable description of this token.
    pub fn describe(&self) -> (r: &'static str)
        ensures
            r@ == self@.kind().spec_describe(),
    {
        self.kind().describe()
    }
}

/// The token, if any, produced by the symbol character `c` outside a string
/// literal.
pub open spec fn symbol_token(c: char) -> Option<SpecToken> {
    if c == '_' {
        Some(SpecToken::Input)
    } else if c == '$' {
        Some(SpecToken::Dollar)
    } else if c == '+' {
        Some(SpecToken::Plus)
    } else if c == ':' {
        Some(SpecToken::Colon)
    } else if c == '(' {
        Some(SpecToken::OpenParen)
    } else if c == ')' {
        Some(SpecToken::CloseParen)
    } else if c == '[' {
        Some(SpecToken::OpenBracket)
    } else if c == ']' {
        Some(SpecToken::CloseBracket)
    } else {
        None
    }
}

/// Scanning a string literal's body from position `i`: the number of
/// characters up to (not including) the closing quote, or `None` when the
/// text ends first. A backslash makes the following character literal, so
/// neither it nor the character after it can close the literal.
pub open spec fn lit_len(s: Seq<char>, i: nat) -> Option<nat>
    decreases seq_rem(s.len(), i),
{
    if i >= s.len() {
        None
    } else if s[i as int] == '\\' {
        if i + 1 >= s.len() {
            None
        } else {
            match lit_len(s, (i + 2) as nat) {
                Some(k) => Some((k + 2) as nat),
                None => None,
            }
        }
    } else if s[i as int] == '"' {
        Some(0)
    } else {
        match lit_len(s, (i + 1) as nat) {
            Some(k) => Some((k + 1) as nat),
            None => None,
        }
    }
}

/// The tokens of the source text from position `i` on, or the failure the
/// scan runs into.
pub open spec fn spec_lex_at(s: Seq<char>, i: nat) -> Result<Seq<SpecToken>, LexError>
    decreases seq_rem(s.len(), i),
{
    if i >= s.len() {
        Ok(Seq::empty())
    } else if s[i as int] == '"' {
        match lit_len(s, (i + 1) as nat) {
            None => Err(LexError::UnterminatedString),
            Some(k) => match spec_lex_at(s, (i + k + 2) as nat) {
                Ok(ts) => Ok(
                    seq![SpecToken::Str(s.subrange(i as int + 1, i as int + 1 + k as int))] + ts,
                ),
                Err(e) => Err(e),
            },
        }
    } else {
        match symbol_token(s[i as int]) {
            Some(t) => match spec_lex_at(s, (i + 1) as nat) {
                Ok(ts) => Ok(seq![t] + ts),
                Err(e) => Err(e),
            },
            None => spec_lex_at(s, (i + 1) as nat),
        }
    }
}

/// The tokens of the whole source text, or the failure the scan runs into.
pub open spec fn spec_lex(s: Seq<char>) -> Result<Seq<SpecToken>, LexError> {
    spec_lex_at(s, 0)
}

/// Scans the body of a string literal whose opening quote stands just before
/// `start`, returning the position of the closing quote.
fn scan_literal(chars: &Vec<char>, start: usize) -> (r: Result<usize, LexError>)
    requires
        start <= chars@.len(),
    ensures
        match r {
            Ok(close) => {
                &&& lit_len(chars@, start as nat) == Some((close - start) as nat)
                &&& start <= close < chars@.len()
            },
            Err(e) => lit_len(chars@, start as nat) is None && e == LexError::UnterminatedString,
        },
{
    let mut j = start;
    while j < chars.len()
        invariant
            start <= j <= chars@.len(),
            (match lit_len(chars@, j as nat) {
                Some(k) => lit_len(chars@, start as nat) == Some((j - start + k) as nat),
                None => lit_len(chars@, start as nat) is None,
            }),
        decreases chars@.len() - j,
    {
        let c = chars[j];
        if c == '\\' {
            if j + 1 >= chars.len() {
                return Err(LexError::UnterminatedString);
            }
            j = j + 2;
        } else if c == '"' {
            return Ok(j);
        } else {
            j = j + 1;
        }
    }
    Err(LexError::UnterminatedString)
}

/// Converts source text into its token sequence, validating string-literal
/// termination; the exact result is `spec_lex` of the text.
pub fn lex(src: &str) -> (r: Result<Vec<Token>, LexError>)
    ensures
        match r {
            Ok(ts) => spec_lex(src@) == Ok::<Seq<SpecToken>, LexError>(ts.deep_view()),
            Err(e) => spec_lex(src@) == Err::<Seq<SpecToken>, LexError>(e),
        },
{
    let chars = str_to_chars(src);
    let mut toks: Vec<Token> = Vec::new();
    let mut i: usize = 0;
    while i < chars.len()
        invariant
            chars@ == src@,
            i <= chars@.len(),
            (match spec_lex_at(src@, i as nat) {
                Ok(rest) => spec_lex(src@) == Ok::<Seq<SpecToken>, LexError>(
                    toks.deep_view() + rest,
                ),
                Err(e) => spec_lex(src@) == Err::<Seq<SpecToken>, LexError>(e),
            }),
        decreases chars@.len() - i,
    {
        let ghost i0 = i as nat;
        let ghost toks0 = toks.deep_view();
        let c = chars[i];
        if c == '"' {
            match scan_literal(&chars, i + 1) {
                Err(e) => {
                    return Err(e);
                },
                Ok(close) => {
                    let content = src.substring_char(i + 1, close).to_owned();
                    toks.push(Token::Str(content));
                    i = close + 1;
                    proof {
                        let tv = SpecToken::Str(content@);
                        assert(toks.deep_view() =~= toks0.push(tv));
                        assert(content@ =~= src@.subrange(i0 as int + 1, close as int));
                        match spec_lex_at(src@, i as nat) {
                            Ok(rest2) => {
                                assert(toks0 + (seq![tv] + rest2) =~= toks0.push(tv) + rest2);
                            },
                            Err(_) => {},
                        }
                    }
                },
            }
        } else {
            let t_opt: Option<Token> = if c == '_' {
                Some(Token::Input)
            } else if c == '$' {
                Some(Token::Dollar)
            } else if c == '+' {
                Some(Token::Plus)
            } else if c == ':' {
                Some(Token::Colon)
            } else if c == '(' {
                Some(Token::OpenParen)
            } else if c == ')' {
                Some(Token::CloseParen)
            } else if c == '[' {
                Some(Token::OpenBracket)
            } else if c == ']' {
                Some(Token::CloseBracket)
            } else {
                None
            };
            match t_opt {
                Some(t) => {
                    let ghost tv = t.deep_view();
                    toks.push(t);
                    i = i + 1;
                    proof {
                        assert(toks.deep_view() =~= toks0.push(tv));
                        match spec_lex_at(src@, i as nat) {
                            Ok(rest2) => {
                                assert(toks0 + (seq![tv] + rest2) =~= toks0.push(tv) + rest2);
                            },
                            Err(_) => {},
                        }
                    }
                },
                None => {
                    i = i + 1;
                },
            }
        }
    }
    Ok(toks)
}

} // verus!
