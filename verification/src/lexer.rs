use vstd::prelude::*;

use crate::token::Token;
use vstd::string::StrSliceExecFns;

verus! {

/// Whether `u` is the code of an ASCII letter or an underscore: the
/// characters that may make up an identifier or keyword.
pub open spec fn is_word_code(u: u32) -> bool {
    (97 <= u && u <= 122) || (65 <= u && u <= 90) || u == 95
}

/// Whether `u` is the code of an ASCII decimal digit.
pub open spec fn is_digit_code(u: u32) -> bool {
    48 <= u && u <= 57
}

/// The token source: scans the whole input eagerly and then serves the
/// tokens one at a time. Serving never fails: once the scanned tokens are
/// exhausted, every further request returns the end-of-input sentinel.
///
/// Tokenization itself is an external collaborator of the parser: the
/// parser's contracts are stated relative to whatever token stream the
/// source serves, so this type promises only how it serves that stream,
/// not how the text was cut into tokens.
pub struct Lexer {
    tokens: Vec<Token>,
    pos: usize,
}

impl Lexer {
    /// All tokens the scan produced, served and unserved alike.
    pub closed spec fn stream(self) -> Seq<Token> {
        self.tokens@
    }

    /// How many tokens have been served so far.
    pub closed spec fn served(self) -> int {
        self.pos as int
    }

    pub open spec fn wf(self) -> bool {
        0 <= self.served() <= self.stream().len()
    }

    /// The tokens not yet served.
    pub open spec fn remaining(self) -> Seq<Token> {
        self.stream().skip(self.served())
    }

    /// Scans `input` into a token stream. The sentinel is never part of the
    /// stream: it is what `next_token` returns once the stream is exhausted.
    pub fn new(input: &str) -> (l: Lexer)
        ensures
            l.wf(),
            l.served() == 0,
            forall|j: int| 0 <= j < l.stream().len() ==> !(#[trigger] l.stream()[j] is Eof),
    {
        let n = input.unicode_len();
        let mut tokens: Vec<Token> = Vec::new();
        let mut i: usize = 0;
        while i < n
            invariant
                n == input@.len(),
                i <= n,
                forall|j: int| 0 <= j < tokens@.len() ==> !(#[trigger] tokens@[j] is Eof),
            decreases n - i,
        {
            let u = input.get_char(i) as u32;
            if u == 32 || u == 9 || u == 10 || u == 13 {
                i = i + 1;
            } else if (97 <= u && u <= 122) || (65 <= u && u <= 90) || u == 95 {
                let mut j: usize = i + 1;
                while j < n && word_code_at(input, j)
                    invariant
                        n == input@.len(),
                        i < j <= n,
                    decreases n - j,
                {
                    j = j + 1;
                }
                let word = input.substring_char(i, j);
                tokens.push(word_token(word));
                i = j;
            } else if 48 <= u && u <= 57 {
                let mut j: usize = i + 1;
                while j < n && digit_code_at(input, j)
                    invariant
                        n == input@.len(),
                        i < j <= n,
                    decreases n - j,
                {
                    j = j + 1;
                }
                let digits = input.substring_char(i, j);
                tokens.push(Token::Int(digits.to_owned()));
                i = j;
            } else if u == 34 {
                let mut j: usize = i + 1;
                while j < n && input.get_char(j) as u32 != 34
                    invariant
                        n == input@.len(),
                        i < j <= n,
                    decreases n - j,
                {
                    j = j + 1;
                }
                let text = input.substring_char(i + 1, j);
                tokens.push(Token::Str(text.to_owned()));
                i = if j < n {
                    j + 1
                } else {
                    j
                };
            } else if u == 61 {
                if i + 1 < n && input.get_char(i + 1) as u32 == 61 {
                    tokens.push(Token::Equals);
                    i = i + 2;
                } else {
                    tokens.push(Token::Assign);
                    i = i + 1;
                }
            } else if u == 33 {
                if i + 1 < n && input.get_char(i + 1) as u32 == 61 {
                    tokens.push(Token::NotEquals);
                    i = i + 2;
                } else {
                    tokens.push(Token::Bang);
                    i = i + 1;
                }
            } else {
                let t = if u == 43 {
                    Token::Plus
                } else if u == 45 {
                    Token::Minus
                } else if u == 42 {
                    Token::Asterisk
                } else if u == 47 {
                    Token::Slash
                } else if u == 60 {
                    Token::Lt
                } else if u == 62 {
                    Token::Gt
                } else if u == 44 {
                    Token::Comma
                } else if u == 59 {
                    Token::Semicolon
                } else if u == 58 {
                    Token::Colon
                } else if u == 40 {
                    Token::Lparen
                } else if u == 41 {
                    Token::Rparen
                } else if u == 123 {
                    Token::Lbrace
                } else if u == 125 {
                    Token::Rbrace
                } else if u == 91 {
                    Token::Lbracket
                } else if u == 93 {
                    Token::Rbracket
                } else {
                    Token::Illegal(input.substring_char(i, i + 1).to_owned())
                };
                tokens.push(t);
                i = i + 1;
            }
        }
        Lexer { tokens, pos: 0 }
    }

    /// Serves the next token, or the end-of-input sentinel forever once the
    /// stream is exhausted. Never fails, however often it is called.
    pub fn next_token(&mut self) -> (t: Token)
        requires
            old(self).wf(),
        ensures
            final(self).wf(),
            final(self).stream() == old(self).stream(),
            old(self).remaining().len() > 0 ==> t == old(self).remaining()[0]
                && final(self).remaining() == old(self).remaining().drop_first(),
            old(self).remaining().len() == 0 ==> t == Token::Eof
                && final(self).remaining() == old(self).remaining(),
    {
        if self.pos < self.tokens.len() {
            let t = self.tokens[self.pos].clone();
            self.pos = self.pos + 1;
            proof {
                assert(old(self).remaining().drop_first() =~= self.remaining());
            }
            t
        } else {
            Token::Eof
        }
    }

    /// Hands out the unserved rest of the stream, consuming the source.
    pub fn into_tokens(self) -> (r: Vec<Token>)
        requires
            self.wf(),
        ensures
            r@ == self.remaining(),
    {
        if self.pos == 0 {
            proof {
                assert(self.remaining() =~= self.tokens@);
            }
            self.tokens
        } else {
            let mut v: Vec<Token> = Vec::new();
            let mut i: usize = self.pos;
            while i < self.tokens.len()
                invariant
                    self.pos <= i <= self.tokens@.len(),
                    v@ == self.tokens@.subrange(self.served(), i as int),
                decreases self.tokens@.len() - i,
            {
                v.push(self.tokens[i].clone());
                proof {
                    assert(v@ =~= self.tokens@.subrange(self.served(), i + 1));
                }
                i = i + 1;
            }
            proof {
                assert(v@ =~= self.remaining());
            }
            v
        }
    }
}

/// Whether the character at position `j` may continue an identifier.
fn word_code_at(s: &str, j: usize) -> (r: bool)
    requires
        j < s@.len(),
    ensures
        r == is_word_code(s@[j as int] as u32),
{
    let w = s.get_char(j) as u32;
    (97 <= w && w <= 122) || (65 <= w && w <= 90) || w == 95
}

/// Whether the character at position `j` is a decimal digit.
fn digit_code_at(s: &str, j: usize) -> (r: bool)
    requires
        j < s@.len(),
    ensures
        r == is_digit_code(s@[j as int] as u32),
{
    let w = s.get_char(j) as u32;
    48 <= w && w <= 57
}

/// The token for one identifier-shaped word: the matching keyword where
/// there is one, otherwise an identifier.
fn word_token(word: &str) -> (t: Token)
    ensures
        !(t is Eof),
{
    let w = word.to_owned();
    if w == "fn".to_owned() {
        Token::Function
    } else if w == "let".to_owned() {
        Token::Let
    } else if w == "true".to_owned() {
        Token::True
    } else if w == "false".to_owned() {
        Token::False
    } else if w == "if".to_owned() {
        Token::If
    } else if w == "else".to_owned() {
        Token::Else
    } else if w == "return".to_owned() {
        Token::Return
    } else {
        Token::Ident(w)
    }
}

} // verus!
