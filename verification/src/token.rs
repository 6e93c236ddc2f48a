use vstd::prelude::*;

verus! {

/// Lexical tokens of the language. Each token carries the literal source
/// text needed to display it; tokens are immutable once produced and are
/// cloned into the syntax-tree nodes they introduce.
pub enum Token {
    Illegal(String),
    Eof,
    Ident(String),
    Int(String),
    Str(String),
    Assign,
    Plus,
    Minus,
    Bang,
    Asterisk,
    Slash,
    Lt,
    Gt,
    Equals,
    NotEquals,
    Comma,
    Semicolon,
    Colon,
    Lparen,
    Rparen,
    Lbrace,
    Rbrace,
    Lbracket,
    Rbracket,
    Function,
    Let,
    True,
    False,
    If,
    Else,
    Return,
}

/// The literal text a token stands for: the payload of a literal or
/// identifier token, the fixed spelling of a keyword or operator, and the
/// empty sequence for the end-of-input sentinel.
pub open spec fn token_text(t: Token) -> Seq<char> {
    match t {
        Token::Illegal(s) => s@,
        Token::Eof => Seq::<char>::empty(),
        Token::Ident(s) => s@,
        Token::Int(s) => s@,
        Token::Str(s) => s@,
        Token::Assign => "="@,
        Token::Plus => "+"@,
        Token::Minus => "-"@,
        Token::Bang => "!"@,
        Token::Asterisk => "*"@,
        Token::Slash => "/"@,
        Token::Lt => "<"@,
        Token::Gt => ">"@,
        Token::Equals => "=="@,
        Token::NotEquals => "!="@,
        Token::Comma => ","@,
        Token::Semicolon => ";"@,
        Token::Colon => ":"@,
        Token::Lparen => "("@,
        Token::Rparen => ")"@,
        Token::Lbrace => "{"@,
        Token::Rbrace => "}"@,
        Token::Lbracket => "["@,
        Token::Rbracket => "]"@,
        Token::Function => "fn"@,
        Token::Let => "let"@,
        Token::True => "true"@,
        Token::False => "false"@,
        Token::If => "if"@,
        Token::Else => "else"@,
        Token::Return => "return"@,
    }
}

/// Two tokens are the same when they are the same kind and carry the same
/// literal text.
pub open spec fn token_eq(a: Token, b: Token) -> bool {
    match (a, b) {
        (Token::Illegal(x), Token::Illegal(y)) => x@ == y@,
        (Token::Eof, Token::Eof) => true,
        (Token::Ident(x), Token::Ident(y)) => x@ == y@,
        (Token::Int(x), Token::Int(y)) => x@ == y@,
        (Token::Str(x), Token::Str(y)) => x@ == y@,
        (Token::Assign, Token::Assign) => true,
        (Token::Plus, Token::Plus) => true,
        (Token::Minus, Token::Minus) => true,
        (Token::Bang, Token::Bang) => true,
        (Token::Asterisk, Token::Asterisk) => true,
        (Token::Slash, Token::Slash) => true,
        (Token::Lt, Token::Lt) => true,
        (Token::Gt, Token::Gt) => true,
        (Token::Equals, Token::Equals) => true,
        (Token::NotEquals, Token::NotEquals) => true,
        (Token::Comma, Token::Comma) => true,
        (Token::Semicolon, Token::Semicolon) => true,
        (Token::Colon, Token::Colon) => true,
        (Token::Lparen, Token::Lparen) => true,
        (Token::Rparen, Token::Rparen) => true,
        (Token::Lbrace, Token::Lbrace) => true,
        (Token::Rbrace, Token::Rbrace) => true,
        (Token::Lbracket, Token::Lbracket) => true,
        (Token::Rbracket, Token::Rbracket) => true,
        (Token::Function, Token::Function) => true,
        (Token::Let, Token::Let) => true,
        (Token::True, Token::True) => true,
        (Token::False, Token::False) => true,
        (Token::If, Token::If) => true,
        (Token::Else, Token::Else) => true,
        (Token::Return, Token::Return) => true,
        _ => false,
    }
}

impl Token {
    /// The literal text of this token, as it appears in source.
    pub fn to_string(&self) -> (r: String)
        ensures
            r@ == token_text(*self),
    {
        match self {
            Token::Illegal(s) => s.clone(),
            Token::Eof => String::new(),
            Token::Ident(s) => s.clone(),
            Token::Int(s) => s.clone(),
            Token::Str(s) => s.clone(),
            Token::Assign => "=".to_owned(),
            Token::Plus => "+".to_owned(),
            Token::Minus => "-".to_owned(),
            Token::Bang => "!".to_owned(),
            Token::Asterisk => "*".to_owned(),
            Token::Slash => "/".to_owned(),
            Token::Lt => "<".to_owned(),
            Token::Gt => ">".to_owned(),
            Token::Equals => "==".to_owned(),
            Token::NotEquals => "!=".to_owned(),
            Token::Comma => ",".to_owned(),
            Token::Semicolon => ";".to_owned(),
            Token::Colon => ":".to_owned(),
            Token::Lparen => "(".to_owned(),
            Token::Rparen => ")".to_owned(),
            Token::Lbrace => "{".to_owned(),
            Token::Rbrace => "}".to_owned(),
            Token::Lbracket => "[".to_owned(),
            Token::Rbracket => "]".to_owned(),
            Token::Function => "fn".to_owned(),
            Token::Let => "let".to_owned(),
            Token::True => "true".to_owned(),
            Token::False => "false".to_owned(),
            Token::If => "if".to_owned(),
            Token::Else => "else".to_owned(),
            Token::Return => "return".to_owned(),
        }
    }

    /// Whether this token and `other` are the same kind with the same text.
    pub fn same(&self, other: &Token) -> (r: bool)
        ensures
            r == token_eq(*self, *other),
    {
        match (self, other) {
            (Token::Illegal(x), Token::Illegal(y)) => *x == *y,
            (Token::Eof, Token::Eof) => true,
            (Token::Ident(x), Token::Ident(y)) => *x == *y,
            (Token::Int(x), Token::Int(y)) => *x == *y,
            (Token::Str(x), Token::Str(y)) => *x == *y,
            (Token::Assign, Token::Assign) => true,
            (Token::Plus, Token::Plus) => true,
            (Token::Minus, Token::Minus) => true,
            (Token::Bang, Token::Bang) => true,
            (Token::Asterisk, Token::Asterisk) => true,
            (Token::Slash, Token::Slash) => true,
            (Token::Lt, Token::Lt) => true,
            (Token::Gt, Token::Gt) => true,
            (Token::Equals, Token::Equals) => true,
            (Token::NotEquals, Token::NotEquals) => true,
            (Token::Comma, Token::Comma) => true,
            (Token::Semicolon, Token::Semicolon) => true,
            (Token::Colon, Token::Colon) => true,
            (Token::Lparen, Token::Lparen) => true,
            (Token::Rparen, Token::Rparen) => true,
            (Token::Lbrace, Token::Lbrace) => true,
            (Token::Rbrace, Token::Rbrace) => true,
            (Token::Lbracket, Token::Lbracket) => true,
            (Token::Rbracket, Token::Rbracket) => true,
            (Token::Function, Token::Function) => true,
            (Token::Let, Token::Let) => true,
            (Token::True, Token::True) => true,
            (Token::False, Token::False) => true,
            (Token::If, Token::If) => true,
            (Token::Else, Token::Else) => true,
            (Token::Return, Token::Return) => true,
            _ => false,
        }
    }
}

impl Clone for Token {
    fn clone(&self) -> (r: Token)
        ensures
            r == *self,
    {
        match self {
            Token::Illegal(s) => Token::Illegal(s.clone()),
            Token::Eof => Token::Eof,
            Token::Ident(s) => Token::Ident(s.clone()),
            Token::Int(s) => Token::Int(s.clone()),
            Token::Str(s) => Token::Str(s.clone()),
            Token::Assign => Token::Assign,
            Token::Plus => Token::Plus,
            Token::Minus => Token::Minus,
            Token::Bang => Token::Bang,
            Token::Asterisk => Token::Asterisk,
            Token::Slash => Token::Slash,
            Token::Lt => Token::Lt,
            Token::Gt => Token::Gt,
            Token::Equals => Token::Equals,
            Token::NotEquals => Token::NotEquals,
            Token::Comma => Token::Comma,
            Token::Semicolon => Token::Semicolon,
            Token::Colon => Token::Colon,
            Token::Lparen => Token::Lparen,
            Token::Rparen => Token::Rparen,
            Token::Lbrace => Token::Lbrace,
            Token::Rbrace => Token::Rbrace,
            Token::Lbracket => Token::Lbracket,
            Token::Rbracket => Token::Rbracket,
            Token::Function => Token::Function,
            Token::Let => Token::Let,
            Token::True => Token::True,
            Token::False => Token::False,
            Token::If => Token::If,
            Token::Else => Token::Else,
            Token::Return => Token::Return,
        }
    }
}

} // verus!
