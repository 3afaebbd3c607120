//! The token model: the closed set of token categories, the token value
//! (category plus literal text), and the keyword table that resolves a
//! scanned identifier to a reserved word or to the identifier category.

use vstd::prelude::*;

verus! {

/// The closed set of token categories the scanner can produce.
#[derive(Clone, Copy, Debug, PartialEq, Eq, Structural)]
pub enum TokenType {
    Illegal,
    Eof,
    Ident,
    Int,
    Assign,
    Plus,
    Minus,
    Bang,
    Asterisk,
    Slash,
    Eq,
    NotEq,
    Lt,
    Gt,
    Comma,
    Semicolon,
    Lparen,
    Rparen,
    Lbrace,
    Rbrace,
    Function,
    Let,
    Return,
    If,
    Else,
    True,
    False,
}

/// The bytes of the reserved word `fn`.
pub open spec fn kw_fn() -> Seq<u8> {
    seq![('f' as u8), ('n' as u8)]
}

/// The bytes of the reserved word `let`.
pub open spec fn kw_let() -> Seq<u8> {
    seq![('l' as u8), ('e' as u8), ('t' as u8)]
}

/// The bytes of the reserved word `return`.
pub open spec fn kw_return() -> Seq<u8> {
    seq![('r' as u8), ('e' as u8), ('t' as u8), ('u' as u8), ('r' as u8), ('n' as u8)]
}

/// The bytes of the reserved word `if`.
pub open spec fn kw_if() -> Seq<u8> {
    seq![('i' as u8), ('f' as u8)]
}

/// The bytes of the reserved word `else`.
pub open spec fn kw_else() -> Seq<u8> {
    seq![('e' as u8), ('l' as u8), ('s' as u8), ('e' as u8)]
}

/// The bytes of the reserved word `true`.
pub open spec fn kw_true() -> Seq<u8> {
    seq![('t' as u8), ('r' as u8), ('u' as u8), ('e' as u8)]
}

/// The bytes of the reserved word `false`.
pub open spec fn kw_false() -> Seq<u8> {
    seq![('f' as u8), ('a' as u8), ('l' as u8), ('s' as u8), ('e' as u8)]
}

/// The category of a scanned letter run: the keyword category when the run
/// is exactly one of the reserved words, and the identifier category
/// otherwise. Matching is exact and case-sensitive.
pub open spec fn keyword_type(s: Seq<u8>) -> TokenType {
    if s == kw_fn() {
        TokenType::Function
    } else if s == kw_let() {
        TokenType::Let
    } else if s == kw_return() {
        TokenType::Return
    } else if s == kw_if() {
        TokenType::If
    } else if s == kw_else() {
        TokenType::Else
    } else if s == kw_true() {
        TokenType::True
    } else if s == kw_false() {
        TokenType::False
    } else {
        TokenType::Ident
    }
}

/// The canonical display string of a category, used only for diagnostics and
/// REPL echo; it is not part of token equality.
pub open spec fn display_name(t: TokenType) -> Seq<char> {
    match t {
        TokenType::Illegal => "ILLEGAL"@,
        TokenType::Eof => "EOF"@,
        TokenType::Ident => "IDENT"@,
        TokenType::Int => "INT"@,
        TokenType::Assign => "="@,
        TokenType::Plus => "+"@,
        TokenType::Minus => "-"@,
        TokenType::Bang => "!"@,
        TokenType::Asterisk => "*"@,
        TokenType::Slash => "/"@,
        TokenType::Eq => "=="@,
        TokenType::NotEq => "!="@,
        TokenType::Lt => "<"@,
        TokenType::Gt => ">"@,
        TokenType::Comma => ","@,
        TokenType::Semicolon => ";"@,
        TokenType::Lparen => "("@,
        TokenType::Rparen => ")"@,
        TokenType::Lbrace => "{"@,
        TokenType::Rbrace => "}"@,
        TokenType::Function => "FUNCTION"@,
        TokenType::Let => "LET"@,
        TokenType::Return => "RETURN"@,
        TokenType::If => "IF"@,
        TokenType::Else => "ELSE"@,
        TokenType::True => "TRUE"@,
        TokenType::False => "FALSE"@,
    }
}

impl TokenType {
    /// The canonical display string of this category.
    pub fn name(&self) -> (r: &'static str)
        ensures
            r@ == display_name(*self),
    {
        match *self {
            TokenType::Illegal => "ILLEGAL",
            TokenType::Eof => "EOF",
            TokenType::Ident => "IDENT",
            TokenType::Int => "INT",
            TokenType::Assign => "=",
            TokenType::Plus => "+",
            TokenType::Minus => "-",
            TokenType::Bang => "!",
            TokenType::Asterisk => "*",
            TokenType::Slash => "/",
            TokenType::Eq => "==",
            TokenType::NotEq => "!=",
            TokenType::Lt => "<",
            TokenType::Gt => ">",
            TokenType::Comma => ",",
            TokenType::Semicolon => ";",
            TokenType::Lparen => "(",
            TokenType::Rparen => ")",
            TokenType::Lbrace => "{",
            TokenType::Rbrace => "}",
            TokenType::Function => "FUNCTION",
            TokenType::Let => "LET",
            TokenType::Return => "RETURN",
            TokenType::If => "IF",
            TokenType::Else => "ELSE",
            TokenType::True => "TRUE",
            TokenType::False => "FALSE",
        }
    }
}

/// Whether two byte vectors hold the same bytes.
pub fn bytes_eq(a: &Vec<u8>, b: &Vec<u8>) -> (r: bool)
    ensures
        r == (a@ == b@),
{
    if a.len() != b.len() {
        return false;
    }
    let mut i: usize = 0;
    while i < a.len()
        invariant
            a@.len() == b@.len(),
            0 <= i <= a@.len(),
            forall|j: int| 0 <= j < i ==> a@[j] == b@[j],
        decreases a@.len() - i,
    {
        if a[i] != b[i] {
            return false;
        }
        i = i + 1;
    }
    proof {
        assert(a@ =~= b@);
    }
    true
}

/// The keyword table: an exact-match mapping from each reserved word to its
/// category, built once and queried by `lookup_ident`.
pub struct KeywordMatch {
    entries: Vec<(Vec<u8>, TokenType)>,
}

impl KeywordMatch {
    /// The table holds exactly the seven reserved words, each paired with
    /// its keyword category.
    pub closed spec fn wf(self) -> bool {
        &&& self.entries@.len() == 7
        &&& self.entries@[0].0@ == kw_fn() && self.entries@[0].1 == TokenType::Function
        &&& self.entries@[1].0@ == kw_let() && self.entries@[1].1 == TokenType::Let
        &&& self.entries@[2].0@ == kw_return() && self.entries@[2].1 == TokenType::Return
        &&& self.entries@[3].0@ == kw_if() && self.entries@[3].1 == TokenType::If
        &&& self.entries@[4].0@ == kw_else() && self.entries@[4].1 == TokenType::Else
        &&& self.entries@[5].0@ == kw_true() && self.entries@[5].1 == TokenType::True
        &&& self.entries@[6].0@ == kw_false() && self.entries@[6].1 == TokenType::False
    }

    /// Builds the table of the seven reserved words.
    pub fn new() -> (r: KeywordMatch)
        ensures
            r.wf(),
    {
        let mut entries: Vec<(Vec<u8>, TokenType)> = Vec::new();
        entries.push((word_fn(), TokenType::Function));
        entries.push((word_let(), TokenType::Let));
        entries.push((word_return(), TokenType::Return));
        entries.push((word_if(), TokenType::If));
        entries.push((word_else(), TokenType::Else));
        entries.push((word_true(), TokenType::True));
        entries.push((word_false(), TokenType::False));
        KeywordMatch { entries }
    }

    /// Resolves a scanned letter run: the keyword category when `ident` is a
    /// reserved word, the identifier category otherwise.
    pub fn lookup_ident(&self, ident: &Vec<u8>) -> (r: TokenType)
        requires
            self.wf(),
        ensures
            r == keyword_type(ident@),
    {
        let mut i: usize = 0;
        while i < self.entries.len()
            invariant
                self.wf(),
                0 <= i <= self.entries@.len(),
                forall|j: int| 0 <= j < i ==> self.entries@[j].0@ != ident@,
            decreases self.entries@.len() - i,
        {
            if bytes_eq(&self.entries[i].0, ident) {
                return self.entries[i].1;
            }
            i = i + 1;
        }
        TokenType::Ident
    }
}

/// The bytes of `fn` as a vector.
fn word_fn() -> (r: Vec<u8>)
    ensures
        r@ == kw_fn(),
{
    let mut r: Vec<u8> = Vec::new();
    r.push('f' as u8);
    r.push('n' as u8);
    proof {
        assert(r@ =~= kw_fn());
    }
    r
}

/// The bytes of `let` as a vector.
fn word_let() -> (r: Vec<u8>)
    ensures
        r@ == kw_let(),
{
    let mut r: Vec<u8> = Vec::new();
    r.push('l' as u8);
    r.push('e' as u8);
    r.push('t' as u8);
    proof {
        assert(r@ =~= kw_let());
    }
    r
}

/// The bytes of `return` as a vector.
fn word_return() -> (r: Vec<u8>)
    ensures
        r@ == kw_return(),
{
    let mut r: Vec<u8> = Vec::new();
    r.push('r' as u8);
    r.push('e' as u8);
    r.push('t' as u8);
    r.push('u' as u8);
    r.push('r' as u8);
    r.push('n' as u8);
    proof {
        assert(r@ =~= kw_return());
    }
    r
}

/// The bytes of `if` as a vector.
fn word_if() -> (r: Vec<u8>)
    ensures
        r@ == kw_if(),
{
    let mut r: Vec<u8> = Vec::new();
    r.push('i' as u8);
    r.push('f' as u8);
    proof {
        assert(r@ =~= kw_if());
    }
    r
}

/// The bytes of `else` as a vector.
fn word_else() -> (r: Vec<u8>)
    ensures
        r@ == kw_else(),
{
    let mut r: Vec<u8> = Vec::new();
    r.push('e' as u8);
    r.push('l' as u8);
    r.push('s' as u8);
    r.push('e' as u8);
    proof {
        assert(r@ =~= kw_else());
    }
    r
}

/// The bytes of `true` as a vector.
fn word_true() -> (r: Vec<u8>)
    ensures
        r@ == kw_true(),
{
    let mut r: Vec<u8> = Vec::new();
    r.push('t' as u8);
    r.push('r' as u8);
    r.push('u' as u8);
    r.push('e' as u8);
    proof {
        assert(r@ =~= kw_true());
    }
    r
}

/// The bytes of `false` as a vector.
fn word_false() -> (r: Vec<u8>)
    ensures
        r@ == kw_false(),
{
    let mut r: Vec<u8> = Vec::new();
    r.push('f' as u8);
    r.push('a' as u8);
    r.push('l' as u8);
    r.push('s' as u8);
    r.push('e' as u8);
    proof {
        assert(r@ =~= kw_false());
    }
    r
}

/// A classified unit of source text: a category and the literal bytes that
/// were consumed to produce it. Two tokens are equal exactly when both the
/// category and the literal match.
#[derive(Debug, PartialEq, Eq)]
pub struct Token {
    /// The token's category.
    pub token_type: TokenType,
    /// The source bytes consumed for this token; empty for end-of-input.
    pub literal: Vec<u8>,
}

impl Token {
    /// Builds a token from a category and an owned literal.
    pub fn new(token_type: TokenType, literal: Vec<u8>) -> (r: Token)
        ensures
            r.token_type == token_type,
            r.literal == literal,
    {
        Token { token_type, literal }
    }

    /// Builds a token from a category and a borrowed literal, copying the
    /// bytes.
    pub fn from_str(token_type: TokenType, literal: &[u8]) -> (r: Token)
        ensures
            r.token_type == token_type,
            r.literal@ == literal@,
    {
        Token { token_type, literal: vstd::slice::slice_to_vec(literal) }
    }
}

} // verus!
