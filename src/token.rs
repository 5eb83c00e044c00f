use vstd::prelude::*;

verus! {

/// The closed set of token kinds.
///
/// `EQ`, `NotEq` and `ILLEGAL` belong to the model but are never produced by
/// the scanner: it looks ahead one character only, and it reports an
/// unclassifiable character as an error rather than as an `ILLEGAL` token.
#[derive(Debug, Clone, Copy, PartialEq, Eq, Structural)]
pub enum TokenType {
    ILLEGAL,
    EOF,
    // identifiers and literals
    IDENT,
    INT,
    // operators
    ASSIGN,
    PLUS,
    EQ,
    NotEq,
    // delimiters
    COMMA,
    SEMICOLON,
    LPAREN,
    RPAREN,
    LBRACE,
    RBRACE,
    // keywords
    FUNCTION,
    LET,
}

/// A classified piece of source text: its kind and the exact text matched.
#[derive(Debug)]
pub struct Token {
    pub typ: TokenType,
    pub literal: String,
}

impl Token {
    /// Builds a token of kind `typ` whose literal is `literal`.
    pub fn new(typ: TokenType, literal: String) -> (r: Token)
        ensures
            r.typ == typ,
            r.literal@ == literal@,
    {
        Token { typ, literal }
    }
}

/// The keyword table: `fn` and `let`, matched exactly and case-sensitively.
pub open spec fn keyword_of(s: Seq<char>) -> Option<TokenType> {
    if s == seq!['f', 'n'] {
        Some(TokenType::FUNCTION)
    } else if s == seq!['l', 'e', 't'] {
        Some(TokenType::LET)
    } else {
        None
    }
}

/// Looks `ident` up in the keyword table.
pub fn lookup_ident(ident: &str) -> (r: Option<TokenType>)
    ensures
        r == keyword_of(ident@),
{
    let n = ident.unicode_len();
    if n == 2 && ident.get_char(0) == 'f' && ident.get_char(1) == 'n' {
        assert(ident@ =~= seq!['f', 'n']);
        Some(TokenType::FUNCTION)
    } else if n == 3 && ident.get_char(0) == 'l' && ident.get_char(1) == 'e' && ident.get_char(2)
        == 't' {
        assert(ident@ =~= seq!['l', 'e', 't']);
        Some(TokenType::LET)
    } else {
        None
    }
}

} // verus!
