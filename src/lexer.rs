use vstd::prelude::*;

use vstd::std_specs::iter::IteratorSpec;

use crate::token::{keyword_of, lookup_ident, Token, TokenType};

verus! {

/// Characters that separate tokens and are otherwise ignored.
pub open spec fn is_whitespace(c: char) -> bool {
    c == ' ' || c == '\t' || c == '\n' || c == '\r'
}

/// ASCII letters, the only characters an identifier is made of.
pub open spec fn is_letter(c: char) -> bool {
    ('a' <= c && c <= 'z') || ('A' <= c && c <= 'Z')
}

/// ASCII digits, the only characters an integer literal is made of.
pub open spec fn is_digit(c: char) -> bool {
    '0' <= c && c <= '9'
}

/// The kind of a single-character punctuation mark, if `c` is one.
pub open spec fn punct_kind(c: char) -> Option<TokenType> {
    if c == '=' {
        Some(TokenType::ASSIGN)
    } else if c == ';' {
        Some(TokenType::SEMICOLON)
    } else if c == '(' {
        Some(TokenType::LPAREN)
    } else if c == ')' {
        Some(TokenType::RPAREN)
    } else if c == ',' {
        Some(TokenType::COMMA)
    } else if c == '+' {
        Some(TokenType::PLUS)
    } else if c == '{' {
        Some(TokenType::LBRACE)
    } else if c == '}' {
        Some(TokenType::RBRACE)
    } else {
        None
    }
}

/// `r` without its leading run of whitespace.
pub open spec fn skip_ws(r: Seq<char>) -> Seq<char>
    decreases r.len(),
{
    if r.len() > 0 && is_whitespace(r[0]) {
        skip_ws(r.drop_first())
    } else {
        r
    }
}

/// Length of the longest prefix of `r` made of letters.
pub open spec fn letter_run(r: Seq<char>) -> nat
    decreases r.len(),
{
    if r.len() > 0 && is_letter(r[0]) {
        1 + letter_run(r.drop_first())
    } else {
        0
    }
}

/// Length of the longest prefix of `r` made of digits.
pub open spec fn digit_run(r: Seq<char>) -> nat
    decreases r.len(),
{
    if r.len() > 0 && is_digit(r[0]) {
        1 + digit_run(r.drop_first())
    } else {
        0
    }
}

/// Number of characters of the token that starts `t` (no leading whitespace):
/// one for punctuation, the maximal run for identifiers and numbers, and zero
/// at the end of input or on an unclassifiable character.
pub open spec fn token_len(t: Seq<char>) -> nat {
    if t.len() == 0 {
        0
    } else if punct_kind(t[0]) is Some {
        1
    } else if is_letter(t[0]) {
        letter_run(t)
    } else if is_digit(t[0]) {
        digit_run(t)
    } else {
        0
    }
}

/// Kind of the token that starts `t` (no leading whitespace), or `None` when
/// its first character cannot begin a token.
pub open spec fn token_kind(t: Seq<char>) -> Option<TokenType> {
    if t.len() == 0 {
        Some(TokenType::EOF)
    } else if punct_kind(t[0]) is Some {
        punct_kind(t[0])
    } else if is_letter(t[0]) {
        match keyword_of(t.take(letter_run(t) as int)) {
            Some(k) => Some(k),
            None => Some(TokenType::IDENT),
        }
    } else if is_digit(t[0]) {
        Some(TokenType::INT)
    } else {
        None
    }
}

/// Kind of the next token of the remaining input `r`, or `None` when scanning fails.
pub open spec fn scan_kind(r: Seq<char>) -> Option<TokenType> {
    token_kind(skip_ws(r))
}

/// Literal text of the next token of the remaining input `r`.
pub open spec fn scan_literal(r: Seq<char>) -> Seq<char> {
    skip_ws(r).take(token_len(skip_ws(r)) as int)
}

/// What remains of `r` once its next token has been read.
pub open spec fn scan_rest(r: Seq<char>) -> Seq<char> {
    skip_ws(r).skip(token_len(skip_ws(r)) as int)
}

/// Why scanning stopped.
#[derive(Debug, Clone, Copy, PartialEq, Eq, Structural)]
pub enum LexError {
    /// The character under the cursor cannot begin any token.
    UnclassifiableCharacter(char),
}

/// Relies on `String`'s `FromIterator<char>` impl: the string holds exactly
/// the given characters, in order.
#[verifier::external_body]
fn string_from_chars(cs: &[char]) -> (r: String)
    ensures
        r@ == cs@,
{
    cs.iter().collect()
}

fn is_whitespace_char(c: char) -> (b: bool)
    ensures
        b == is_whitespace(c),
{
    c == ' ' || c == '\t' || c == '\n' || c == '\r'
}

fn is_letter_char(c: char) -> (b: bool)
    ensures
        b == is_letter(c),
{
    ('a' <= c && c <= 'z') || ('A' <= c && c <= 'Z')
}

fn is_digit_char(c: char) -> (b: bool)
    ensures
        b == is_digit(c),
{
    '0' <= c && c <= '9'
}

fn punct_kind_of(c: char) -> (r: Option<TokenType>)
    ensures
        r == punct_kind(c),
{
    match c {
        '=' => Some(TokenType::ASSIGN),
        ';' => Some(TokenType::SEMICOLON),
        '(' => Some(TokenType::LPAREN),
        ')' => Some(TokenType::RPAREN),
        ',' => Some(TokenType::COMMA),
        '+' => Some(TokenType::PLUS),
        '{' => Some(TokenType::LBRACE),
        '}' => Some(TokenType::RBRACE),
        _ => None,
    }
}

/// A cursor over the characters of a source text.
pub struct Lexer {
    chars: Vec<char>,
    pos: usize,
}

impl View for Lexer {
    type V = Seq<char>;

    /// The input that has not been consumed yet.
    closed spec fn view(&self) -> Seq<char> {
        self.chars@.skip(self.pos as int)
    }
}

impl Lexer {
    /// The cursor lies within the input.
    pub closed spec fn wf(&self) -> bool {
        self.pos <= self.chars.len()
    }

    /// A scanner positioned at the start of `input`.
    pub fn new(input: &str) -> (r: Lexer)
        ensures
            r.wf(),
            r@ == input@,
    {
        let mut chars: Vec<char> = Vec::new();
        let mut it = input.chars();
        loop
            invariant
                chars@ + it.remaining() == input@,
                it.decrease() is Some,
            ensures
                chars@ == input@,
            decreases (it.decrease()->0),
        {
            match it.next() {
                Some(c) => chars.push(c),
                None => break,
            }
        }
        let r = Lexer { chars, pos: 0 };
        assert(r@ =~= input@);
        r
    }

    /// Consumes the leading run of whitespace.
    fn skip_whitespace(&mut self)
        requires
            old(self).wf(),
        ensures
            final(self).wf(),
            final(self).chars@ == old(self).chars@,
            final(self)@ == skip_ws(old(self)@),
    {
        while self.chars.len() > self.pos && is_whitespace_char(self.chars[self.pos])
            invariant
                self.wf(),
                self.chars@ == old(self).chars@,
                skip_ws(self@) == skip_ws(old(self)@),
            decreases self.chars.len() - self.pos,
        {
            assert(self.chars@.skip(self.pos as int).drop_first() =~= self.chars@.skip(
                self.pos + 1,
            ));
            self.pos = self.pos + 1;
        }
    }

    /// Reads an identifier whose first letter, `leading`, was already
    /// consumed, together with every letter that follows it.
    fn read_identifier(&mut self, leading: char) -> (r: String)
        requires
            old(self).wf(),
            is_letter(leading),
        ensures
            final(self).wf(),
            final(self).chars@ == old(self).chars@,
            letter_run(old(self)@) <= old(self)@.len(),
            r@ == seq![leading] + old(self)@.take(letter_run(old(self)@) as int),
            final(self)@ == old(self)@.skip(letter_run(old(self)@) as int),
    {
        let ghost start = self.pos as int;
        let mut chars: Vec<char> = vec![leading];
        while self.chars.len() > self.pos && is_letter_char(self.chars[self.pos])
            invariant
                self.wf(),
                self.chars@ == old(self).chars@,
                start <= self.pos,
                start == old(self).pos,
                chars@ == seq![leading] + self.chars@.subrange(start, self.pos as int),
                letter_run(old(self)@) == (self.pos - start) + letter_run(self@),
            decreases self.chars.len() - self.pos,
        {
            assert(self.chars@.skip(self.pos as int).drop_first() =~= self.chars@.skip(
                self.pos + 1,
            ));
            chars.push(self.chars[self.pos]);
            self.pos = self.pos + 1;
            assert(chars@ =~= seq![leading] + self.chars@.subrange(start, self.pos as int));
        }
        assert(old(self)@.take(letter_run(old(self)@) as int) =~= self.chars@.subrange(
            start,
            self.pos as int,
        ));
        assert(self@ =~= old(self)@.skip(letter_run(old(self)@) as int));
        string_from_chars(chars.as_slice())
    }

    /// Reads an integer literal whose first digit, `leading`, was already
    /// consumed, together with every digit that follows it.
    fn read_number(&mut self, leading: char) -> (r: String)
        requires
            old(self).wf(),
            is_digit(leading),
        ensures
            final(self).wf(),
            final(self).chars@ == old(self).chars@,
            digit_run(old(self)@) <= old(self)@.len(),
            r@ == seq![leading] + old(self)@.take(digit_run(old(self)@) as int),
            final(self)@ == old(self)@.skip(digit_run(old(self)@) as int),
    {
        let ghost start = self.pos as int;
        let mut chars: Vec<char> = vec![leading];
        while self.chars.len() > self.pos && is_digit_char(self.chars[self.pos])
            invariant
                self.wf(),
                self.chars@ == old(self).chars@,
                start <= self.pos,
                start == old(self).pos,
                chars@ == seq![leading] + self.chars@.subrange(start, self.pos as int),
                digit_run(old(self)@) == (self.pos - start) + digit_run(self@),
            decreases self.chars.len() - self.pos,
        {
            assert(self.chars@.skip(self.pos as int).drop_first() =~= self.chars@.skip(
                self.pos + 1,
            ));
            chars.push(self.chars[self.pos]);
            self.pos = self.pos + 1;
            assert(chars@ =~= seq![leading] + self.chars@.subrange(start, self.pos as int));
        }
        assert(old(self)@.take(digit_run(old(self)@) as int) =~= self.chars@.subrange(
            start,
            self.pos as int,
        ));
        assert(self@ =~= old(self)@.skip(digit_run(old(self)@) as int));
        string_from_chars(chars.as_slice())
    }

    /// Scans the next token: skips whitespace, then classifies by the first
    /// character. At the end of input it returns an `EOF` token with an empty
    /// literal, and keeps doing so on every later call. A character that
    /// cannot begin a token stops scanning with an error; the cursor is then
    /// left on that character.
    pub fn next_token(&mut self) -> (r: Result<Token, LexError>)
        requires
            old(self).wf(),
        ensures
            final(self).wf(),
            match r {
                Ok(tok) => {
                    &&& scan_kind(old(self)@) == Some(tok.typ)
                    &&& tok.literal@ == scan_literal(old(self)@)
                    &&& final(self)@ == scan_rest(old(self)@)
                },
                Err(LexError::UnclassifiableCharacter(c)) => {
                    &&& scan_kind(old(self)@) is None
                    &&& c == skip_ws(old(self)@)[0]
                    &&& final(self)@ == skip_ws(old(self)@)
                },
            },
    {
        self.skip_whitespace();
        let ghost t = self@;
        if self.pos >= self.chars.len() {
            assert(t.take(0) =~= Seq::<char>::empty());
            assert(t.skip(0) =~= t);
            return Ok(Token::new(TokenType::EOF, String::new()));
        }
        let ch = self.chars[self.pos];
        assert(t[0] == ch);
        if let Some(typ) = punct_kind_of(ch) {
            self.pos = self.pos + 1;
            assert(t.take(1) =~= seq![ch]);
            assert(t.skip(1) =~= self@);
            let one = vec![ch];
            return Ok(Token::new(typ, string_from_chars(one.as_slice())));
        }
        if is_letter_char(ch) {
            self.pos = self.pos + 1;
            assert(self@ =~= t.drop_first());
            let ident = self.read_identifier(ch);
            assert(letter_run(t) == 1 + letter_run(t.drop_first()));
            assert(ident@ =~= t.take(letter_run(t) as int));
            assert(self@ =~= t.skip(letter_run(t) as int));
            let typ = match lookup_ident(ident.as_str()) {
                Some(k) => k,
                None => TokenType::IDENT,
            };
            return Ok(Token::new(typ, ident));
        }
        if is_digit_char(ch) {
            self.pos = self.pos + 1;
            assert(self@ =~= t.drop_first());
            let number = self.read_number(ch);
            assert(digit_run(t) == 1 + digit_run(t.drop_first()));
            assert(number@ =~= t.take(digit_run(t) as int));
            assert(self@ =~= t.skip(digit_run(t) as int));
            return Ok(Token::new(TokenType::INT, number));
        }
        Err(LexError::UnclassifiableCharacter(ch))
    }
}

} // verus!
