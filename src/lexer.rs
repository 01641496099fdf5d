use vstd::prelude::*;
use vstd::string::*;
use crate::chars::{is_alphabetic, is_decimal_digit, is_whitespace};
use crate::model::{char_at, digit_end, ident_end, scan, single_kind, space_end};
use crate::token::{keyword, Token, TokenType};

verus! {

/// The kind of a character that always stands alone as a token.
fn single_char_kind(c: char) -> (r: Option<TokenType>)
    ensures
        r == single_kind(c),
{
    match c {
        '+' => Some(TokenType::PLUS),
        '-' => Some(TokenType::MINUS),
        '*' => Some(TokenType::ASTERISK),
        '/' => Some(TokenType::SLASH),
        '<' => Some(TokenType::LT),
        '>' => Some(TokenType::GT),
        ',' => Some(TokenType::COMMA),
        ';' => Some(TokenType::SEMICOLON),
        '(' => Some(TokenType::LPAREN),
        ')' => Some(TokenType::RPAREN),
        '{' => Some(TokenType::LBRACE),
        '}' => Some(TokenType::RBRACE),
        _ => None,
    }
}

/// Why a scanner could not be made.
#[derive(Debug, PartialEq, Eq, Clone, Copy, Structural)]
pub enum ConstructionError {
    /// The source text holds no character.
    EmptyInput,
    /// The source text holds so many characters that the index one past its
    /// end does not fit in a `usize`.
    InputTooLong,
}

/// A cursor over source text.
pub struct Lexer {
    pub input: String,
    /// Index of the current character.
    pub pos: usize,
    /// Index of the character after the current one.
    pub read_pos: usize,
    /// The current character, or NUL past the end of the input.
    pub ch: char,
}

impl Lexer {
    /// The cursor is consistent: the read index is one past the current
    /// index, the current character is the one at the current index, and
    /// the read index can always reach one past the end.
    pub open spec fn wf(&self) -> bool {
        &&& self.input@.len() < usize::MAX
        &&& self.read_pos == self.pos + 1
        &&& self.ch == char_at(self.input@, self.pos as int)
    }

    /// A cursor over `input` on its first character.
    pub open spec fn starts(&self, input: String) -> bool {
        &&& self.input == input
        &&& self.pos == 0
        &&& self.read_pos == 1
        &&& self.ch == char_at(input@, 0)
    }

    /// A scanner over non-empty text, on its first character.
    pub fn new(input: String) -> (r: Lexer)
        requires
            0 < input@.len() < usize::MAX,
        ensures
            r.starts(input),
            r.wf(),
    {
        let mut l = Lexer { input, pos: 0, read_pos: 0, ch: '\0' };
        l.read_char();
        l
    }

    /// A scanner over `input`, refused when `input` is empty or too long to
    /// index.
    pub fn try_new(input: String) -> (r: Result<Lexer, ConstructionError>)
        ensures
            input@.len() == 0 <==> r == Err::<Lexer, ConstructionError>(
                ConstructionError::EmptyInput,
            ),
            input@.len() == usize::MAX <==> r == Err::<Lexer, ConstructionError>(
                ConstructionError::InputTooLong,
            ),
            r is Ok ==> r->Ok_0.starts(input) && r->Ok_0.wf(),
    {
        let n = input.as_str().unicode_len();
        if n == 0 {
            Err(ConstructionError::EmptyInput)
        } else if n == usize::MAX {
            Err(ConstructionError::InputTooLong)
        } else {
            Ok(Lexer::new(input))
        }
    }

    /// Advances by one character: the read index becomes the current one.
    pub fn read_char(&mut self)
        requires
            old(self).read_pos < usize::MAX,
        ensures
            final(self).input == old(self).input,
            final(self).pos == old(self).read_pos,
            final(self).read_pos == old(self).read_pos + 1,
            final(self).ch == char_at(old(self).input@, old(self).read_pos as int),
    {
        if self.read_pos >= self.input.as_str().unicode_len() {
            self.ch = '\0';
        } else {
            self.ch = self.input.as_str().get_char(self.read_pos);
        }
        self.pos = self.read_pos;
        self.read_pos = self.read_pos + 1;
    }

    /// The character after the current one, or NUL past the end, without
    /// moving.
    pub fn peek_char(&self) -> (r: char)
        ensures
            r == char_at(self.input@, self.read_pos as int),
    {
        if self.read_pos >= self.input.as_str().unicode_len() {
            '\0'
        } else {
            self.input.as_str().get_char(self.read_pos)
        }
    }

    /// Reads the run of letters and underscores that starts at the current
    /// character and returns it; the cursor stops on the first character
    /// after the run.
    pub fn read_ident(&mut self) -> (r: String)
        requires
            old(self).wf(),
        ensures
            final(self).wf(),
            final(self).input == old(self).input,
            final(self).pos == ident_end(old(self).input@, old(self).pos as int),
            old(self).pos <= old(self).input@.len() ==> r@ == old(self).input@.subrange(
                old(self).pos as int,
                final(self).pos as int,
            ),
            old(self).pos > old(self).input@.len() ==> r@.len() == 0,
    {
        let ghost s = self.input@;
        let ghost input = self.input;
        let start = self.pos;
        let n = self.input.as_str().unicode_len();
        while self.pos < n && (is_alphabetic(self.ch) || self.ch == '_')
            invariant
                self.wf(),
                self.input == input,
                s == input@,
                n == s.len(),
                start <= self.pos,
                start <= n ==> self.pos <= n,
                ident_end(s, self.pos as int) == ident_end(s, start as int),
            decreases n - self.pos,
        {
            self.read_char();
        }
        if start > n {
            return String::new();
        }
        self.input.as_str().substring_char(start, self.pos).to_string()
    }

    /// Reads the run of decimal digits that starts at the current character
    /// and returns it; the cursor stops on the first character after the run.
    pub fn read_digit(&mut self) -> (r: String)
        requires
            old(self).wf(),
        ensures
            final(self).wf(),
            final(self).input == old(self).input,
            final(self).pos == digit_end(old(self).input@, old(self).pos as int),
            old(self).pos <= old(self).input@.len() ==> r@ == old(self).input@.subrange(
                old(self).pos as int,
                final(self).pos as int,
            ),
            old(self).pos > old(self).input@.len() ==> r@.len() == 0,
    {
        let ghost s = self.input@;
        let ghost input = self.input;
        let start = self.pos;
        let n = self.input.as_str().unicode_len();
        while self.pos < n && is_decimal_digit(self.ch)
            invariant
                self.wf(),
                self.input == input,
                s == input@,
                n == s.len(),
                start <= self.pos,
                start <= n ==> self.pos <= n,
                digit_end(s, self.pos as int) == digit_end(s, start as int),
            decreases n - self.pos,
        {
            self.read_char();
        }
        if start > n {
            return String::new();
        }
        self.input.as_str().substring_char(start, self.pos).to_string()
    }

    /// Moves past the run of whitespace that starts at the current character.
    pub fn skip_whtspc(&mut self)
        requires
            old(self).wf(),
        ensures
            final(self).wf(),
            final(self).input == old(self).input,
            final(self).pos == space_end(old(self).input@, old(self).pos as int),
    {
        let ghost s = self.input@;
        let ghost input = self.input;
        let ghost start = self.pos;
        let n = self.input.as_str().unicode_len();
        while self.pos < n && is_whitespace(self.ch)
            invariant
                self.wf(),
                self.input == input,
                s == input@,
                n == s.len(),
                space_end(s, self.pos as int) == space_end(s, start as int),
            decreases n - self.pos,
        {
            self.read_char();
        }
    }

    /// Skips whitespace, then scans and returns one token. Two-character
    /// operators are matched before their one-character prefixes, and a word
    /// is looked up as a reserved word only once its whole run is read. At
    /// the end of the input the token is `EOF`, and the cursor stays put.
    pub fn next_token(&mut self) -> (tok: Token)
        requires
            old(self).wf(),
        ensures
            final(self).wf(),
            final(self).input == old(self).input,
            tok.kind == scan(old(self).input@, old(self).pos as int).kind,
            tok.literal@ == scan(old(self).input@, old(self).pos as int).text,
            final(self).pos == scan(old(self).input@, old(self).pos as int).end,
    {
        let ghost s = self.input@;
        self.skip_whtspc();
        let n = self.input.as_str().unicode_len();
        if self.pos >= n {
            return Token { kind: TokenType::EOF, literal: String::new() };
        }
        let start = self.pos;
        let c = self.ch;
        let kind = if c == '=' {
            if self.peek_char() == '=' {
                self.read_char();
                TokenType::EQ
            } else {
                TokenType::ASSIGN
            }
        } else if c == '!' {
            if self.peek_char() == '=' {
                self.read_char();
                TokenType::NEQ
            } else {
                TokenType::BANG
            }
        } else {
            match single_char_kind(c) {
                Some(k) => k,
                None => {
                    if is_alphabetic(c) {
                        let literal = self.read_ident();
                        let kind = keyword(literal.as_str());
                        return Token { kind, literal };
                    } else if is_decimal_digit(c) {
                        let literal = self.read_digit();
                        return Token { kind: TokenType::INT, literal };
                    }
                    TokenType::ILLEGAL
                },
            }
        };
        self.read_char();
        let literal = self.input.as_str().substring_char(start, self.pos).to_string();
        proof {
            if self.pos == start + 2 {
                assert(literal@ =~= seq![s[start as int], '=']);
            } else {
                assert(literal@ =~= seq![c]);
            }
        }
        Token { kind, literal }
    }
}

} // verus!
