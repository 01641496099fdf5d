use vstd::prelude::*;

verus! {

/// The classification of a lexeme.
#[allow(non_camel_case_types)]
#[derive(Debug, PartialEq, Eq, Clone, Copy, Structural)]
pub enum TokenType {
    ILLEGAL,
    EOF,
    IDENT,
    INT,
    COMMA,
    SEMICOLON,
    LPAREN,
    RPAREN,
    LBRACE,
    RBRACE,
    // Operators
    ASSIGN,
    PLUS,
    MINUS,
    BANG,
    ASTERISK,
    SLASH,
    LT,
    GT,
    EQ,
    NEQ,
    // Keywords
    FUNCTION,
    LET,
    TRUE,
    FALSE,
    IF,
    ELSE,
    RETURN,
}

/// A classified lexeme: its kind and the exact text it was scanned from.
#[derive(Debug, PartialEq)]
pub struct Token {
    pub kind: TokenType,
    pub literal: String,
}

/// The kind of an identifier-shaped word: a reserved word's own kind on an
/// exact, case-sensitive match, `IDENT` otherwise.
pub open spec fn keyword_kind(word: Seq<char>) -> TokenType {
    if word == seq!['f', 'n'] {
        TokenType::FUNCTION
    } else if word == seq!['l', 'e', 't'] {
        TokenType::LET
    } else if word == seq!['t', 'r', 'u', 'e'] {
        TokenType::TRUE
    } else if word == seq!['f', 'a', 'l', 's', 'e'] {
        TokenType::FALSE
    } else if word == seq!['i', 'f'] {
        TokenType::IF
    } else if word == seq!['e', 'l', 's', 'e'] {
        TokenType::ELSE
    } else if word == seq!['r', 'e', 't', 'u', 'r', 'n'] {
        TokenType::RETURN
    } else {
        TokenType::IDENT
    }
}

/// Whether two strings hold the same characters.
fn same_text(a: &str, b: &str) -> (r: bool)
    ensures
        r == (a@ == b@),
{
    let n = a.unicode_len();
    if n != b.unicode_len() {
        return false;
    }
    let mut i: usize = 0;
    while i < n
        invariant
            n == a@.len(),
            n == b@.len(),
            i <= n,
            forall|k: int| 0 <= k < i ==> a@[k] == b@[k],
        decreases n - i,
    {
        if a.get_char(i) != b.get_char(i) {
            return false;
        }
        i = i + 1;
    }
    assert(a@ =~= b@);
    true
}

/// The reserved words, each with its kind, in the order they are looked up.
pub open spec fn reserved_words() -> Seq<(Seq<char>, TokenType)> {
    seq![
        (seq!['f', 'n'], TokenType::FUNCTION),
        (seq!['l', 'e', 't'], TokenType::LET),
        (seq!['t', 'r', 'u', 'e'], TokenType::TRUE),
        (seq!['f', 'a', 'l', 's', 'e'], TokenType::FALSE),
        (seq!['i', 'f'], TokenType::IF),
        (seq!['e', 'l', 's', 'e'], TokenType::ELSE),
        (seq!['r', 'e', 't', 'u', 'r', 'n'], TokenType::RETURN),
    ]
}

/// Each reserved word resolves to the kind listed beside it.
proof fn lemma_reserved_words()
    ensures
        reserved_words().len() == 7,
        forall|k: int|
            0 <= k < 7 ==> keyword_kind(#[trigger] reserved_words()[k].0) == reserved_words()[k].1,
{
    let rw = reserved_words();
    assert(rw[4].0[0] != rw[0].0[0]);
    assert(rw[5].0[0] != rw[2].0[0]);
    assert(forall|k: int| 0 <= k < 7 ==> keyword_kind(#[trigger] rw[k].0) == rw[k].1);
}

/// Looks a scanned word up in the table of reserved words.
pub fn keyword(ident: &str) -> (r: TokenType)
    ensures
        r == keyword_kind(ident@),
{
    let table: [(&str, TokenType); 7] = [
        ("fn", TokenType::FUNCTION),
        ("let", TokenType::LET),
        ("true", TokenType::TRUE),
        ("false", TokenType::FALSE),
        ("if", TokenType::IF),
        ("else", TokenType::ELSE),
        ("return", TokenType::RETURN),
    ];
    let ghost rw = reserved_words();
    proof {
        reveal_strlit("fn");
        reveal_strlit("let");
        reveal_strlit("true");
        reveal_strlit("false");
        reveal_strlit("if");
        reveal_strlit("else");
        reveal_strlit("return");
        lemma_reserved_words();
        assert(forall|k: int|
            0 <= k < 7 ==> (#[trigger] table@[k]).0@ =~= rw[k].0 && table@[k].1 == rw[k].1);
    }
    let mut i: usize = 0;
    while i < 7
        invariant
            i <= 7,
            rw == reserved_words(),
            rw.len() == 7,
            forall|k: int| 0 <= k < 7 ==> keyword_kind(#[trigger] rw[k].0) == rw[k].1,
            forall|k: int| 0 <= k < 7 ==> (#[trigger] table@[k]).0@ == rw[k].0 && table@[k].1 == rw[k].1,
            forall|k: int| 0 <= k < i ==> ident@ != #[trigger] rw[k].0,
        decreases 7 - i,
    {
        let (word, kind) = table[i];
        if same_text(ident, word) {
            assert(table@[i as int].0@ == rw[i as int].0);
            return kind;
        }
        i = i + 1;
    }
    assert(forall|k: int| 0 <= k < 7 ==> ident@ != #[trigger] rw[k].0);
    TokenType::IDENT
}

} // verus!
