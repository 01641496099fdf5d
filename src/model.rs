use vstd::prelude::*;
use crate::chars::{alphabetic, decimal_digit, ident_char, whitespace};
use crate::token::{keyword_kind, TokenType};

verus! {

/// The character at index `i` of `s`, or the NUL sentinel outside `s`.
pub open spec fn char_at(s: Seq<char>, i: int) -> char {
    if 0 <= i < s.len() {
        s[i]
    } else {
        '\0'
    }
}

/// The index just past the run of whitespace that starts at `i`.
pub open spec fn space_end(s: Seq<char>, i: int) -> int
    decreases s.len() - i,
{
    if 0 <= i < s.len() && whitespace(s[i]) {
        space_end(s, i + 1)
    } else {
        i
    }
}

/// The index just past the run of letters and underscores that starts at `i`.
pub open spec fn ident_end(s: Seq<char>, i: int) -> int
    decreases s.len() - i,
{
    if 0 <= i < s.len() && ident_char(s[i]) {
        ident_end(s, i + 1)
    } else {
        i
    }
}

/// The index just past the run of decimal digits that starts at `i`.
pub open spec fn digit_end(s: Seq<char>, i: int) -> int
    decreases s.len() - i,
{
    if 0 <= i < s.len() && decimal_digit(s[i]) {
        digit_end(s, i + 1)
    } else {
        i
    }
}

/// The kind of a punctuation or operator character that always stands alone.
pub open spec fn single_kind(c: char) -> Option<TokenType> {
    if c == '+' {
        Some(TokenType::PLUS)
    } else if c == '-' {
        Some(TokenType::MINUS)
    } else if c == '*' {
        Some(TokenType::ASTERISK)
    } else if c == '/' {
        Some(TokenType::SLASH)
    } else if c == '<' {
        Some(TokenType::LT)
    } else if c == '>' {
        Some(TokenType::GT)
    } else if c == ',' {
        Some(TokenType::COMMA)
    } else if c == ';' {
        Some(TokenType::SEMICOLON)
    } else if c == '(' {
        Some(TokenType::LPAREN)
    } else if c == ')' {
        Some(TokenType::RPAREN)
    } else if c == '{' {
        Some(TokenType::LBRACE)
    } else if c == '}' {
        Some(TokenType::RBRACE)
    } else {
        None
    }
}

/// One token as the model scans it: its kind, its text, and the index just
/// past it, where the next scan starts.
pub struct Lexeme {
    pub kind: TokenType,
    pub text: Seq<char>,
    pub end: int,
}

/// The token that a scan from cursor `i` of `s` produces: whitespace is
/// skipped first, then the longest match is taken.
pub open spec fn scan(s: Seq<char>, i: int) -> Lexeme {
    let j = space_end(s, i);
    if !(0 <= j < s.len()) {
        Lexeme { kind: TokenType::EOF, text: seq![], end: j }
    } else {
        let c = s[j];
        if c == '=' {
            if char_at(s, j + 1) == '=' {
                Lexeme { kind: TokenType::EQ, text: seq!['=', '='], end: j + 2 }
            } else {
                Lexeme { kind: TokenType::ASSIGN, text: seq!['='], end: j + 1 }
            }
        } else if c == '!' {
            if char_at(s, j + 1) == '=' {
                Lexeme { kind: TokenType::NEQ, text: seq!['!', '='], end: j + 2 }
            } else {
                Lexeme { kind: TokenType::BANG, text: seq!['!'], end: j + 1 }
            }
        } else if single_kind(c) is Some {
            Lexeme { kind: single_kind(c)->0, text: seq![c], end: j + 1 }
        } else if alphabetic(c) {
            let e = ident_end(s, j);
            Lexeme { kind: keyword_kind(s.subrange(j, e)), text: s.subrange(j, e), end: e }
        } else if decimal_digit(c) {
            let e = digit_end(s, j);
            Lexeme { kind: TokenType::INT, text: s.subrange(j, e), end: e }
        } else {
            Lexeme { kind: TokenType::ILLEGAL, text: seq![c], end: j + 1 }
        }
    }
}

/// The fixed spelling of a punctuation, operator or keyword kind; `None`
/// for the kinds whose text varies.
pub open spec fn spelling(k: TokenType) -> Option<Seq<char>> {
    match k {
        TokenType::ASSIGN => Some(seq!['=']),
        TokenType::PLUS => Some(seq!['+']),
        TokenType::MINUS => Some(seq!['-']),
        TokenType::BANG => Some(seq!['!']),
        TokenType::ASTERISK => Some(seq!['*']),
        TokenType::SLASH => Some(seq!['/']),
        TokenType::LT => Some(seq!['<']),
        TokenType::GT => Some(seq!['>']),
        TokenType::EQ => Some(seq!['=', '=']),
        TokenType::NEQ => Some(seq!['!', '=']),
        TokenType::COMMA => Some(seq![',']),
        TokenType::SEMICOLON => Some(seq![';']),
        TokenType::LPAREN => Some(seq!['(']),
        TokenType::RPAREN => Some(seq![')']),
        TokenType::LBRACE => Some(seq!['{']),
        TokenType::RBRACE => Some(seq!['}']),
        TokenType::FUNCTION => Some(seq!['f', 'n']),
        TokenType::LET => Some(seq!['l', 'e', 't']),
        TokenType::TRUE => Some(seq!['t', 'r', 'u', 'e']),
        TokenType::FALSE => Some(seq!['f', 'a', 'l', 's', 'e']),
        TokenType::IF => Some(seq!['i', 'f']),
        TokenType::ELSE => Some(seq!['e', 'l', 's', 'e']),
        TokenType::RETURN => Some(seq!['r', 'e', 't', 'u', 'r', 'n']),
        _ => None,
    }
}

/// The cursor after `n` successive scans from cursor `i`.
pub open spec fn cursor_after(s: Seq<char>, i: int, n: nat) -> int
    decreases n,
{
    if n == 0 {
        i
    } else {
        scan(s, cursor_after(s, i, (n - 1) as nat)).end
    }
}

/// What `n` successive scans from cursor `i` account for: before each token
/// the whitespace it skipped, then the token's text.
pub open spec fn consumed(s: Seq<char>, i: int, n: nat) -> Seq<char>
    decreases n,
{
    if n == 0 {
        seq![]
    } else {
        let t = scan(s, i);
        s.subrange(i, space_end(s, i)) + t.text + consumed(s, t.end, (n - 1) as nat)
    }
}

proof fn lemma_space_end(s: Seq<char>, i: int)
    requires
        0 <= i,
    ensures
        i <= space_end(s, i),
        i <= s.len() ==> space_end(s, i) <= s.len(),
        forall|k: int| i <= k < space_end(s, i) ==> whitespace(#[trigger] s[k]),
    decreases s.len() - i,
{
    if i < s.len() && whitespace(s[i]) {
        lemma_space_end(s, i + 1);
    }
}

proof fn lemma_ident_end(s: Seq<char>, i: int)
    requires
        0 <= i,
    ensures
        i <= ident_end(s, i),
        i <= s.len() ==> ident_end(s, i) <= s.len(),
    decreases s.len() - i,
{
    if i < s.len() && ident_char(s[i]) {
        lemma_ident_end(s, i + 1);
    }
}

proof fn lemma_digit_end(s: Seq<char>, i: int)
    requires
        0 <= i,
    ensures
        i <= digit_end(s, i),
        i <= s.len() ==> digit_end(s, i) <= s.len(),
    decreases s.len() - i,
{
    if i < s.len() && decimal_digit(s[i]) {
        lemma_digit_end(s, i + 1);
    }
}

/// Each scan skips only whitespace, then produces a token whose text is
/// exactly the source text it covers; a punctuation, operator or keyword
/// token's text is that kind's fixed spelling. A scan produces `EOF` exactly
/// when only whitespace is left, and otherwise moves the cursor forward.
pub proof fn lemma_scan_shape(s: Seq<char>, i: int)
    requires
        0 <= i,
    ensures
        i <= space_end(s, i) <= scan(s, i).end,
        forall|k: int| i <= k < space_end(s, i) ==> whitespace(#[trigger] s[k]),
        scan(s, i).kind == TokenType::EOF <==> space_end(s, i) >= s.len(),
        scan(s, i).kind == TokenType::EOF ==> scan(s, i).end == space_end(s, i) && scan(s, i).text
            == Seq::<char>::empty(),
        scan(s, i).kind != TokenType::EOF ==> i < scan(s, i).end <= s.len(),
        scan(s, i).kind != TokenType::EOF ==> scan(s, i).text == s.subrange(
            space_end(s, i),
            scan(s, i).end,
        ),
        spelling(scan(s, i).kind) is Some ==> scan(s, i).text == spelling(scan(s, i).kind)->0,
{
    lemma_space_end(s, i);
    let j = space_end(s, i);
    let t = scan(s, i);
    if 0 <= j < s.len() {
        let c = s[j];
        if c == '=' || c == '!' {
            if char_at(s, j + 1) == '=' {
                assert(t.text =~= s.subrange(j, j + 2));
            } else {
                assert(t.text =~= s.subrange(j, j + 1));
            }
        } else if single_kind(c) is Some {
            assert(t.text =~= s.subrange(j, j + 1));
        } else if alphabetic(c) {
            lemma_ident_end(s, j + 1);
        } else if decimal_digit(c) {
            lemma_digit_end(s, j + 1);
        } else {
            assert(t.text =~= s.subrange(j, j + 1));
        }
    }
}

/// The end of input is a fixed point: a scan that produces `EOF` leaves the
/// cursor where the next scan produces the same `EOF` again.
pub proof fn lemma_end_is_fixed(s: Seq<char>, i: int)
    requires
        0 <= i,
        scan(s, i).kind == TokenType::EOF,
    ensures
        scan(s, scan(s, i).end) == scan(s, i),
{
    lemma_scan_shape(s, i);
    lemma_space_end(s, scan(s, i).end);
}

proof fn lemma_progress(s: Seq<char>, i: int, n: nat)
    requires
        0 <= i,
    ensures
        i <= cursor_after(s, i, n),
        scan(s, cursor_after(s, i, n)).kind == TokenType::EOF || i + n <= cursor_after(s, i, n),
    decreases n,
{
    if n > 0 {
        let c = cursor_after(s, i, (n - 1) as nat);
        lemma_progress(s, i, (n - 1) as nat);
        lemma_scan_shape(s, c);
        if scan(s, c).kind == TokenType::EOF {
            lemma_end_is_fixed(s, c);
        }
    }
}

/// Scanning always reaches the end of input, and stays there: from cursor
/// `i`, every scan after as many scans as there are characters left
/// produces `EOF`.
pub proof fn lemma_scan_reaches_end(s: Seq<char>, i: int, n: nat)
    requires
        0 <= i,
        s.len() <= i + n,
    ensures
        scan(s, cursor_after(s, i, n)).kind == TokenType::EOF,
{
    lemma_progress(s, i, n);
    let c = cursor_after(s, i, n);
    lemma_scan_shape(s, c);
}

proof fn lemma_consumed_at_end(s: Seq<char>, n: nat)
    ensures
        consumed(s, s.len() as int, n) == Seq::<char>::empty(),
    decreases n,
{
    if n > 0 {
        lemma_scan_shape(s, s.len() as int);
        lemma_consumed_at_end(s, (n - 1) as nat);
        assert(s.subrange(s.len() as int, s.len() as int) =~= Seq::<char>::empty());
        assert(consumed(s, s.len() as int, n) =~= Seq::<char>::empty());
    }
}

/// Scanning loses and duplicates nothing: the whitespace skipped and the
/// token texts produced from cursor `i` up to the end of input, put back
/// together in order, are exactly the input from `i` on.
pub proof fn lemma_scan_covers_input(s: Seq<char>, i: int, n: nat)
    requires
        0 <= i <= s.len(),
        s.len() < i + n,
    ensures
        consumed(s, i, n) == s.subrange(i, s.len() as int),
    decreases n,
{
    let j = space_end(s, i);
    let t = scan(s, i);
    lemma_scan_shape(s, i);
    lemma_space_end(s, i);
    if t.kind == TokenType::EOF {
        lemma_consumed_at_end(s, (n - 1) as nat);
    } else {
        lemma_scan_covers_input(s, t.end, (n - 1) as nat);
    }
    assert(consumed(s, i, n) =~= s.subrange(i, s.len() as int));
}

} // verus!
