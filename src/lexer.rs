use vstd::prelude::*;

verus! {

/// Keywords of DreamQL; matched without regard to ASCII case.
#[derive(Clone, Copy, Debug, PartialEq, Eq, Structural)]
pub enum Keyword {
    Select,
    From,
    Where,
    And,
    Or,
    Not,
    As,
}

/// Comparison operators.
#[derive(Clone, Copy, Debug, PartialEq, Eq, Structural)]
pub enum CmpOp {
    Eq,
    Ne,
    Lt,
    Le,
    Gt,
    Ge,
}

#[derive(Clone, Copy, Debug, PartialEq, Eq, Structural)]
pub enum TokenKind {
    /// A bare identifier: a letter followed by letters, digits or underscores.
    Ident,
    /// An identifier written between double quotes, `""` standing for one quote.
    QuotedIdent,
    Keyword(Keyword),
    /// A run of decimal digits.
    Int,
    /// A literal between single quotes, a backslash escaping the next character.
    Str,
    Op(CmpOp),
    Comma,
    LParen,
    RParen,
    Star,
    /// A character outside the alphabet, or a quote that is never closed.
    Error,
}

/// A token covers the characters `start..end` of the source.
#[derive(Clone, Copy, Debug, PartialEq, Eq, Structural)]
pub struct Token {
    pub kind: TokenKind,
    pub start: usize,
    pub end: usize,
}

pub open spec fn is_letter(c: char) -> bool {
    ('a' <= c && c <= 'z') || ('A' <= c && c <= 'Z')
}

pub open spec fn is_digit(c: char) -> bool {
    '0' <= c && c <= '9'
}

pub open spec fn is_ident_char(c: char) -> bool {
    is_letter(c) || is_digit(c) || c == '_'
}

pub open spec fn is_space(c: char) -> bool {
    c == ' ' || c == '\t' || c == '\n' || c == '\r'
}

pub open spec fn upper_char(c: char) -> char {
    if 'a' <= c && c <= 'z' {
        ((c as u8) - 32) as char
    } else {
        c
    }
}

pub open spec fn lower_char(c: char) -> char {
    if 'A' <= c && c <= 'Z' {
        ((c as u8) + 32) as char
    } else {
        c
    }
}

/// The keyword that the word `w` spells, ignoring ASCII case.
pub open spec fn keyword_of(w: Seq<char>) -> Option<Keyword> {
    let u = |k: int| upper_char(w[k]);
    if w.len() == 6 && u(0) == 'S' && u(1) == 'E' && u(2) == 'L' && u(3) == 'E' && u(4) == 'C'
        && u(5) == 'T' {
        Some(Keyword::Select)
    } else if w.len() == 4 && u(0) == 'F' && u(1) == 'R' && u(2) == 'O' && u(3) == 'M' {
        Some(Keyword::From)
    } else if w.len() == 5 && u(0) == 'W' && u(1) == 'H' && u(2) == 'E' && u(3) == 'R' && u(4)
        == 'E' {
        Some(Keyword::Where)
    } else if w.len() == 3 && u(0) == 'A' && u(1) == 'N' && u(2) == 'D' {
        Some(Keyword::And)
    } else if w.len() == 2 && u(0) == 'O' && u(1) == 'R' {
        Some(Keyword::Or)
    } else if w.len() == 3 && u(0) == 'N' && u(1) == 'O' && u(2) == 'T' {
        Some(Keyword::Not)
    } else if w.len() == 2 && u(0) == 'A' && u(1) == 'S' {
        Some(Keyword::As)
    } else {
        None
    }
}

/// The end of the run of characters from `j` on that satisfy `p`.
pub open spec fn scan_while(s: Seq<char>, j: int, p: spec_fn(char) -> bool) -> int
    decreases s.len() - j,
{
    if 0 <= j < s.len() && p(s[j]) {
        scan_while(s, j + 1, p)
    } else {
        j
    }
}

pub open spec fn ident_class() -> spec_fn(char) -> bool {
    |c: char| is_ident_char(c)
}

pub open spec fn digit_class() -> spec_fn(char) -> bool {
    |c: char| is_digit(c)
}

pub open spec fn not_newline() -> spec_fn(char) -> bool {
    |c: char| c != '\n'
}

/// The end of a string literal whose body starts at `j`, if it is closed.
pub open spec fn scan_str(s: Seq<char>, j: int) -> Option<int>
    decreases s.len() - j,
{
    if j < 0 || j >= s.len() {
        None
    } else if s[j] == '\\' {
        if j + 1 < s.len() {
            scan_str(s, j + 2)
        } else {
            None
        }
    } else if s[j] == '\'' {
        Some(j + 1)
    } else {
        scan_str(s, j + 1)
    }
}

/// The end of a quoted identifier whose body starts at `j`, if it is closed.
pub open spec fn scan_quoted(s: Seq<char>, j: int) -> Option<int>
    decreases s.len() - j,
{
    if j < 0 || j >= s.len() {
        None
    } else if s[j] == '"' {
        if j + 1 < s.len() && s[j + 1] == '"' {
            scan_quoted(s, j + 2)
        } else {
            Some(j + 1)
        }
    } else {
        scan_quoted(s, j + 1)
    }
}

pub open spec fn tok(kind: TokenKind, start: int, end: int) -> Token {
    Token { kind, start: start as usize, end: end as usize }
}

/// The token that starts at `i` with a one- or two-character operator or
/// punctuation, with its end; `None` where `s[i]` starts no such token.
pub open spec fn symbol_at(s: Seq<char>, i: int) -> Option<(TokenKind, int)> {
    let c = s[i];
    let next_is = |d: char| i + 1 < s.len() && s[i + 1] == d;
    if c == ',' {
        Some((TokenKind::Comma, i + 1))
    } else if c == '(' {
        Some((TokenKind::LParen, i + 1))
    } else if c == ')' {
        Some((TokenKind::RParen, i + 1))
    } else if c == '*' {
        Some((TokenKind::Star, i + 1))
    } else if c == '=' {
        Some((TokenKind::Op(CmpOp::Eq), i + 1))
    } else if c == '<' {
        if next_is('=') {
            Some((TokenKind::Op(CmpOp::Le), i + 2))
        } else if next_is('>') {
            Some((TokenKind::Op(CmpOp::Ne), i + 2))
        } else {
            Some((TokenKind::Op(CmpOp::Lt), i + 1))
        }
    } else if c == '>' {
        if next_is('=') {
            Some((TokenKind::Op(CmpOp::Ge), i + 2))
        } else {
            Some((TokenKind::Op(CmpOp::Gt), i + 1))
        }
    } else if c == '!' && next_is('=') {
        Some((TokenKind::Op(CmpOp::Ne), i + 2))
    } else {
        None
    }
}

/// The tokens of `s` from position `i` on. Whitespace and `--` comments are
/// skipped. A character outside the alphabet gives an `Error` token and
/// lexing goes on after it; an unclosed quote gives an `Error` token at the
/// quote and ends the sequence.
pub open spec fn lex_from(s: Seq<char>, i: int) -> Seq<Token>
    decreases s.len() - i,
    via lex_from_decreases
{
    if i < 0 || i >= s.len() {
        Seq::empty()
    } else {
        let c = s[i];
        if is_space(c) {
            lex_from(s, i + 1)
        } else if c == '-' && i + 1 < s.len() && s[i + 1] == '-' {
            lex_from(s, scan_while(s, i + 2, not_newline()))
        } else if is_letter(c) {
            let j = scan_while(s, i + 1, ident_class());
            let kind = match keyword_of(s.subrange(i, j)) {
                Some(k) => TokenKind::Keyword(k),
                None => TokenKind::Ident,
            };
            seq![tok(kind, i, j)] + lex_from(s, j)
        } else if is_digit(c) {
            let j = scan_while(s, i + 1, digit_class());
            seq![tok(TokenKind::Int, i, j)] + lex_from(s, j)
        } else if c == '\'' {
            match scan_str(s, i + 1) {
                Some(j) => seq![tok(TokenKind::Str, i, j)] + lex_from(s, j),
                None => seq![tok(TokenKind::Error, i, i + 1)],
            }
        } else if c == '"' {
            match scan_quoted(s, i + 1) {
                Some(j) => if j == i + 2 {
                    seq![tok(TokenKind::Error, i, i + 1)] + lex_from(s, j)
                } else {
                    seq![tok(TokenKind::QuotedIdent, i, j)] + lex_from(s, j)
                },
                None => seq![tok(TokenKind::Error, i, i + 1)],
            }
        } else {
            match symbol_at(s, i) {
                Some((kind, j)) => seq![tok(kind, i, j)] + lex_from(s, j),
                None => seq![tok(TokenKind::Error, i, i + 1)] + lex_from(s, i + 1),
            }
        }
    }
}

#[via_fn]
proof fn lex_from_decreases(s: Seq<char>, i: int) {
    if 0 <= i < s.len() {
        if i + 2 <= s.len() {
            lemma_scan_while_bounds(s, i + 2, not_newline());
        }
        lemma_scan_while_bounds(s, i + 1, ident_class());
        lemma_scan_while_bounds(s, i + 1, digit_class());
        lemma_scan_str_bounds(s, i + 1);
        lemma_scan_quoted_bounds(s, i + 1);
    }
}

pub open spec fn lex(s: Seq<char>) -> Seq<Token> {
    lex_from(s, 0)
}

pub proof fn lemma_scan_while_bounds(s: Seq<char>, j: int, p: spec_fn(char) -> bool)
    requires
        0 <= j <= s.len(),
    ensures
        j <= scan_while(s, j, p) <= s.len(),
    decreases s.len() - j,
{
    if j < s.len() && p(s[j]) {
        lemma_scan_while_bounds(s, j + 1, p);
    }
}

pub proof fn lemma_scan_str_bounds(s: Seq<char>, j: int)
    requires
        0 <= j,
    ensures
        scan_str(s, j) matches Some(e) ==> j < e <= s.len(),
    decreases s.len() - j,
{
    if 0 <= j < s.len() && s[j] == '\\' && j + 1 < s.len() {
        lemma_scan_str_bounds(s, j + 2);
    } else if 0 <= j < s.len() && s[j] != '\'' {
        lemma_scan_str_bounds(s, j + 1);
    }
}

pub proof fn lemma_scan_quoted_bounds(s: Seq<char>, j: int)
    requires
        0 <= j,
    ensures
        scan_quoted(s, j) matches Some(e) ==> j < e <= s.len(),
    decreases s.len() - j,
{
    if 0 <= j < s.len() && s[j] == '"' && j + 1 < s.len() && s[j + 1] == '"' {
        lemma_scan_quoted_bounds(s, j + 2);
    } else if 0 <= j < s.len() && s[j] != '"' {
        lemma_scan_quoted_bounds(s, j + 1);
    }
}

pub fn is_letter_exec(c: char) -> (r: bool)
    ensures
        r == is_letter(c),
{
    ('a' <= c && c <= 'z') || ('A' <= c && c <= 'Z')
}

pub fn is_digit_exec(c: char) -> (r: bool)
    ensures
        r == is_digit(c),
{
    '0' <= c && c <= '9'
}

pub fn upper_char_exec(c: char) -> (r: char)
    ensures
        r == upper_char(c),
{
    if 'a' <= c && c <= 'z' {
        ((c as u8) - 32) as char
    } else {
        c
    }
}

pub fn lower_char_exec(c: char) -> (r: char)
    ensures
        r == lower_char(c),
{
    if 'A' <= c && c <= 'Z' {
        ((c as u8) + 32) as char
    } else {
        c
    }
}

fn scan_ident_exec(s: &Vec<char>, j: usize) -> (r: usize)
    requires
        j <= s@.len(),
    ensures
        r == scan_while(s@, j as int, ident_class()),
{
    let mut k = j;
    while k < s.len() && (is_letter_exec(s[k]) || is_digit_exec(s[k]) || s[k] == '_')
        invariant
            j <= k <= s@.len(),
            scan_while(s@, j as int, ident_class()) == scan_while(s@, k as int, ident_class()),
        decreases s@.len() - k,
    {
        k = k + 1;
    }
    k
}

fn scan_digits_exec(s: &Vec<char>, j: usize) -> (r: usize)
    requires
        j <= s@.len(),
    ensures
        r == scan_while(s@, j as int, digit_class()),
{
    let mut k = j;
    while k < s.len() && is_digit_exec(s[k])
        invariant
            j <= k <= s@.len(),
            scan_while(s@, j as int, digit_class()) == scan_while(s@, k as int, digit_class()),
        decreases s@.len() - k,
    {
        k = k + 1;
    }
    k
}

fn scan_line_exec(s: &Vec<char>, j: usize) -> (r: usize)
    requires
        j <= s@.len(),
    ensures
        r == scan_while(s@, j as int, not_newline()),
{
    let mut k = j;
    while k < s.len() && s[k] != '\n'
        invariant
            j <= k <= s@.len(),
            scan_while(s@, j as int, not_newline()) == scan_while(s@, k as int, not_newline()),
        decreases s@.len() - k,
    {
        k = k + 1;
    }
    k
}

fn scan_str_exec(s: &Vec<char>, j: usize) -> (r: Option<usize>)
    requires
        j <= s@.len(),
    ensures
        r matches Some(e) ==> scan_str(s@, j as int) == Some(e as int),
        r is None ==> scan_str(s@, j as int) is None,
{
    let mut k = j;
    while k < s.len()
        invariant
            j <= k <= s@.len(),
            scan_str(s@, j as int) == scan_str(s@, k as int),
        decreases s@.len() - k,
    {
        if s[k] == '\\' {
            if k + 1 < s.len() {
                k = k + 2;
            } else {
                return None;
            }
        } else if s[k] == '\'' {
            return Some(k + 1);
        } else {
            k = k + 1;
        }
    }
    None
}

fn scan_quoted_exec(s: &Vec<char>, j: usize) -> (r: Option<usize>)
    requires
        j <= s@.len(),
    ensures
        r matches Some(e) ==> scan_quoted(s@, j as int) == Some(e as int),
        r is None ==> scan_quoted(s@, j as int) is None,
{
    let mut k = j;
    while k < s.len()
        invariant
            j <= k <= s@.len(),
            scan_quoted(s@, j as int) == scan_quoted(s@, k as int),
        decreases s@.len() - k,
    {
        if s[k] == '"' {
            if k + 1 < s.len() && s[k + 1] == '"' {
                k = k + 2;
            } else {
                return Some(k + 1);
            }
        } else {
            k = k + 1;
        }
    }
    None
}

fn keyword_exec(s: &Vec<char>, i: usize, j: usize) -> (r: Option<Keyword>)
    requires
        i <= j <= s@.len(),
    ensures
        r == keyword_of(s@.subrange(i as int, j as int)),
{
    let ghost w = s@.subrange(i as int, j as int);
    let n = j - i;
    let mut u: Vec<char> = Vec::new();
    let mut k: usize = 0;
    while k < n && k < 6
        invariant
            n == j - i,
            w == s@.subrange(i as int, j as int),
            k <= n,
            k <= 6,
            i + n <= s@.len(),
            u@.len() == k,
            forall|m: int| 0 <= m < k ==> u@[m] == upper_char(w[m]),
        decreases n - k,
    {
        u.push(upper_char_exec(s[i + k]));
        k = k + 1;
    }
    if n == 6 && u[0] == 'S' && u[1] == 'E' && u[2] == 'L' && u[3] == 'E' && u[4] == 'C' && u[5]
        == 'T' {
        Some(Keyword::Select)
    } else if n == 4 && u[0] == 'F' && u[1] == 'R' && u[2] == 'O' && u[3] == 'M' {
        Some(Keyword::From)
    } else if n == 5 && u[0] == 'W' && u[1] == 'H' && u[2] == 'E' && u[3] == 'R' && u[4] == 'E' {
        Some(Keyword::Where)
    } else if n == 3 && u[0] == 'A' && u[1] == 'N' && u[2] == 'D' {
        Some(Keyword::And)
    } else if n == 2 && u[0] == 'O' && u[1] == 'R' {
        Some(Keyword::Or)
    } else if n == 3 && u[0] == 'N' && u[1] == 'O' && u[2] == 'T' {
        Some(Keyword::Not)
    } else if n == 2 && u[0] == 'A' && u[1] == 'S' {
        Some(Keyword::As)
    } else {
        None
    }
}

fn symbol_exec(s: &Vec<char>, i: usize) -> (r: Option<(TokenKind, usize)>)
    requires
        i < s@.len(),
    ensures
        r matches Some((k, e)) ==> symbol_at(s@, i as int) == Some((k, e as int)),
        r is None ==> symbol_at(s@, i as int) is None,
{
    let c = s[i];
    let n = s.len();
    if c == ',' {
        Some((TokenKind::Comma, i + 1))
    } else if c == '(' {
        Some((TokenKind::LParen, i + 1))
    } else if c == ')' {
        Some((TokenKind::RParen, i + 1))
    } else if c == '*' {
        Some((TokenKind::Star, i + 1))
    } else if c == '=' {
        Some((TokenKind::Op(CmpOp::Eq), i + 1))
    } else if c == '<' {
        if i + 1 < n && s[i + 1] == '=' {
            Some((TokenKind::Op(CmpOp::Le), i + 2))
        } else if i + 1 < n && s[i + 1] == '>' {
            Some((TokenKind::Op(CmpOp::Ne), i + 2))
        } else {
            Some((TokenKind::Op(CmpOp::Lt), i + 1))
        }
    } else if c == '>' {
        if i + 1 < n && s[i + 1] == '=' {
            Some((TokenKind::Op(CmpOp::Ge), i + 2))
        } else {
            Some((TokenKind::Op(CmpOp::Gt), i + 1))
        }
    } else if c == '!' && i + 1 < n && s[i + 1] == '=' {
        Some((TokenKind::Op(CmpOp::Ne), i + 2))
    } else {
        None
    }
}

/// Splits the source into tokens.
pub fn tokenize(s: &Vec<char>) -> (r: Vec<Token>)
    ensures
        r@ == lex(s@),
{
    let mut out: Vec<Token> = Vec::new();
    let mut i: usize = 0;
    let n = s.len();
    while i < n
        invariant
            n == s@.len(),
            i <= n,
            lex(s@) == out@ + lex_from(s@, i as int),
        decreases n - i,
    {
        let c = s[i];
        let ghost before = out@;
        if c == ' ' || c == '\t' || c == '\n' || c == '\r' {
            i = i + 1;
        } else if c == '-' && i + 1 < n && s[i + 1] == '-' {
            proof {
                lemma_scan_while_bounds(s@, i + 2, not_newline());
            }
            i = scan_line_exec(s, i + 2);
        } else if is_letter_exec(c) {
            proof {
                lemma_scan_while_bounds(s@, i + 1, ident_class());
            }
            let j = scan_ident_exec(s, i + 1);
            let kind = match keyword_exec(s, i, j) {
                Some(k) => TokenKind::Keyword(k),
                None => TokenKind::Ident,
            };
            out.push(Token { kind, start: i, end: j });
            assert(out@ + lex_from(s@, j as int) =~= before + (seq![tok(kind, i as int, j as int)]
                + lex_from(s@, j as int)));
            i = j;
        } else if is_digit_exec(c) {
            proof {
                lemma_scan_while_bounds(s@, i + 1, digit_class());
            }
            let j = scan_digits_exec(s, i + 1);
            out.push(Token { kind: TokenKind::Int, start: i, end: j });
            assert(out@ + lex_from(s@, j as int) =~= before + (seq![
                tok(TokenKind::Int, i as int, j as int),
            ] + lex_from(s@, j as int)));
            i = j;
        } else if c == '\'' {
            proof {
                lemma_scan_str_bounds(s@, i + 1);
            }
            match scan_str_exec(s, i + 1) {
                Some(j) => {
                    out.push(Token { kind: TokenKind::Str, start: i, end: j });
                    assert(out@ + lex_from(s@, j as int) =~= before + (seq![
                        tok(TokenKind::Str, i as int, j as int),
                    ] + lex_from(s@, j as int)));
                    i = j;
                },
                None => {
                    out.push(Token { kind: TokenKind::Error, start: i, end: i + 1 });
                    assert(out@ =~= before + seq![tok(TokenKind::Error, i as int, i + 1)]);
                    return out;
                },
            }
        } else if c == '"' {
            proof {
                lemma_scan_quoted_bounds(s@, i + 1);
            }
            match scan_quoted_exec(s, i + 1) {
                Some(j) => {
                    let kind = if j == i + 2 {
                        TokenKind::Error
                    } else {
                        TokenKind::QuotedIdent
                    };
                    let e = if j == i + 2 {
                        i + 1
                    } else {
                        j
                    };
                    out.push(Token { kind, start: i, end: e });
                    assert(out@ + lex_from(s@, j as int) =~= before + (seq![
                        tok(kind, i as int, e as int),
                    ] + lex_from(s@, j as int)));
                    i = j;
                },
                None => {
                    out.push(Token { kind: TokenKind::Error, start: i, end: i + 1 });
                    assert(out@ =~= before + seq![tok(TokenKind::Error, i as int, i + 1)]);
                    return out;
                },
            }
        } else {
            match symbol_exec(s, i) {
                Some((kind, j)) => {
                    out.push(Token { kind, start: i, end: j });
                    assert(out@ + lex_from(s@, j as int) =~= before + (seq![
                        tok(kind, i as int, j as int),
                    ] + lex_from(s@, j as int)));
                    i = j;
                },
                None => {
                    out.push(Token { kind: TokenKind::Error, start: i, end: i + 1 });
                    assert(out@ + lex_from(s@, i + 1) =~= before + (seq![
                        tok(TokenKind::Error, i as int, i + 1),
                    ] + lex_from(s@, i + 1)));
                    i = i + 1;
                },
            }
        }
    }
    assert(out@ =~= out@ + lex_from(s@, i as int));
    out
}

} // verus!
