//! Translation of DreamQL queries into BigQuery Standard SQL.
//!
//! A query passes through four stages: the lexer splits the source into
//! tokens, the parser builds a `SelectQuery`, the validator checks it against
//! the configuration, and the emitter writes it out. Each stage is an exec
//! function proved equal to a spec function of the same stage; `translate`
//! is proved equal to their composition, `translation`.
use vstd::prelude::*;

pub mod ast;
pub mod config;
pub mod emitter;
pub mod laws;
pub mod lexer;
pub mod parser;
pub mod text;
pub mod validator;

use crate::ast::{diag, Diag, ErrorKind, Reason};
use crate::config::{CaseFold, Config};
use crate::emitter::{emit, query_sql};
use crate::lexer::{lex, tokenize, Token, TokenKind};
use crate::parser::{lemma_lex_wf, parse, parse_query, tokens_wf};
use crate::text::{decimal, push_decimal, to_chars};
use crate::validator::{names_view, query_error, validate};

verus! {

/// A failure, with the stage it came from and where in the source it lies.
#[derive(Debug)]
pub struct TranslationError {
    pub kind: ErrorKind,
    pub message: String,
    /// Counted from 1.
    pub line: usize,
    /// Counted from 1, in characters.
    pub column: usize,
}

/// Line and column, both from 1, of character offset `pos`; an offset past
/// the end counts as the end.
pub open spec fn line_col(s: Seq<char>, pos: int) -> (int, int)
    decreases pos,
{
    if pos > s.len() {
        line_col(s, s.len() as int)
    } else if pos <= 0 {
        (1, 1)
    } else {
        let (l, c) = line_col(s, pos - 1);
        if s[pos - 1] == '\n' {
            (l + 1, 1)
        } else {
            (l, c + 1)
        }
    }
}

/// Too long for the configured cap, or for the machine.
pub open spec fn too_large(s: Seq<char>, max: usize) -> bool {
    s.len() > max || s.len() >= usize::MAX
}

pub open spec fn too_large_pos(s: Seq<char>, max: usize) -> int {
    if s.len() > max {
        max as int
    } else {
        s.len() - 1
    }
}

/// The first `Error` token from `k` on, as a diagnostic.
pub open spec fn lex_error_from(s: Seq<char>, t: Seq<Token>, k: int) -> Option<Diag>
    decreases t.len() - k,
{
    if k < 0 || k >= t.len() {
        None
    } else if t[k].kind == TokenKind::Error {
        let c = s[t[k].start as int];
        let r = if c == '\'' || c == '"' {
            Reason::BadQuote
        } else {
            Reason::UnknownCharacter
        };
        Some(diag(ErrorKind::Lex, r, t[k].start as int))
    } else {
        lex_error_from(s, t, k + 1)
    }
}

/// Lexing, parsing, validation and emission, stopping at the first failure.
pub open spec fn pipeline(
    s: Seq<char>,
    quote: char,
    fold: CaseFold,
    allowed: Seq<Seq<char>>,
) -> Result<Seq<char>, Diag> {
    let t = lex(s);
    match lex_error_from(s, t, 0) {
        Some(d) => Err(d),
        None => match parse_query(s, t) {
            Err(d) => Err(d),
            Ok(q) => match query_error(fold, allowed, q) {
                Some(d) => Err(d),
                None => Ok(query_sql(quote, fold, q)),
            },
        },
    }
}

/// The whole translation: the length guard, then the pipeline.
pub open spec fn translation(
    s: Seq<char>,
    quote: char,
    fold: CaseFold,
    max: usize,
    allowed: Seq<Seq<char>>,
) -> Result<Seq<char>, Diag> {
    if too_large(s, max) {
        Err(diag(ErrorKind::InputTooLarge, Reason::TooLarge, too_large_pos(s, max)))
    } else {
        pipeline(s, quote, fold, allowed)
    }
}

pub open spec fn translation_with(s: Seq<char>, c: Config) -> Result<Seq<char>, Diag> {
    translation(s, c.quote_char, c.case_fold, c.max_input_length, c.allowed_names())
}

pub open spec fn reason_text(r: Reason) -> Seq<char> {
    match r {
        Reason::UnknownCharacter => "unknown character"@,
        Reason::BadQuote => "unclosed quote or empty quoted identifier"@,
        Reason::ExpectedSelect => "expected SELECT"@,
        Reason::ExpectedField => "expected a field name"@,
        Reason::ExpectedFrom => "expected FROM"@,
        Reason::ExpectedTable => "expected a table name"@,
        Reason::ExpectedAlias => "expected an alias after AS"@,
        Reason::ExpectedOperand => "expected an operand"@,
        Reason::ExpectedComparison => "expected a comparison operator"@,
        Reason::ExpectedClosingParen => "expected )"@,
        Reason::ExpectedEnd => "expected the end of the query"@,
        Reason::DuplicateField => "duplicate projected field"@,
        Reason::UnknownFunction => "function not allowed"@,
        Reason::TypeMismatch => "integer compared with string"@,
        Reason::TooLarge => "input longer than the configured maximum"@,
    }
}

/// The error that a diagnostic becomes for the caller.
pub open spec fn reports(e: TranslationError, s: Seq<char>, d: Diag) -> bool {
    &&& e.kind == d.kind
    &&& e.message@ == reason_text(d.reason)
    &&& (e.line as int, e.column as int) == line_col(s, d.pos as int)
}

pub fn reason_message(r: Reason) -> (m: String)
    ensures
        m@ == reason_text(r),
{
    match r {
        Reason::UnknownCharacter => "unknown character".to_owned(),
        Reason::BadQuote => "unclosed quote or empty quoted identifier".to_owned(),
        Reason::ExpectedSelect => "expected SELECT".to_owned(),
        Reason::ExpectedField => "expected a field name".to_owned(),
        Reason::ExpectedFrom => "expected FROM".to_owned(),
        Reason::ExpectedTable => "expected a table name".to_owned(),
        Reason::ExpectedAlias => "expected an alias after AS".to_owned(),
        Reason::ExpectedOperand => "expected an operand".to_owned(),
        Reason::ExpectedComparison => "expected a comparison operator".to_owned(),
        Reason::ExpectedClosingParen => "expected )".to_owned(),
        Reason::ExpectedEnd => "expected the end of the query".to_owned(),
        Reason::DuplicateField => "duplicate projected field".to_owned(),
        Reason::UnknownFunction => "function not allowed".to_owned(),
        Reason::TypeMismatch => "integer compared with string".to_owned(),
        Reason::TooLarge => "input longer than the configured maximum".to_owned(),
    }
}

/// Line and column of character offset `pos` of `s`.
pub fn line_col_exec(s: &Vec<char>, pos: usize) -> (r: (usize, usize))
    requires
        pos < usize::MAX || s@.len() < usize::MAX,
    ensures
        (r.0 as int, r.1 as int) == line_col(s@, pos as int),
{
    let pos = if pos > s.len() {
        s.len()
    } else {
        pos
    };
    let mut l: usize = 1;
    let mut c: usize = 1;
    let mut k: usize = 0;
    while k < pos
        invariant
            k <= pos <= s@.len(),
            pos < usize::MAX,
            (l as int, c as int) == line_col(s@, k as int),
            1 <= l,
            1 <= c,
            l + c <= k + 2,
        decreases pos - k,
    {
        if s[k] == '\n' {
            l = l + 1;
            c = 1;
        } else {
            c = c + 1;
        }
        k = k + 1;
    }
    (l, c)
}

fn report(s: &Vec<char>, d: Diag) -> (e: TranslationError)
    requires
        d.pos < usize::MAX || s@.len() < usize::MAX,
    ensures
        reports(e, s@, d),
{
    let (line, column) = line_col_exec(s, d.pos);
    TranslationError { kind: d.kind, message: reason_message(d.reason), line, column }
}

fn lex_error_exec(s: &Vec<char>, t: &Vec<Token>) -> (r: Option<Diag>)
    requires
        tokens_wf(s@, t@),
    ensures
        r == lex_error_from(s@, t@, 0),
        r matches Some(d) ==> d.pos < s@.len(),
{
    let mut k: usize = 0;
    while k < t.len()
        invariant
            k <= t@.len(),
            tokens_wf(s@, t@),
            lex_error_from(s@, t@, 0) == lex_error_from(s@, t@, k as int),
        decreases t@.len() - k,
    {
        if t[k].kind == TokenKind::Error {
            assert(crate::parser::token_wf(s@, t@[k as int]));
            let c = s[t[k].start];
            let r = if c == '\'' || c == '"' {
                Reason::BadQuote
            } else {
                Reason::UnknownCharacter
            };
            return Some(Diag { kind: ErrorKind::Lex, reason: r, pos: t[k].start });
        }
        k = k + 1;
    }
    None
}

/// The allowed function names as character vectors.
fn allowed_chars(c: &Config) -> (r: Vec<Vec<char>>)
    ensures
        names_view(r@) == c.allowed_names(),
{
    let mut out: Vec<Vec<char>> = Vec::new();
    let mut k: usize = 0;
    while k < c.allowed_functions.len()
        invariant
            k <= c.allowed_functions@.len(),
            names_view(out@) == c.allowed_names().subrange(0, k as int),
        decreases c.allowed_functions@.len() - k,
    {
        let v = to_chars(c.allowed_functions[k].as_str());
        assert(v@ == c.allowed_names()[k as int]);
        let ghost before = out@;
        out.push(v);
        assert(names_view(out@) =~= names_view(before).push(v@));
        assert(c.allowed_names().subrange(0, k + 1) =~= c.allowed_names().subrange(0, k as int).push(
            v@,
        ));
        k = k + 1;
        assert(names_view(out@) =~= c.allowed_names().subrange(0, k as int));
    }
    assert(c.allowed_names().subrange(0, k as int) =~= c.allowed_names());
    out
}

/// Translates a DreamQL query into the dialect that `config` describes, or
/// reports the first failure with its stage, cause and place.
pub fn translate(source: &str, config: &Config) -> (r: Result<String, TranslationError>)
    ensures
        match translation_with(source@, *config) {
            Ok(out) => r matches Ok(x) && x@ == out,
            Err(d) => r matches Err(e) && reports(e, source@, d),
        },
{
    let s = to_chars(source);
    let max = config.max_input_length;
    if s.len() > max || s.len() == usize::MAX {
        let pos = if s.len() > max {
            max
        } else {
            s.len() - 1
        };
        return Err(report(&s, Diag { kind: ErrorKind::InputTooLarge, reason: Reason::TooLarge, pos }));
    }
    let t = tokenize(&s);
    proof {
        lemma_lex_wf(s@);
    }
    match lex_error_exec(&s, &t) {
        Some(d) => return Err(report(&s, d)),
        None => {},
    }
    let q = match parse(&s, &t) {
        Ok(q) => q,
        Err(d) => return Err(report(&s, d)),
    };
    let allowed = allowed_chars(config);
    match validate(&q, config.case_fold, &allowed) {
        Ok(()) => {},
        Err(d) => return Err(report(&s, d)),
    }
    Ok(emit(&q, config.quote_char, config.case_fold))
}

/// The functions that `Config::bigquery_default` allows.
pub open spec fn default_allowed() -> Seq<Seq<char>> {
    seq![
        "COUNT"@,
        "SUM"@,
        "AVG"@,
        "MIN"@,
        "MAX"@,
        "LOWER"@,
        "UPPER"@,
        "LENGTH"@,
        "ABS"@,
        "COALESCE"@,
    ]
}

pub open spec fn kind_text(k: ErrorKind) -> Seq<char> {
    match k {
        ErrorKind::Lex => "lex"@,
        ErrorKind::Syntax => "syntax"@,
        ErrorKind::Semantic => "semantic"@,
        ErrorKind::InputTooLarge => "input too large"@,
    }
}

/// `<stage> error: <cause> at line <l>, column <c>`.
pub open spec fn error_text(s: Seq<char>, d: Diag) -> Seq<char> {
    let (l, c) = line_col(s, d.pos as int);
    kind_text(d.kind) + " error: "@ + reason_text(d.reason) + " at line "@ + decimal(l as nat)
        + ", column "@ + decimal(c as nat)
}

/// What `dreamql_to_bigquery` returns for the source `s`.
pub open spec fn bigquery_text(s: Seq<char>) -> Seq<char> {
    match translation(s, '"', CaseFold::Keep, 65536, default_allowed()) {
        Ok(out) => out,
        Err(d) => error_text(s, d),
    }
}

fn push_kind(out: &mut String, k: ErrorKind)
    ensures
        final(out)@ == old(out)@ + kind_text(k),
{
    match k {
        ErrorKind::Lex => out.append("lex"),
        ErrorKind::Syntax => out.append("syntax"),
        ErrorKind::Semantic => out.append("semantic"),
        ErrorKind::InputTooLarge => out.append("input too large"),
    }
}

/// Translates with the default BigQuery configuration and returns the SQL,
/// or a one-line description of the first failure.
pub fn dreamql_to_bigquery(input: &str) -> (r: String)
    ensures
        r@ == bigquery_text(input@),
{
    let config = Config::bigquery_default();
    assert(config.allowed_names() == default_allowed());
    match translate(input, &config) {
        Ok(sql) => sql,
        Err(e) => {
            let mut out = String::new();
            push_kind(&mut out, e.kind);
            out.append(" error: ");
            out.append(e.message.as_str());
            out.append(" at line ");
            push_decimal(&mut out, e.line);
            out.append(", column ");
            push_decimal(&mut out, e.column);
            out
        },
    }
}

} // verus!
