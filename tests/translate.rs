use dreamql::ast::ErrorKind;
use dreamql::config::{CaseFold, Config};
use dreamql::lexer::{tokenize, CmpOp, Keyword, TokenKind};
use dreamql::text::to_chars;
use dreamql::{dreamql_to_bigquery, translate, TranslationError};

fn ok(src: &str) -> String {
    translate(src, &Config::bigquery_default()).expect("translation should succeed")
}

fn err(src: &str) -> TranslationError {
    match translate(src, &Config::bigquery_default()) {
        Ok(out) => panic!("expected an error, got {}", out),
        Err(e) => e,
    }
}

fn config(quote: char, fold: CaseFold, max: usize, functions: &[&str]) -> Config {
    Config {
        quote_char: quote,
        case_fold: fold,
        max_input_length: max,
        allowed_functions: functions.iter().map(|f| f.to_string()).collect(),
    }
}

#[test]
fn example_select_with_filter() {
    assert_eq!(
        ok("select name, age from users where age > 18"),
        "SELECT \"name\", \"age\" FROM \"users\" WHERE \"age\" > 18"
    );
}

#[test]
fn example_missing_table() {
    let e = err("select * from");
    assert_eq!(e.kind, ErrorKind::Syntax);
    assert_eq!(e.message, "expected a table name");
    assert_eq!((e.line, e.column), (1, 14));
}

#[test]
fn example_unknown_function() {
    let e = err("select unknownFn(x) from t");
    assert_eq!(e.kind, ErrorKind::Semantic);
    assert_eq!(e.message, "function not allowed");
    assert_eq!((e.line, e.column), (1, 8));
}

#[test]
fn length_cap_boundary() {
    let src = "select a from t";
    let n = src.chars().count();
    let at_cap = config('"', CaseFold::Keep, n, &[]);
    assert_eq!(translate(src, &at_cap).unwrap(), "SELECT \"a\" FROM \"t\"");
    let below = config('"', CaseFold::Keep, n - 1, &[]);
    let e = translate(src, &below).unwrap_err();
    assert_eq!(e.kind, ErrorKind::InputTooLarge);
    assert_eq!((e.line, e.column), (1, n));
}

#[test]
fn too_large_before_lexing() {
    let cfg = config('"', CaseFold::Keep, 3, &[]);
    let e = translate("#### not even lexable", &cfg).unwrap_err();
    assert_eq!(e.kind, ErrorKind::InputTooLarge);
}

#[test]
fn deterministic_output() {
    let src = "select count(id) as n, name from people where age >= 21 and not name = 'x'";
    let cfg = Config::bigquery_default();
    assert_eq!(translate(src, &cfg).unwrap(), translate(src, &cfg).unwrap());
}

#[test]
fn reparse_is_stable() {
    let sources = [
        "select name, age from users where age > 18",
        "select a from t where (a = 1 or b = 2) and not c = 'it\\'s'",
        "select count(id) as n from t where a = 1 or (b = 2 or c = 3)",
        "select \"we\"\"ird\" from \"select\" where x <> 'a\\'b'",
    ];
    for src in sources.iter() {
        let once = ok(src);
        let twice = ok(&once);
        assert_eq!(once, twice);
        assert_eq!(ok(&twice), twice);
    }
}

#[test]
fn reserved_words_are_quoted() {
    assert_eq!(
        ok("select \"select\", \"from\" from \"where\""),
        "SELECT \"select\", \"from\" FROM \"where\""
    );
    assert_eq!(ok("select \"order\" from \"group\""), "SELECT \"order\" FROM \"group\"");
}

#[test]
fn star_projection() {
    assert_eq!(ok("SELECT * FROM t"), "SELECT * FROM \"t\"");
}

#[test]
fn precedence_without_parentheses() {
    assert_eq!(
        ok("select a from t where a = 1 or b = 2 and not c = 3"),
        "SELECT \"a\" FROM \"t\" WHERE \"a\" = 1 OR \"b\" = 2 AND NOT \"c\" = 3"
    );
}

#[test]
fn parentheses_kept_where_needed() {
    assert_eq!(
        ok("select a from t where (a = 1 or b = 2) and c = 3"),
        "SELECT \"a\" FROM \"t\" WHERE (\"a\" = 1 OR \"b\" = 2) AND \"c\" = 3"
    );
    assert_eq!(
        ok("select a from t where a = 1 or (b = 2 or c = 3)"),
        "SELECT \"a\" FROM \"t\" WHERE \"a\" = 1 OR (\"b\" = 2 OR \"c\" = 3)"
    );
    assert_eq!(
        ok("select a from t where ((a = 1))"),
        "SELECT \"a\" FROM \"t\" WHERE \"a\" = 1"
    );
    assert_eq!(
        ok("select a from t where not (a = 1 and b = 2)"),
        "SELECT \"a\" FROM \"t\" WHERE NOT (\"a\" = 1 AND \"b\" = 2)"
    );
}

#[test]
fn all_comparison_operators() {
    assert_eq!(
        ok("select a from t where a = 1 and b != 2 and c <> 3 and d < 4 and e <= 5 and f >= 6"),
        "SELECT \"a\" FROM \"t\" WHERE \"a\" = 1 AND \"b\" <> 2 AND \"c\" <> 3 AND \"d\" < 4 AND \"e\" <= 5 AND \"f\" >= 6"
    );
}

#[test]
fn string_literals_are_escaped() {
    assert_eq!(
        ok("select a from t where name = 'O\\'Brien\\\\'"),
        "SELECT \"a\" FROM \"t\" WHERE \"name\" = 'O\\'Brien\\\\'"
    );
}

#[test]
fn quote_inside_identifier_is_doubled() {
    assert_eq!(ok("select \"a\"\"b\" from t"), "SELECT \"a\"\"b\" FROM \"t\"");
}

#[test]
fn backtick_quote_and_lower_fold() {
    let cfg = config('`', CaseFold::Lower, 100, &["count"]);
    assert_eq!(
        translate("select Name, COUNT(Id) as Total from Users", &cfg).unwrap(),
        "SELECT `name`, COUNT(`id`) AS `total` FROM `users`"
    );
}

#[test]
fn upper_fold() {
    let cfg = config('"', CaseFold::Upper, 100, &[]);
    assert_eq!(translate("select name from users", &cfg).unwrap(), "SELECT \"NAME\" FROM \"USERS\"");
}

#[test]
fn function_call_with_alias_and_arguments() {
    assert_eq!(
        ok("select coalesce(a, 'none', 0) as c from t"),
        "SELECT COALESCE(\"a\", 'none', 0) AS \"c\" FROM \"t\""
    );
    assert_eq!(ok("select count() as n from t"), "SELECT COUNT() AS \"n\" FROM \"t\"");
}

#[test]
fn function_in_filter_must_be_allowed() {
    assert_eq!(
        ok("select a from t where lower(a) = 'x'"),
        "SELECT \"a\" FROM \"t\" WHERE LOWER(\"a\") = 'x'"
    );
    let e = err("select a from t where nope(a) = 'x'");
    assert_eq!(e.kind, ErrorKind::Semantic);
    assert_eq!((e.line, e.column), (1, 23));
}

#[test]
fn duplicate_fields_rejected_unless_aliased() {
    let e = err("select a, b, a from t");
    assert_eq!(e.kind, ErrorKind::Semantic);
    assert_eq!(e.message, "duplicate projected field");
    assert_eq!((e.line, e.column), (1, 14));
    assert_eq!(ok("select a, a as b from t"), "SELECT \"a\", \"a\" AS \"b\" FROM \"t\"");
}

#[test]
fn duplicates_compared_after_folding() {
    let cfg = config('"', CaseFold::Lower, 100, &[]);
    let e = translate("select a, A from t", &cfg).unwrap_err();
    assert_eq!(e.kind, ErrorKind::Semantic);
    assert_eq!(ok("select a, A from t"), "SELECT \"a\", \"A\" FROM \"t\"");
}

#[test]
fn integer_compared_with_string_rejected() {
    let e = err("select a from t where 1 = 'x'");
    assert_eq!(e.kind, ErrorKind::Semantic);
    assert_eq!(e.message, "integer compared with string");
    let e = err("select a from t where 'x' < 2");
    assert_eq!(e.kind, ErrorKind::Semantic);
    assert_eq!(ok("select a from t where a = 'x'"), "SELECT \"a\" FROM \"t\" WHERE \"a\" = 'x'");
}

#[test]
fn trailing_tokens_rejected() {
    let e = err("select a from b extra");
    assert_eq!(e.kind, ErrorKind::Syntax);
    assert_eq!(e.message, "expected the end of the query");
    assert_eq!((e.line, e.column), (1, 17));
}

#[test]
fn unknown_character_is_a_lex_error() {
    let e = err("select a from b; extra");
    assert_eq!(e.kind, ErrorKind::Lex);
    assert_eq!(e.message, "unknown character");
    assert_eq!((e.line, e.column), (1, 16));
}

#[test]
fn unclosed_string_is_a_lex_error() {
    let e = err("select a from t where a = 'abc");
    assert_eq!(e.kind, ErrorKind::Lex);
    assert_eq!(e.message, "unclosed quote or empty quoted identifier");
    assert_eq!((e.line, e.column), (1, 27));
}

#[test]
fn empty_quoted_identifier_is_a_lex_error() {
    let e = err("select \"\" from t");
    assert_eq!(e.kind, ErrorKind::Lex);
}

#[test]
fn empty_input() {
    let e = err("");
    assert_eq!(e.kind, ErrorKind::Syntax);
    assert_eq!(e.message, "expected SELECT");
    assert_eq!((e.line, e.column), (1, 1));
}

#[test]
fn positions_count_lines() {
    let e = err("select a\nfrom\n");
    assert_eq!(e.kind, ErrorKind::Syntax);
    assert_eq!((e.line, e.column), (3, 1));
    let e = err("select a\n  from t where");
    assert_eq!((e.line, e.column), (2, 15));
}

#[test]
fn missing_pieces_are_syntax_errors() {
    assert_eq!(err("select from t").message, "expected a field name");
    assert_eq!(err("select a t").message, "expected FROM");
    assert_eq!(err("select a as from t").message, "expected an alias after AS");
    assert_eq!(err("select a from t where a").message, "expected a comparison operator");
    assert_eq!(err("select a from t where a = ").message, "expected an operand");
    assert_eq!(err("select a from t where (a = 1").message, "expected )");
    assert_eq!(err("select count(a from t").message, "expected )");
    assert_eq!(err("from t").message, "expected SELECT");
}

#[test]
fn comments_and_whitespace_skipped() {
    assert_eq!(
        ok("select a -- the field\n\tfrom t\r\n"),
        "SELECT \"a\" FROM \"t\""
    );
}

#[test]
fn keywords_ignore_case() {
    assert_eq!(ok("SeLeCt a FrOm t WhErE a = 1 AnD b = 2"), "SELECT \"a\" FROM \"t\" WHERE \"a\" = 1 AND \"b\" = 2");
}

#[test]
fn tokens_of_a_query() {
    let s = to_chars("select a,'x' from t where b<=10");
    let t = tokenize(&s);
    let kinds: Vec<TokenKind> = t.iter().map(|k| k.kind).collect();
    assert_eq!(
        kinds,
        vec![
            TokenKind::Keyword(Keyword::Select),
            TokenKind::Ident,
            TokenKind::Comma,
            TokenKind::Str,
            TokenKind::Keyword(Keyword::From),
            TokenKind::Ident,
            TokenKind::Keyword(Keyword::Where),
            TokenKind::Ident,
            TokenKind::Op(CmpOp::Le),
            TokenKind::Int,
        ]
    );
    assert_eq!((t[3].start, t[3].end), (9, 12));
    assert_eq!((t[9].start, t[9].end), (29, 31));
}

#[test]
fn to_chars_keeps_every_character() {
    assert_eq!(to_chars("añb"), vec!['a', 'ñ', 'b']);
}

#[test]
fn facade_string_on_success() {
    assert_eq!(
        dreamql_to_bigquery("select name from users"),
        "SELECT \"name\" FROM \"users\""
    );
}

#[test]
fn facade_string_on_failure() {
    assert_eq!(
        dreamql_to_bigquery("select * from"),
        "syntax error: expected a table name at line 1, column 14"
    );
    assert_eq!(
        dreamql_to_bigquery("select a from t\n\n\n\n\n\n\n\n\nwhere a = 1 ?"),
        "lex error: unknown character at line 10, column 13"
    );
}

#[test]
fn default_config_values() {
    let c = Config::bigquery_default();
    assert_eq!(c.quote_char, '"');
    assert_eq!(c.case_fold, CaseFold::Keep);
    assert_eq!(c.max_input_length, 65536);
    assert_eq!(c.allowed_functions.len(), 10);
}
