//! Properties of the whole translation, stated over its spec functions.
use vstd::prelude::*;
use crate::ast::{diag, AtomV, Diag, ErrorKind, FilterV, ItemV, OperandV, ProjectionV, QueryV, Reason};
use crate::config::CaseFold;
use crate::emitter::{filter_sql, ident_sql, item_sql, items_sql, query_sql};
use crate::lexer::lex;
use crate::parser::parse_query;
use crate::validator::{filter_error, items_error_from, operand_error, query_error};
use crate::{lex_error_from, pipeline, too_large, translation};

verus! {

proof fn lemma_operand_error_kind(allowed: Seq<Seq<char>>, o: OperandV)
    ensures
        operand_error(allowed, o) matches Some(d) ==> d.kind == ErrorKind::Semantic,
{
}

proof fn lemma_filter_error_kind(allowed: Seq<Seq<char>>, x: FilterV)
    ensures
        filter_error(allowed, x) matches Some(d) ==> d.kind == ErrorKind::Semantic,
    decreases x,
{
    match x {
        FilterV::Cmp { lhs, rhs, .. } => {
            lemma_operand_error_kind(allowed, lhs);
            lemma_operand_error_kind(allowed, rhs);
        },
        FilterV::Not(y) => lemma_filter_error_kind(allowed, *y),
        FilterV::And(l, r) => {
            lemma_filter_error_kind(allowed, *l);
            lemma_filter_error_kind(allowed, *r);
        },
        FilterV::Or(l, r) => {
            lemma_filter_error_kind(allowed, *l);
            lemma_filter_error_kind(allowed, *r);
        },
    }
}

proof fn lemma_items_error_kind(f: CaseFold, allowed: Seq<Seq<char>>, items: Seq<ItemV>, k: int)
    ensures
        items_error_from(f, allowed, items, k) matches Some(d) ==> d.kind == ErrorKind::Semantic,
    decreases items.len() - k,
{
    if 0 <= k < items.len() {
        lemma_operand_error_kind(allowed, items[k].expr);
        lemma_items_error_kind(f, allowed, items, k + 1);
    }
}

/// Every error that validation finds is a semantic one.
pub proof fn lemma_query_error_kind(f: CaseFold, allowed: Seq<Seq<char>>, q: QueryV)
    ensures
        query_error(f, allowed, q) matches Some(d) ==> d.kind == ErrorKind::Semantic,
{
    if let ProjectionV::Items(v) = q.projection {
        lemma_items_error_kind(f, allowed, v, 0);
    }
    if let Some(x) = q.filter {
        lemma_filter_error_kind(allowed, x);
    }
}

/// A source under the length cap that lexes and parses translates exactly
/// when it passes validation; otherwise the error is a semantic one.
pub proof fn lemma_valid_syntax_ok_iff_semantic(
    s: Seq<char>,
    quote: char,
    fold: CaseFold,
    max: usize,
    allowed: Seq<Seq<char>>,
)
    requires
        !too_large(s, max),
        lex_error_from(s, lex(s), 0) is None,
        parse_query(s, lex(s)) is Ok,
    ensures
        translation(s, quote, fold, max, allowed) is Ok <==> query_error(
            fold,
            allowed,
            parse_query(s, lex(s))->Ok_0,
        ) is None,
        translation(s, quote, fold, max, allowed) matches Err(d) ==> d.kind == ErrorKind::Semantic,
{
    lemma_query_error_kind(fold, allowed, parse_query(s, lex(s))->Ok_0);
}

/// The same source and the same configuration give the same result.
pub proof fn lemma_translation_deterministic(
    s1: Seq<char>,
    s2: Seq<char>,
    quote: char,
    fold: CaseFold,
    max: usize,
    allowed: Seq<Seq<char>>,
)
    requires
        s1 == s2,
    ensures
        translation(s1, quote, fold, max, allowed) == translation(s2, quote, fold, max, allowed),
{
}

/// A source of exactly the cap's length goes on to lexing and the later
/// stages; one character more is refused as too large, at the cap, whatever
/// it holds and before any lexing.
pub proof fn lemma_length_boundary(
    s: Seq<char>,
    quote: char,
    fold: CaseFold,
    max: usize,
    allowed: Seq<Seq<char>>,
)
    requires
        max < usize::MAX - 1,
    ensures
        s.len() == max ==> translation(s, quote, fold, max, allowed) == pipeline(
            s,
            quote,
            fold,
            allowed,
        ),
        s.len() == max + 1 ==> translation(s, quote, fold, max, allowed) == Err::<Seq<char>, Diag>(
            diag(ErrorKind::InputTooLarge, Reason::TooLarge, max as int),
        ),
{
}

proof fn lemma_items_sql_holds(q: char, f: CaseFold, v: Seq<ItemV>, k: int)
    requires
        0 <= k < v.len(),
    ensures
        exists|a: Seq<char>, b: Seq<char>| items_sql(q, f, v) == a + item_sql(q, f, v[k]) + b,
    decreases v.len(),
{
    if v.len() == 1 {
        assert(items_sql(q, f, v) == Seq::<char>::empty() + item_sql(q, f, v[k]) + Seq::<char>::empty());
    } else if k == v.len() - 1 {
        let a = items_sql(q, f, v.drop_last()) + ", "@;
        assert(items_sql(q, f, v) == a + item_sql(q, f, v[k]) + Seq::<char>::empty());
    } else {
        lemma_items_sql_holds(q, f, v.drop_last(), k);
        let (a, b) = choose|a: Seq<char>, b: Seq<char>|
            items_sql(q, f, v.drop_last()) == a + item_sql(q, f, v.drop_last()[k]) + b;
        let b2 = b + ", "@ + item_sql(q, f, v.last());
        assert(items_sql(q, f, v) =~= a + item_sql(q, f, v[k]) + b2);
    }
}

/// The table name is written between quote characters, whatever its
/// spelling, reserved words included.
pub proof fn lemma_table_quoted(q: char, f: CaseFold, x: QueryV)
    ensures
        ident_sql(q, f, x.table)[0] == q,
        ident_sql(q, f, x.table).last() == q,
        exists|a: Seq<char>, b: Seq<char>|
            query_sql(q, f, x) == a + " FROM "@ + ident_sql(q, f, x.table) + b,
{
    let (a, b) = query_parts(q, f, x);
    assert(query_sql(q, f, x) == a + " FROM "@ + ident_sql(q, f, x.table) + b);
}

spec fn proj_sql(q: char, f: CaseFold, x: QueryV) -> Seq<char> {
    match x.projection {
        ProjectionV::Star => "*"@,
        ProjectionV::Items(v) => items_sql(q, f, v),
    }
}

spec fn tail_sql(q: char, f: CaseFold, x: QueryV) -> Seq<char> {
    match x.filter {
        Some(y) => " WHERE "@ + filter_sql(q, f, y, 0),
        None => Seq::<char>::empty(),
    }
}

proof fn query_parts(q: char, f: CaseFold, x: QueryV) -> (r: (Seq<char>, Seq<char>))
    ensures
        query_sql(q, f, x) == r.0 + " FROM "@ + ident_sql(q, f, x.table) + r.1,
        r.0 == "SELECT "@ + proj_sql(q, f, x),
        r.1 == tail_sql(q, f, x),
{
    let a = "SELECT "@ + proj_sql(q, f, x);
    let b = tail_sql(q, f, x);
    assert(query_sql(q, f, x) =~= a + " FROM "@ + ident_sql(q, f, x.table) + b);
    (a, b)
}

/// A projected field is written between quote characters, whatever its
/// spelling, reserved words included.
pub proof fn lemma_field_quoted(q: char, f: CaseFold, x: QueryV, k: int, n: Seq<char>)
    requires
        x.projection is Items,
        0 <= k < x.projection->Items_0.len(),
        x.projection->Items_0[k].expr == OperandV::Atom(AtomV::Field(n)),
    ensures
        exists|a: Seq<char>, b: Seq<char>| query_sql(q, f, x) == a + ident_sql(q, f, n) + b,
{
    let v = x.projection->Items_0;
    let (a0, b0) = query_parts(q, f, x);
    lemma_items_sql_holds(q, f, v, k);
    let (a, b) = choose|a: Seq<char>, b: Seq<char>|
        items_sql(q, f, v) == a + item_sql(q, f, v[k]) + b;
    let b1 = match v[k].alias {
        Some(al) => " AS "@ + ident_sql(q, f, al),
        None => Seq::<char>::empty(),
    };
    assert(item_sql(q, f, v[k]) =~= ident_sql(q, f, n) + b1);
    let a2 = "SELECT "@ + a;
    let b2 = b1 + b + " FROM "@ + ident_sql(q, f, x.table) + b0;
    assert(query_sql(q, f, x) =~= a2 + ident_sql(q, f, n) + b2);
}

} // verus!
