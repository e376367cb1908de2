use vstd::prelude::*;
use crate::ast::{
    atoms_view, diag, items_view, Atom, AtomV, Diag, ErrorKind, Filter, FilterV, Item, ItemV,
    Operand, OperandV, Projection, ProjectionV, QueryV, Reason, SelectQuery,
};
use crate::lexer::{
    digit_class, ident_class, is_digit, is_letter, is_space, lemma_scan_quoted_bounds,
    lemma_scan_str_bounds, lemma_scan_while_bounds, lex, lex_from, not_newline, scan_quoted,
    scan_str, scan_while, symbol_at, Keyword, Token, TokenKind,
};

verus! {

/// A token lies inside the source; a quoted one has both its quotes.
pub open spec fn token_wf(s: Seq<char>, k: Token) -> bool {
    &&& k.start < k.end <= s.len()
    &&& (k.kind == TokenKind::Str || k.kind == TokenKind::QuotedIdent) ==> k.start + 2 <= k.end
}

pub open spec fn tokens_wf(s: Seq<char>, t: Seq<Token>) -> bool {
    forall|k: int| 0 <= k < t.len() ==> token_wf(s, #[trigger] t[k])
}

pub open spec fn kind_at(t: Seq<Token>, p: int) -> Option<TokenKind> {
    if 0 <= p < t.len() {
        Some(t[p].kind)
    } else {
        None
    }
}

pub open spec fn is_kw(t: Seq<Token>, p: int, k: Keyword) -> bool {
    kind_at(t, p) == Some(TokenKind::Keyword(k))
}

/// Where token `p` starts; past the last token, the end of the source.
pub open spec fn pos_at(s: Seq<char>, t: Seq<Token>, p: int) -> int {
    if 0 <= p < t.len() {
        t[p].start as int
    } else {
        s.len() as int
    }
}

pub open spec fn syntax(s: Seq<char>, t: Seq<Token>, p: int, r: Reason) -> Diag {
    diag(ErrorKind::Syntax, r, pos_at(s, t, p))
}

/// The body of a string literal in `j..e`, each backslash taking the next
/// character as it is.
pub open spec fn unescape(s: Seq<char>, j: int, e: int) -> Seq<char>
    decreases e - j,
{
    if j >= e {
        Seq::empty()
    } else if s[j] == '\\' && j + 1 < e {
        seq![s[j + 1]] + unescape(s, j + 2, e)
    } else {
        seq![s[j]] + unescape(s, j + 1, e)
    }
}

/// The body of a quoted identifier in `j..e`, `""` standing for `"`.
pub open spec fn unquote(s: Seq<char>, j: int, e: int) -> Seq<char>
    decreases e - j,
{
    if j >= e {
        Seq::empty()
    } else if s[j] == '"' && j + 1 < e && s[j + 1] == '"' {
        seq!['"'] + unquote(s, j + 2, e)
    } else {
        seq![s[j]] + unquote(s, j + 1, e)
    }
}

/// The name that token `p` spells, if it is an identifier.
pub open spec fn name_at(s: Seq<char>, t: Seq<Token>, p: int) -> Option<Seq<char>> {
    if 0 <= p < t.len() {
        let k = t[p];
        if k.kind == TokenKind::Ident {
            Some(s.subrange(k.start as int, k.end as int))
        } else if k.kind == TokenKind::QuotedIdent {
            Some(unquote(s, k.start + 1, k.end - 1))
        } else {
            None
        }
    } else {
        None
    }
}

pub open spec fn parse_atom(s: Seq<char>, t: Seq<Token>, p: int) -> Result<(AtomV, int), Diag> {
    match name_at(s, t, p) {
        Some(n) => Ok((AtomV::Field(n), p + 1)),
        None => if kind_at(t, p) == Some(TokenKind::Int) {
            Ok((AtomV::Int(s.subrange(t[p].start as int, t[p].end as int)), p + 1))
        } else if kind_at(t, p) == Some(TokenKind::Str) {
            Ok((AtomV::Str(unescape(s, t[p].start + 1, t[p].end - 1)), p + 1))
        } else {
            Err(syntax(s, t, p, Reason::ExpectedOperand))
        },
    }
}

/// The arguments of a call after the first, up to and past the `)`.
pub open spec fn parse_args_rest(s: Seq<char>, t: Seq<Token>, p: int, acc: Seq<AtomV>) -> Result<
    (Seq<AtomV>, int),
    Diag,
>
    decreases t.len() - p,
{
    if kind_at(t, p) == Some(TokenKind::RParen) {
        Ok((acc, p + 1))
    } else if kind_at(t, p) == Some(TokenKind::Comma) {
        match parse_atom(s, t, p + 1) {
            Ok((a, q)) => parse_args_rest(s, t, q, acc.push(a)),
            Err(e) => Err(e),
        }
    } else {
        Err(syntax(s, t, p, Reason::ExpectedClosingParen))
    }
}

/// The arguments of a call, from just after its `(`.
pub open spec fn parse_args(s: Seq<char>, t: Seq<Token>, p: int) -> Result<(Seq<AtomV>, int), Diag> {
    if kind_at(t, p) == Some(TokenKind::RParen) {
        Ok((Seq::empty(), p + 1))
    } else {
        match parse_atom(s, t, p) {
            Ok((a, q)) => parse_args_rest(s, t, q, seq![a]),
            Err(e) => Err(e),
        }
    }
}

pub open spec fn parse_operand(s: Seq<char>, t: Seq<Token>, p: int) -> Result<(OperandV, int), Diag> {
    match name_at(s, t, p) {
        Some(n) => if kind_at(t, p + 1) == Some(TokenKind::LParen) {
            match parse_args(s, t, p + 2) {
                Ok((args, q)) => Ok((OperandV::Call { name: n, args, pos: pos_at(s, t, p) }, q)),
                Err(e) => Err(e),
            }
        } else {
            Ok((OperandV::Atom(AtomV::Field(n)), p + 1))
        },
        None => match parse_atom(s, t, p) {
            Ok((a, q)) => Ok((OperandV::Atom(a), q)),
            Err(e) => Err(e),
        },
    }
}

/// `OR` binds loosest, left to right.
///
/// The filter functions call one another on the same position or a later
/// one; the checks that a returned position lies between the start and the
/// last token are what make that recursion well founded.
pub open spec fn parse_or(s: Seq<char>, t: Seq<Token>, p: int) -> Result<(FilterV, int), Diag>
    decreases t.len() - p, 5int,
{
    match parse_and(s, t, p) {
        Ok((l, q)) => if p <= q <= t.len() {
            parse_or_rest(s, t, q, l)
        } else {
            Err(syntax(s, t, q, Reason::ExpectedOperand))
        },
        Err(e) => Err(e),
    }
}

pub open spec fn parse_or_rest(s: Seq<char>, t: Seq<Token>, p: int, lhs: FilterV) -> Result<
    (FilterV, int),
    Diag,
>
    decreases t.len() - p, 4int,
{
    if is_kw(t, p, Keyword::Or) {
        match parse_and(s, t, p + 1) {
            Ok((r, q)) => if p < q <= t.len() {
                parse_or_rest(s, t, q, FilterV::Or(Box::new(lhs), Box::new(r)))
            } else {
                Err(syntax(s, t, q, Reason::ExpectedOperand))
            },
            Err(e) => Err(e),
        }
    } else {
        Ok((lhs, p))
    }
}

/// `AND` binds tighter than `OR`, left to right.
pub open spec fn parse_and(s: Seq<char>, t: Seq<Token>, p: int) -> Result<(FilterV, int), Diag>
    decreases t.len() - p, 3int,
{
    match parse_not(s, t, p) {
        Ok((l, q)) => if p <= q <= t.len() {
            parse_and_rest(s, t, q, l)
        } else {
            Err(syntax(s, t, q, Reason::ExpectedOperand))
        },
        Err(e) => Err(e),
    }
}

pub open spec fn parse_and_rest(s: Seq<char>, t: Seq<Token>, p: int, lhs: FilterV) -> Result<
    (FilterV, int),
    Diag,
>
    decreases t.len() - p, 2int,
{
    if is_kw(t, p, Keyword::And) {
        match parse_not(s, t, p + 1) {
            Ok((r, q)) => if p < q <= t.len() {
                parse_and_rest(s, t, q, FilterV::And(Box::new(lhs), Box::new(r)))
            } else {
                Err(syntax(s, t, q, Reason::ExpectedOperand))
            },
            Err(e) => Err(e),
        }
    } else {
        Ok((lhs, p))
    }
}

/// `NOT` binds tightest.
pub open spec fn parse_not(s: Seq<char>, t: Seq<Token>, p: int) -> Result<(FilterV, int), Diag>
    decreases t.len() - p, 1int,
{
    if is_kw(t, p, Keyword::Not) {
        match parse_not(s, t, p + 1) {
            Ok((x, q)) => Ok((FilterV::Not(Box::new(x)), q)),
            Err(e) => Err(e),
        }
    } else {
        parse_cmp(s, t, p)
    }
}

/// A comparison of two operands, or a filter in parentheses.
pub open spec fn parse_cmp(s: Seq<char>, t: Seq<Token>, p: int) -> Result<(FilterV, int), Diag>
    decreases t.len() - p, 0int,
{
    if kind_at(t, p) == Some(TokenKind::LParen) {
        match parse_or(s, t, p + 1) {
            Ok((f, q)) => if kind_at(t, q) == Some(TokenKind::RParen) {
                Ok((f, q + 1))
            } else {
                Err(syntax(s, t, q, Reason::ExpectedClosingParen))
            },
            Err(e) => Err(e),
        }
    } else {
        match parse_operand(s, t, p) {
            Ok((l, q)) => match kind_at(t, q) {
                Some(TokenKind::Op(op)) => match parse_operand(s, t, q + 1) {
                    Ok((r, q2)) => Ok(
                        (FilterV::Cmp { op, lhs: l, rhs: r, pos: pos_at(s, t, p) }, q2),
                    ),
                    Err(e) => Err(e),
                },
                _ => Err(syntax(s, t, q, Reason::ExpectedComparison)),
            },
            Err(e) => Err(e),
        }
    }
}

/// A projected field or call, with an optional `AS` alias.
pub open spec fn parse_item(s: Seq<char>, t: Seq<Token>, p: int) -> Result<(ItemV, int), Diag> {
    if name_at(s, t, p) is None {
        Err(syntax(s, t, p, Reason::ExpectedField))
    } else {
        match parse_operand(s, t, p) {
            Ok((e, q)) => if is_kw(t, q, Keyword::As) {
                match name_at(s, t, q + 1) {
                    Some(a) => Ok((ItemV { expr: e, alias: Some(a), pos: pos_at(s, t, p) }, q + 2)),
                    None => Err(syntax(s, t, q + 1, Reason::ExpectedAlias)),
                }
            } else {
                Ok((ItemV { expr: e, alias: None, pos: pos_at(s, t, p) }, q))
            },
            Err(e) => Err(e),
        }
    }
}

pub open spec fn parse_items_rest(s: Seq<char>, t: Seq<Token>, p: int, acc: Seq<ItemV>) -> Result<
    (Seq<ItemV>, int),
    Diag,
>
    decreases t.len() - p,
{
    if kind_at(t, p) == Some(TokenKind::Comma) {
        match parse_item(s, t, p + 1) {
            Ok((it, q)) => if p < q <= t.len() {
                parse_items_rest(s, t, q, acc.push(it))
            } else {
                Err(syntax(s, t, q, Reason::ExpectedField))
            },
            Err(e) => Err(e),
        }
    } else {
        Ok((acc, p))
    }
}

pub open spec fn parse_projection(s: Seq<char>, t: Seq<Token>, p: int) -> Result<
    (ProjectionV, int),
    Diag,
> {
    if kind_at(t, p) == Some(TokenKind::Star) {
        Ok((ProjectionV::Star, p + 1))
    } else {
        match parse_item(s, t, p) {
            Ok((it, q)) => match parse_items_rest(s, t, q, seq![it]) {
                Ok((v, q2)) => Ok((ProjectionV::Items(v), q2)),
                Err(e) => Err(e),
            },
            Err(e) => Err(e),
        }
    }
}

pub open spec fn finish(s: Seq<char>, t: Seq<Token>, p: int, q: QueryV) -> Result<QueryV, Diag> {
    if p == t.len() {
        Ok(q)
    } else {
        Err(syntax(s, t, p, Reason::ExpectedEnd))
    }
}

/// `SELECT projection FROM table [WHERE filter]`, and nothing after it.
pub open spec fn parse_query(s: Seq<char>, t: Seq<Token>) -> Result<QueryV, Diag> {
    if !is_kw(t, 0, Keyword::Select) {
        Err(syntax(s, t, 0, Reason::ExpectedSelect))
    } else {
        match parse_projection(s, t, 1) {
            Ok((projection, p)) => if !is_kw(t, p, Keyword::From) {
                Err(syntax(s, t, p, Reason::ExpectedFrom))
            } else {
                match name_at(s, t, p + 1) {
                    None => Err(syntax(s, t, p + 1, Reason::ExpectedTable)),
                    Some(table) => if is_kw(t, p + 2, Keyword::Where) {
                        match parse_or(s, t, p + 3) {
                            Ok((f, q)) => finish(s, t, q, QueryV { projection, table, filter: Some(f) }),
                            Err(e) => Err(e),
                        }
                    } else {
                        finish(s, t, p + 2, QueryV { projection, table, filter: None })
                    },
                }
            },
            Err(e) => Err(e),
        }
    }
}

/// The exec result `r` is the spec result `sp`.
pub open spec fn agrees<X: View>(r: Result<(X, usize), Diag>, sp: Result<(X::V, int), Diag>) -> bool {
    match r {
        Ok((x, q)) => sp == Ok::<(X::V, int), Diag>((x@, q as int)),
        Err(e) => sp == Err::<(X::V, int), Diag>(e),
    }
}

/// Every token that the lexer gives lies inside the source.
pub proof fn lemma_lex_from_wf(s: Seq<char>, i: int)
    requires
        0 <= i,
        s.len() <= usize::MAX,
    ensures
        tokens_wf(s, lex_from(s, i)),
    decreases s.len() - i,
{
    if i < s.len() {
        let c = s[i];
        let r = lex_from(s, i);
        if is_space(c) {
            lemma_lex_from_wf(s, i + 1);
        } else if c == '-' && i + 1 < s.len() && s[i + 1] == '-' {
            lemma_scan_while_bounds(s, i + 2, not_newline());
            lemma_lex_from_wf(s, scan_while(s, i + 2, not_newline()));
        } else if is_letter(c) {
            let j = scan_while(s, i + 1, ident_class());
            lemma_scan_while_bounds(s, i + 1, ident_class());
            lemma_lex_from_wf(s, j);
            assert(forall|k: int| 0 < k < r.len() ==> r[k] == lex_from(s, j)[k - 1]);
        } else if is_digit(c) {
            let j = scan_while(s, i + 1, digit_class());
            lemma_scan_while_bounds(s, i + 1, digit_class());
            lemma_lex_from_wf(s, j);
            assert(forall|k: int| 0 < k < r.len() ==> r[k] == lex_from(s, j)[k - 1]);
        } else if c == '\'' {
            lemma_scan_str_bounds(s, i + 1);
            if let Some(j) = scan_str(s, i + 1) {
                lemma_lex_from_wf(s, j);
                assert(forall|k: int| 0 < k < r.len() ==> r[k] == lex_from(s, j)[k - 1]);
            }
        } else if c == '"' {
            lemma_scan_quoted_bounds(s, i + 1);
            if let Some(j) = scan_quoted(s, i + 1) {
                lemma_lex_from_wf(s, j);
                assert(forall|k: int| 0 < k < r.len() ==> r[k] == lex_from(s, j)[k - 1]);
            }
        } else {
            match symbol_at(s, i) {
                Some((kind, j)) => {
                    lemma_lex_from_wf(s, j);
                    assert(forall|k: int| 0 < k < r.len() ==> r[k] == lex_from(s, j)[k - 1]);
                },
                None => {
                    lemma_lex_from_wf(s, i + 1);
                    assert(forall|k: int| 0 < k < r.len() ==> r[k] == lex_from(s, i + 1)[k - 1]);
                },
            }
        }
    }
}

pub proof fn lemma_lex_wf(s: Seq<char>)
    requires
        s.len() <= usize::MAX,
    ensures
        tokens_wf(s, lex(s)),
{
    lemma_lex_from_wf(s, 0);
}

fn kind_at_exec(t: &Vec<Token>, p: usize) -> (r: Option<TokenKind>)
    ensures
        r == kind_at(t@, p as int),
        t@.len() <= usize::MAX,
{
    if p < t.len() {
        Some(t[p].kind)
    } else {
        None
    }
}

fn is_kw_exec(t: &Vec<Token>, p: usize, k: Keyword) -> (r: bool)
    ensures
        r == is_kw(t@, p as int, k),
        t@.len() <= usize::MAX,
{
    match kind_at_exec(t, p) {
        Some(TokenKind::Keyword(k2)) => k2 == k,
        _ => false,
    }
}

fn pos_at_exec(s: &Vec<char>, t: &Vec<Token>, p: usize) -> (r: usize)
    requires
        tokens_wf(s@, t@),
    ensures
        r as int == pos_at(s@, t@, p as int),
{
    if p < t.len() {
        t[p].start
    } else {
        s.len()
    }
}

fn syntax_exec(s: &Vec<char>, t: &Vec<Token>, p: usize, r: Reason) -> (d: Diag)
    requires
        tokens_wf(s@, t@),
    ensures
        d == syntax(s@, t@, p as int, r),
{
    Diag { kind: ErrorKind::Syntax, reason: r, pos: pos_at_exec(s, t, p) }
}

/// The characters `a..b` of `s`.
pub fn substring(s: &Vec<char>, a: usize, b: usize) -> (r: Vec<char>)
    requires
        a <= b <= s@.len(),
    ensures
        r@ == s@.subrange(a as int, b as int),
{
    let mut out: Vec<char> = Vec::new();
    let mut k = a;
    while k < b
        invariant
            a <= k <= b <= s@.len(),
            out@ == s@.subrange(a as int, k as int),
        decreases b - k,
    {
        out.push(s[k]);
        k = k + 1;
        assert(out@ =~= s@.subrange(a as int, k as int));
    }
    out
}

fn unescape_exec(s: &Vec<char>, j: usize, e: usize) -> (r: Vec<char>)
    requires
        j <= e <= s@.len(),
    ensures
        r@ == unescape(s@, j as int, e as int),
{
    let mut out: Vec<char> = Vec::new();
    let mut k = j;
    while k < e
        invariant
            j <= k <= e <= s@.len(),
            unescape(s@, j as int, e as int) == out@ + unescape(s@, k as int, e as int),
        decreases e - k,
    {
        let ghost before = out@;
        let ghost k0 = k as int;
        if s[k] == '\\' && k + 1 < e {
            out.push(s[k + 1]);
            k = k + 2;
        } else {
            out.push(s[k]);
            k = k + 1;
        }
        assert(before + unescape(s@, k0, e as int) =~= out@ + unescape(s@, k as int, e as int));
    }
    assert(out@ + unescape(s@, k as int, e as int) =~= out@);
    out
}

fn unquote_exec(s: &Vec<char>, j: usize, e: usize) -> (r: Vec<char>)
    requires
        j <= e <= s@.len(),
    ensures
        r@ == unquote(s@, j as int, e as int),
{
    let mut out: Vec<char> = Vec::new();
    let mut k = j;
    while k < e
        invariant
            j <= k <= e <= s@.len(),
            unquote(s@, j as int, e as int) == out@ + unquote(s@, k as int, e as int),
        decreases e - k,
    {
        let ghost before = out@;
        let ghost k0 = k as int;
        if s[k] == '"' && k + 1 < e && s[k + 1] == '"' {
            out.push('"');
            k = k + 2;
        } else {
            out.push(s[k]);
            k = k + 1;
        }
        assert(before + unquote(s@, k0, e as int) =~= out@ + unquote(s@, k as int, e as int));
    }
    assert(out@ + unquote(s@, k as int, e as int) =~= out@);
    out
}

fn name_at_exec(s: &Vec<char>, t: &Vec<Token>, p: usize) -> (r: Option<Vec<char>>)
    requires
        tokens_wf(s@, t@),
    ensures
        match r {
            Some(v) => name_at(s@, t@, p as int) == Some(v@),
            None => name_at(s@, t@, p as int) is None,
        },
        t@.len() <= usize::MAX,
{
    if p < t.len() {
        let k = t[p];
        assert(token_wf(s@, t@[p as int]));
        if k.kind == TokenKind::Ident {
            Some(substring(s, k.start, k.end))
        } else if k.kind == TokenKind::QuotedIdent {
            Some(unquote_exec(s, k.start + 1, k.end - 1))
        } else {
            None
        }
    } else {
        None
    }
}

fn parse_atom_exec(s: &Vec<char>, t: &Vec<Token>, p: usize) -> (r: Result<(Atom, usize), Diag>)
    requires
        tokens_wf(s@, t@),
    ensures
        agrees(r, parse_atom(s@, t@, p as int)),
{
    match name_at_exec(s, t, p) {
        Some(n) => Ok((Atom::Field(n), p + 1)),
        None => {
            let k = kind_at_exec(t, p);
            if k == Some(TokenKind::Int) {
                assert(token_wf(s@, t@[p as int]));
                Ok((Atom::Int(substring(s, t[p].start, t[p].end)), p + 1))
            } else if k == Some(TokenKind::Str) {
                assert(token_wf(s@, t@[p as int]));
                Ok((Atom::Str(unescape_exec(s, t[p].start + 1, t[p].end - 1)), p + 1))
            } else {
                Err(syntax_exec(s, t, p, Reason::ExpectedOperand))
            }
        },
    }
}

fn parse_args_rest_exec(s: &Vec<char>, t: &Vec<Token>, p: usize, acc: Vec<Atom>) -> (r: Result<
    (Vec<Atom>, usize),
    Diag,
>)
    requires
        tokens_wf(s@, t@),
    ensures
        match r {
            Ok((v, q)) => parse_args_rest(s@, t@, p as int, atoms_view(acc@)) == Ok::<
                (Seq<AtomV>, int),
                Diag,
            >((atoms_view(v@), q as int)),
            Err(e) => parse_args_rest(s@, t@, p as int, atoms_view(acc@)) == Err::<
                (Seq<AtomV>, int),
                Diag,
            >(e),
        },
    decreases t@.len() - p,
{
    let k = kind_at_exec(t, p);
    if k == Some(TokenKind::RParen) {
        Ok((acc, p + 1))
    } else if k == Some(TokenKind::Comma) {
        match parse_atom_exec(s, t, p + 1) {
            Ok((a, q)) => {
                let mut acc = acc;
                let ghost old_acc = acc@;
                let ghost av = a@;
                acc.push(a);
                assert(atoms_view(acc@) =~= atoms_view(old_acc).push(av));
                parse_args_rest_exec(s, t, q, acc)
            },
            Err(e) => Err(e),
        }
    } else {
        Err(syntax_exec(s, t, p, Reason::ExpectedClosingParen))
    }
}

fn parse_args_exec(s: &Vec<char>, t: &Vec<Token>, p: usize) -> (r: Result<(Vec<Atom>, usize), Diag>)
    requires
        tokens_wf(s@, t@),
    ensures
        match r {
            Ok((v, q)) => parse_args(s@, t@, p as int) == Ok::<(Seq<AtomV>, int), Diag>(
                (atoms_view(v@), q as int),
            ),
            Err(e) => parse_args(s@, t@, p as int) == Err::<(Seq<AtomV>, int), Diag>(e),
        },
{
    if kind_at_exec(t, p) == Some(TokenKind::RParen) {
        let v: Vec<Atom> = Vec::new();
        assert(atoms_view(v@) =~= Seq::<AtomV>::empty());
        Ok((v, p + 1))
    } else {
        match parse_atom_exec(s, t, p) {
            Ok((a, q)) => {
                let ghost av = a@;
                let mut v: Vec<Atom> = Vec::new();
                v.push(a);
                assert(atoms_view(v@) =~= seq![av]);
                parse_args_rest_exec(s, t, q, v)
            },
            Err(e) => Err(e),
        }
    }
}

fn parse_operand_exec(s: &Vec<char>, t: &Vec<Token>, p: usize) -> (r: Result<(Operand, usize), Diag>)
    requires
        tokens_wf(s@, t@),
    ensures
        agrees(r, parse_operand(s@, t@, p as int)),
{
    match name_at_exec(s, t, p) {
        Some(n) => if kind_at_exec(t, p + 1) == Some(TokenKind::LParen) {
            match parse_args_exec(s, t, p + 2) {
                Ok((args, q)) => Ok((Operand::Call { name: n, args, pos: pos_at_exec(s, t, p) }, q)),
                Err(e) => Err(e),
            }
        } else {
            Ok((Operand::Atom(Atom::Field(n)), p + 1))
        },
        None => match parse_atom_exec(s, t, p) {
            Ok((a, q)) => Ok((Operand::Atom(a), q)),
            Err(e) => Err(e),
        },
    }
}

fn parse_or_exec(s: &Vec<char>, t: &Vec<Token>, p: usize) -> (r: Result<(Filter, usize), Diag>)
    requires
        tokens_wf(s@, t@),
    ensures
        agrees(r, parse_or(s@, t@, p as int)),
    decreases t@.len() - p, 5int,
{
    match parse_and_exec(s, t, p) {
        Ok((l, q)) => if p <= q && q <= t.len() {
            parse_or_rest_exec(s, t, q, l)
        } else {
            Err(syntax_exec(s, t, q, Reason::ExpectedOperand))
        },
        Err(e) => Err(e),
    }
}

fn parse_or_rest_exec(s: &Vec<char>, t: &Vec<Token>, p: usize, lhs: Filter) -> (r: Result<
    (Filter, usize),
    Diag,
>)
    requires
        tokens_wf(s@, t@),
    ensures
        agrees(r, parse_or_rest(s@, t@, p as int, lhs@)),
    decreases t@.len() - p, 4int,
{
    if is_kw_exec(t, p, Keyword::Or) {
        match parse_and_exec(s, t, p + 1) {
            Ok((r, q)) => if p < q && q <= t.len() {
                parse_or_rest_exec(s, t, q, Filter::Or(Box::new(lhs), Box::new(r)))
            } else {
                Err(syntax_exec(s, t, q, Reason::ExpectedOperand))
            },
            Err(e) => Err(e),
        }
    } else {
        Ok((lhs, p))
    }
}

fn parse_and_exec(s: &Vec<char>, t: &Vec<Token>, p: usize) -> (r: Result<(Filter, usize), Diag>)
    requires
        tokens_wf(s@, t@),
    ensures
        agrees(r, parse_and(s@, t@, p as int)),
    decreases t@.len() - p, 3int,
{
    match parse_not_exec(s, t, p) {
        Ok((l, q)) => if p <= q && q <= t.len() {
            parse_and_rest_exec(s, t, q, l)
        } else {
            Err(syntax_exec(s, t, q, Reason::ExpectedOperand))
        },
        Err(e) => Err(e),
    }
}

fn parse_and_rest_exec(s: &Vec<char>, t: &Vec<Token>, p: usize, lhs: Filter) -> (r: Result<
    (Filter, usize),
    Diag,
>)
    requires
        tokens_wf(s@, t@),
    ensures
        agrees(r, parse_and_rest(s@, t@, p as int, lhs@)),
    decreases t@.len() - p, 2int,
{
    if is_kw_exec(t, p, Keyword::And) {
        match parse_not_exec(s, t, p + 1) {
            Ok((r, q)) => if p < q && q <= t.len() {
                parse_and_rest_exec(s, t, q, Filter::And(Box::new(lhs), Box::new(r)))
            } else {
                Err(syntax_exec(s, t, q, Reason::ExpectedOperand))
            },
            Err(e) => Err(e),
        }
    } else {
        Ok((lhs, p))
    }
}

fn parse_not_exec(s: &Vec<char>, t: &Vec<Token>, p: usize) -> (r: Result<(Filter, usize), Diag>)
    requires
        tokens_wf(s@, t@),
    ensures
        agrees(r, parse_not(s@, t@, p as int)),
    decreases t@.len() - p, 1int,
{
    if is_kw_exec(t, p, Keyword::Not) {
        match parse_not_exec(s, t, p + 1) {
            Ok((x, q)) => Ok((Filter::Not(Box::new(x)), q)),
            Err(e) => Err(e),
        }
    } else {
        parse_cmp_exec(s, t, p)
    }
}

fn parse_cmp_exec(s: &Vec<char>, t: &Vec<Token>, p: usize) -> (r: Result<(Filter, usize), Diag>)
    requires
        tokens_wf(s@, t@),
    ensures
        agrees(r, parse_cmp(s@, t@, p as int)),
    decreases t@.len() - p, 0int,
{
    if kind_at_exec(t, p) == Some(TokenKind::LParen) {
        match parse_or_exec(s, t, p + 1) {
            Ok((f, q)) => if kind_at_exec(t, q) == Some(TokenKind::RParen) {
                Ok((f, q + 1))
            } else {
                Err(syntax_exec(s, t, q, Reason::ExpectedClosingParen))
            },
            Err(e) => Err(e),
        }
    } else {
        match parse_operand_exec(s, t, p) {
            Ok((l, q)) => match kind_at_exec(t, q) {
                Some(TokenKind::Op(op)) => match parse_operand_exec(s, t, q + 1) {
                    Ok((r, q2)) => Ok(
                        (Filter::Cmp { op, lhs: l, rhs: r, pos: pos_at_exec(s, t, p) }, q2),
                    ),
                    Err(e) => Err(e),
                },
                _ => Err(syntax_exec(s, t, q, Reason::ExpectedComparison)),
            },
            Err(e) => Err(e),
        }
    }
}

fn parse_item_exec(s: &Vec<char>, t: &Vec<Token>, p: usize) -> (r: Result<(Item, usize), Diag>)
    requires
        tokens_wf(s@, t@),
    ensures
        agrees(r, parse_item(s@, t@, p as int)),
{
    if name_at_exec(s, t, p).is_none() {
        Err(syntax_exec(s, t, p, Reason::ExpectedField))
    } else {
        match parse_operand_exec(s, t, p) {
            Ok((e, q)) => if is_kw_exec(t, q, Keyword::As) {
                match name_at_exec(s, t, q + 1) {
                    Some(a) => Ok((Item { expr: e, alias: Some(a), pos: pos_at_exec(s, t, p) }, q + 2)),
                    None => Err(syntax_exec(s, t, q + 1, Reason::ExpectedAlias)),
                }
            } else {
                Ok((Item { expr: e, alias: None, pos: pos_at_exec(s, t, p) }, q))
            },
            Err(e) => Err(e),
        }
    }
}

fn parse_items_rest_exec(s: &Vec<char>, t: &Vec<Token>, p: usize, acc: Vec<Item>) -> (r: Result<
    (Vec<Item>, usize),
    Diag,
>)
    requires
        tokens_wf(s@, t@),
    ensures
        match r {
            Ok((v, q)) => parse_items_rest(s@, t@, p as int, items_view(acc@)) == Ok::<
                (Seq<ItemV>, int),
                Diag,
            >((items_view(v@), q as int)),
            Err(e) => parse_items_rest(s@, t@, p as int, items_view(acc@)) == Err::<
                (Seq<ItemV>, int),
                Diag,
            >(e),
        },
    decreases t@.len() - p,
{
    if kind_at_exec(t, p) == Some(TokenKind::Comma) {
        match parse_item_exec(s, t, p + 1) {
            Ok((it, q)) => if p < q && q <= t.len() {
                let mut acc = acc;
                let ghost old_acc = acc@;
                let ghost iv = it@;
                acc.push(it);
                assert(items_view(acc@) =~= items_view(old_acc).push(iv));
                parse_items_rest_exec(s, t, q, acc)
            } else {
                Err(syntax_exec(s, t, q, Reason::ExpectedField))
            },
            Err(e) => Err(e),
        }
    } else {
        Ok((acc, p))
    }
}

fn parse_projection_exec(s: &Vec<char>, t: &Vec<Token>, p: usize) -> (r: Result<
    (Projection, usize),
    Diag,
>)
    requires
        tokens_wf(s@, t@),
    ensures
        agrees(r, parse_projection(s@, t@, p as int)),
{
    if kind_at_exec(t, p) == Some(TokenKind::Star) {
        Ok((Projection::Star, p + 1))
    } else {
        match parse_item_exec(s, t, p) {
            Ok((it, q)) => {
                let ghost iv = it@;
                let mut v: Vec<Item> = Vec::new();
                v.push(it);
                assert(items_view(v@) =~= seq![iv]);
                match parse_items_rest_exec(s, t, q, v) {
                    Ok((v, q2)) => Ok((Projection::Items(v), q2)),
                    Err(e) => Err(e),
                }
            },
            Err(e) => Err(e),
        }
    }
}

/// Parses the tokens of `s` into a query, or says where the grammar fails.
pub fn parse(s: &Vec<char>, t: &Vec<Token>) -> (r: Result<SelectQuery, Diag>)
    requires
        tokens_wf(s@, t@),
    ensures
        match r {
            Ok(q) => parse_query(s@, t@) == Ok::<QueryV, Diag>(q@),
            Err(e) => parse_query(s@, t@) == Err::<QueryV, Diag>(e),
        },
{
    if !is_kw_exec(t, 0, Keyword::Select) {
        return Err(syntax_exec(s, t, 0, Reason::ExpectedSelect));
    }
    let (projection, p) = match parse_projection_exec(s, t, 1) {
        Ok(x) => x,
        Err(e) => return Err(e),
    };
    if !is_kw_exec(t, p, Keyword::From) {
        return Err(syntax_exec(s, t, p, Reason::ExpectedFrom));
    }
    let table = match name_at_exec(s, t, p + 1) {
        Some(n) => n,
        None => return Err(syntax_exec(s, t, p + 1, Reason::ExpectedTable)),
    };
    let (filter, q) = if is_kw_exec(t, p + 2, Keyword::Where) {
        match parse_or_exec(s, t, p + 3) {
            Ok((f, q)) => (Some(f), q),
            Err(e) => return Err(e),
        }
    } else {
        (None, p + 2)
    };
    if q == t.len() {
        Ok(SelectQuery { projection, table, filter })
    } else {
        Err(syntax_exec(s, t, q, Reason::ExpectedEnd))
    }
}

} // verus!
