use vstd::prelude::*;
use crate::ast::{
    atoms_view, items_view, Atom, AtomV, Filter, FilterV, Item, ItemV, Operand, OperandV,
    Projection, ProjectionV, QueryV, SelectQuery,
};
use crate::config::{fold_name, upper_seq, CaseFold};
use crate::lexer::CmpOp;
use crate::text::push_char;
use crate::validator::fold_exec;

verus! {

/// How one character of an identifier is written: the quote doubled.
pub open spec fn ident_piece(q: char, c: char) -> Seq<char> {
    if c == q {
        seq![q, q]
    } else {
        seq![c]
    }
}

pub open spec fn escape_ident(q: char, n: Seq<char>) -> Seq<char>
    decreases n.len(),
{
    if n.len() == 0 {
        Seq::empty()
    } else {
        escape_ident(q, n.drop_last()) + ident_piece(q, n.last())
    }
}

/// An identifier, case-folded, between quote characters.
pub open spec fn ident_sql(q: char, f: CaseFold, n: Seq<char>) -> Seq<char> {
    seq![q] + escape_ident(q, fold_name(f, n)) + seq![q]
}

/// How one character of a string literal is written: a backslash or a
/// single quote gets a backslash in front.
pub open spec fn str_piece(c: char) -> Seq<char> {
    if c == '\\' || c == '\'' {
        seq!['\\', c]
    } else {
        seq![c]
    }
}

pub open spec fn escape_str(v: Seq<char>) -> Seq<char>
    decreases v.len(),
{
    if v.len() == 0 {
        Seq::empty()
    } else {
        escape_str(v.drop_last()) + str_piece(v.last())
    }
}

pub open spec fn atom_sql(q: char, f: CaseFold, a: AtomV) -> Seq<char> {
    match a {
        AtomV::Field(n) => ident_sql(q, f, n),
        AtomV::Int(d) => d,
        AtomV::Str(v) => seq!['\''] + escape_str(v) + seq!['\''],
    }
}

pub open spec fn args_sql(q: char, f: CaseFold, args: Seq<AtomV>) -> Seq<char>
    decreases args.len(),
{
    if args.len() == 0 {
        Seq::empty()
    } else if args.len() == 1 {
        atom_sql(q, f, args[0])
    } else {
        args_sql(q, f, args.drop_last()) + ", "@ + atom_sql(q, f, args.last())
    }
}

/// A call is written with its name in upper case.
pub open spec fn operand_sql(q: char, f: CaseFold, o: OperandV) -> Seq<char> {
    match o {
        OperandV::Atom(a) => atom_sql(q, f, a),
        OperandV::Call { name, args, .. } => upper_seq(name) + "("@ + args_sql(q, f, args) + ")"@,
    }
}

pub open spec fn item_sql(q: char, f: CaseFold, it: ItemV) -> Seq<char> {
    match it.alias {
        Some(a) => operand_sql(q, f, it.expr) + " AS "@ + ident_sql(q, f, a),
        None => operand_sql(q, f, it.expr),
    }
}

pub open spec fn items_sql(q: char, f: CaseFold, items: Seq<ItemV>) -> Seq<char>
    decreases items.len(),
{
    if items.len() == 0 {
        Seq::empty()
    } else if items.len() == 1 {
        item_sql(q, f, items[0])
    } else {
        items_sql(q, f, items.drop_last()) + ", "@ + item_sql(q, f, items.last())
    }
}

pub open spec fn op_sql(op: CmpOp) -> Seq<char> {
    match op {
        CmpOp::Eq => "="@,
        CmpOp::Ne => "<>"@,
        CmpOp::Lt => "<"@,
        CmpOp::Le => "<="@,
        CmpOp::Gt => ">"@,
        CmpOp::Ge => ">="@,
    }
}

/// Binding strength: `OR` 1, `AND` 2, `NOT` 3, a comparison 4.
pub open spec fn prec(f: FilterV) -> int {
    match f {
        FilterV::Or(..) => 1,
        FilterV::And(..) => 2,
        FilterV::Not(..) => 3,
        FilterV::Cmp { .. } => 4,
    }
}

/// A filter written where an operand must bind at least `min`; it is put in
/// parentheses where it binds less. The right operand of `AND` and `OR`
/// must bind more, which keeps the left-to-right grouping.
pub open spec fn filter_sql(q: char, f: CaseFold, x: FilterV, min: int) -> Seq<char>
    decreases x,
{
    let body = match x {
        FilterV::Or(l, r) => filter_sql(q, f, *l, 1) + " OR "@ + filter_sql(q, f, *r, 2),
        FilterV::And(l, r) => filter_sql(q, f, *l, 2) + " AND "@ + filter_sql(q, f, *r, 3),
        FilterV::Not(y) => "NOT "@ + filter_sql(q, f, *y, 3),
        FilterV::Cmp { op, lhs, rhs, .. } => operand_sql(q, f, lhs) + " "@ + op_sql(op) + " "@
            + operand_sql(q, f, rhs),
    };
    if prec(x) < min {
        "("@ + body + ")"@
    } else {
        body
    }
}

/// `SELECT <items> FROM <table> [WHERE <filter>]`.
pub open spec fn query_sql(q: char, f: CaseFold, x: QueryV) -> Seq<char> {
    let proj = match x.projection {
        ProjectionV::Star => "*"@,
        ProjectionV::Items(v) => items_sql(q, f, v),
    };
    let head = "SELECT "@ + proj + " FROM "@ + ident_sql(q, f, x.table);
    match x.filter {
        Some(y) => head + " WHERE "@ + filter_sql(q, f, y, 0),
        None => head,
    }
}

fn emit_ident(out: &mut String, q: char, f: CaseFold, n: &Vec<char>)
    ensures
        final(out)@ == old(out)@ + ident_sql(q, f, n@),
{
    let v = fold_exec(f, n);
    push_char(out, q);
    let ghost base = out@;
    let mut k: usize = 0;
    while k < v.len()
        invariant
            k <= v@.len(),
            out@ == base + escape_ident(q, v@.subrange(0, k as int)),
        decreases v@.len() - k,
    {
        let c = v[k];
        if c == q {
            push_char(out, q);
            push_char(out, q);
        } else {
            push_char(out, c);
        }
        proof {
            assert(v@.subrange(0, k + 1).drop_last() =~= v@.subrange(0, k as int));
        }
        k = k + 1;
        assert(out@ =~= base + escape_ident(q, v@.subrange(0, k as int)));
    }
    assert(v@.subrange(0, k as int) =~= v@);
    push_char(out, q);
    assert(out@ =~= old(out)@ + ident_sql(q, f, n@));
}

fn emit_str(out: &mut String, v: &Vec<char>)
    ensures
        final(out)@ == old(out)@ + (seq!['\''] + escape_str(v@) + seq!['\'']),
{
    push_char(out, '\'');
    let ghost base = out@;
    let mut k: usize = 0;
    while k < v.len()
        invariant
            k <= v@.len(),
            out@ == base + escape_str(v@.subrange(0, k as int)),
        decreases v@.len() - k,
    {
        let c = v[k];
        if c == '\\' || c == '\'' {
            push_char(out, '\\');
        }
        push_char(out, c);
        proof {
            assert(v@.subrange(0, k + 1).drop_last() =~= v@.subrange(0, k as int));
        }
        k = k + 1;
        assert(out@ =~= base + escape_str(v@.subrange(0, k as int)));
    }
    assert(v@.subrange(0, k as int) =~= v@);
    push_char(out, '\'');
    assert(out@ =~= old(out)@ + (seq!['\''] + escape_str(v@) + seq!['\'']));
}

fn emit_chars(out: &mut String, v: &Vec<char>)
    ensures
        final(out)@ == old(out)@ + v@,
{
    let ghost base = out@;
    let mut k: usize = 0;
    while k < v.len()
        invariant
            k <= v@.len(),
            out@ == base + v@.subrange(0, k as int),
        decreases v@.len() - k,
    {
        push_char(out, v[k]);
        k = k + 1;
        assert(out@ =~= base + v@.subrange(0, k as int));
    }
    assert(v@.subrange(0, k as int) =~= v@);
}

fn emit_atom(out: &mut String, q: char, f: CaseFold, a: &Atom)
    ensures
        final(out)@ == old(out)@ + atom_sql(q, f, a@),
{
    match a {
        Atom::Field(n) => emit_ident(out, q, f, n),
        Atom::Int(d) => emit_chars(out, d),
        Atom::Str(v) => emit_str(out, v),
    }
}

fn emit_operand(out: &mut String, q: char, f: CaseFold, o: &Operand)
    ensures
        final(out)@ == old(out)@ + operand_sql(q, f, o@),
{
    match o {
        Operand::Atom(a) => emit_atom(out, q, f, a),
        Operand::Call { name, args, .. } => {
            let un = fold_exec(CaseFold::Upper, name);
            emit_chars(out, &un);
            out.append("(");
            let ghost base = out@;
            let ghost av = atoms_view(args@);
            let mut k: usize = 0;
            while k < args.len()
                invariant
                    k <= args@.len(),
                    av == atoms_view(args@),
                    out@ == base + args_sql(q, f, av.subrange(0, k as int)),
                decreases args@.len() - k,
            {
                let ghost before = out@;
                if k > 0 {
                    out.append(", ");
                }
                emit_atom(out, q, f, &args[k]);
                proof {
                    let s = av.subrange(0, k + 1);
                    assert(s.drop_last() =~= av.subrange(0, k as int));
                    assert(s.last() == av[k as int]);
                    if k == 0 {
                        assert(out@ =~= base + args_sql(q, f, s));
                    } else {
                        assert(out@ =~= base + args_sql(q, f, s));
                    }
                }
                k = k + 1;
            }
            assert(av.subrange(0, k as int) =~= av);
            out.append(")");
            assert(out@ =~= old(out)@ + operand_sql(q, f, o@));
        },
    }
}

fn emit_item(out: &mut String, q: char, f: CaseFold, it: &Item)
    ensures
        final(out)@ == old(out)@ + item_sql(q, f, it@),
{
    emit_operand(out, q, f, &it.expr);
    match &it.alias {
        Some(a) => {
            out.append(" AS ");
            emit_ident(out, q, f, a);
            assert(out@ =~= old(out)@ + item_sql(q, f, it@));
        },
        None => {},
    }
}

fn emit_op(out: &mut String, op: CmpOp)
    ensures
        final(out)@ == old(out)@ + op_sql(op),
{
    match op {
        CmpOp::Eq => out.append("="),
        CmpOp::Ne => out.append("<>"),
        CmpOp::Lt => out.append("<"),
        CmpOp::Le => out.append("<="),
        CmpOp::Gt => out.append(">"),
        CmpOp::Ge => out.append(">="),
    }
}

fn prec_exec(x: &Filter) -> (r: u8)
    ensures
        r as int == prec(x@),
{
    match x {
        Filter::Or(..) => 1,
        Filter::And(..) => 2,
        Filter::Not(..) => 3,
        Filter::Cmp { .. } => 4,
    }
}

fn emit_cmp(out: &mut String, q: char, f: CaseFold, op: CmpOp, lhs: &Operand, rhs: &Operand)
    ensures
        final(out)@ == old(out)@ + (operand_sql(q, f, lhs@) + " "@ + op_sql(op) + " "@
            + operand_sql(q, f, rhs@)),
{
    emit_operand(out, q, f, lhs);
    out.append(" ");
    emit_op(out, op);
    out.append(" ");
    emit_operand(out, q, f, rhs);
    assert(out@ =~= old(out)@ + (operand_sql(q, f, lhs@) + " "@ + op_sql(op) + " "@
        + operand_sql(q, f, rhs@)));
}

#[verifier::spinoff_prover]
#[verifier::rlimit(100)]
fn emit_filter(out: &mut String, q: char, f: CaseFold, x: &Filter, min: u8)
    ensures
        final(out)@ == old(out)@ + filter_sql(q, f, x@, min as int),
    decreases x,
{
    let ghost xv = x@;
    let paren = prec_exec(x) < min;
    if paren {
        out.append("(");
    }
    let ghost base = out@;
    let ghost body: Seq<char>;
    match x {
        Filter::Or(l, r) => {
            emit_filter(out, q, f, l, 1);
            out.append(" OR ");
            emit_filter(out, q, f, r, 2);
            proof {
                body = filter_sql(q, f, (**l)@, 1) + " OR "@ + filter_sql(q, f, (**r)@, 2);
                assert(out@ =~= base + body);
            }
        },
        Filter::And(l, r) => {
            emit_filter(out, q, f, l, 2);
            out.append(" AND ");
            emit_filter(out, q, f, r, 3);
            proof {
                body = filter_sql(q, f, (**l)@, 2) + " AND "@ + filter_sql(q, f, (**r)@, 3);
                assert(out@ =~= base + body);
            }
        },
        Filter::Not(y) => {
            out.append("NOT ");
            emit_filter(out, q, f, y, 3);
            proof {
                body = "NOT "@ + filter_sql(q, f, (**y)@, 3);
                assert(out@ =~= base + body);
            }
        },
        Filter::Cmp { op, lhs, rhs, .. } => {
            emit_cmp(out, q, f, *op, lhs, rhs);
            proof {
                body = operand_sql(q, f, lhs@) + " "@ + op_sql(*op) + " "@ + operand_sql(q, f, rhs@);
            }
        },
    }
    if paren {
        out.append(")");
        assert(out@ =~= old(out)@ + ("("@ + body + ")"@));
    } else {
        assert(out@ =~= old(out)@ + body);
    }
}

/// Writes a query in the target dialect.
pub fn emit(x: &SelectQuery, q: char, f: CaseFold) -> (r: String)
    ensures
        r@ == query_sql(q, f, x@),
{
    let mut out = String::new();
    out.append("SELECT ");
    match &x.projection {
        Projection::Star => out.append("*"),
        Projection::Items(items) => {
            let ghost base = out@;
            let ghost iv = items_view(items@);
            let mut k: usize = 0;
            while k < items.len()
                invariant
                    k <= items@.len(),
                    iv == items_view(items@),
                    out@ == base + items_sql(q, f, iv.subrange(0, k as int)),
                decreases items@.len() - k,
            {
                if k > 0 {
                    out.append(", ");
                }
                emit_item(&mut out, q, f, &items[k]);
                proof {
                    let s = iv.subrange(0, k + 1);
                    assert(s.drop_last() =~= iv.subrange(0, k as int));
                    assert(s.last() == iv[k as int]);
                    assert(out@ =~= base + items_sql(q, f, s));
                }
                k = k + 1;
            }
            assert(iv.subrange(0, k as int) =~= iv);
        },
    }
    out.append(" FROM ");
    emit_ident(&mut out, q, f, &x.table);
    match &x.filter {
        Some(y) => {
            out.append(" WHERE ");
            emit_filter(&mut out, q, f, y, 0);
        },
        None => {},
    }
    assert(out@ =~= query_sql(q, f, x@));
    out
}

} // verus!
