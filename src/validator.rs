use vstd::prelude::*;
use crate::ast::{
    diag, items_view, Atom, AtomV, Diag, ErrorKind, Filter, FilterV, Item, ItemV, Operand,
    OperandV, Projection, ProjectionV, QueryV, Reason, SelectQuery,
};
use crate::config::{fold_name, upper_seq, CaseFold};
use crate::lexer::{lower_char_exec, upper_char_exec};
use crate::text::chars_eq;

verus! {

/// Whether `name` is on the list, ignoring ASCII case.
pub open spec fn function_allowed(allowed: Seq<Seq<char>>, name: Seq<char>) -> bool {
    exists|k: int| 0 <= k < allowed.len() && upper_seq(#[trigger] allowed[k]) == upper_seq(name)
}

pub open spec fn operand_error(allowed: Seq<Seq<char>>, o: OperandV) -> Option<Diag> {
    match o {
        OperandV::Call { name, pos, .. } => if function_allowed(allowed, name) {
            None
        } else {
            Some(diag(ErrorKind::Semantic, Reason::UnknownFunction, pos))
        },
        OperandV::Atom(_) => None,
    }
}

/// The column name an item gives to its result: its alias, else the field
/// it reads; a call without an alias names nothing.
pub open spec fn out_name(f: CaseFold, it: ItemV) -> Option<Seq<char>> {
    match it.alias {
        Some(a) => Some(fold_name(f, a)),
        None => match it.expr {
            OperandV::Atom(AtomV::Field(n)) => Some(fold_name(f, n)),
            _ => None,
        },
    }
}

/// Item `k` gives a name that an earlier item already gave.
pub open spec fn duplicate_at(f: CaseFold, items: Seq<ItemV>, k: int) -> bool {
    &&& out_name(f, items[k]) is Some
    &&& exists|j: int| 0 <= j < k && #[trigger] out_name(f, items[j]) == out_name(f, items[k])
}

pub open spec fn item_error(f: CaseFold, allowed: Seq<Seq<char>>, items: Seq<ItemV>, k: int) -> Option<
    Diag,
> {
    match operand_error(allowed, items[k].expr) {
        Some(d) => Some(d),
        None => if duplicate_at(f, items, k) {
            Some(diag(ErrorKind::Semantic, Reason::DuplicateField, items[k].pos))
        } else {
            None
        },
    }
}

/// The first error among the items from `k` on.
pub open spec fn items_error_from(
    f: CaseFold,
    allowed: Seq<Seq<char>>,
    items: Seq<ItemV>,
    k: int,
) -> Option<Diag>
    decreases items.len() - k,
{
    if k < 0 || k >= items.len() {
        None
    } else {
        match item_error(f, allowed, items, k) {
            Some(d) => Some(d),
            None => items_error_from(f, allowed, items, k + 1),
        }
    }
}

pub open spec fn is_int(o: OperandV) -> bool {
    o matches OperandV::Atom(AtomV::Int(_))
}

pub open spec fn is_str(o: OperandV) -> bool {
    o matches OperandV::Atom(AtomV::Str(_))
}

/// A comparison of an integer literal with a string literal.
pub open spec fn mismatch(l: OperandV, r: OperandV) -> bool {
    (is_int(l) && is_str(r)) || (is_str(l) && is_int(r))
}

/// The first error of a filter, left to right.
pub open spec fn filter_error(allowed: Seq<Seq<char>>, f: FilterV) -> Option<Diag>
    decreases f,
{
    match f {
        FilterV::Cmp { lhs, rhs, pos, .. } => match operand_error(allowed, lhs) {
            Some(d) => Some(d),
            None => match operand_error(allowed, rhs) {
                Some(d) => Some(d),
                None => if mismatch(lhs, rhs) {
                    Some(diag(ErrorKind::Semantic, Reason::TypeMismatch, pos))
                } else {
                    None
                },
            },
        },
        FilterV::Not(x) => filter_error(allowed, *x),
        FilterV::And(l, r) => match filter_error(allowed, *l) {
            Some(d) => Some(d),
            None => filter_error(allowed, *r),
        },
        FilterV::Or(l, r) => match filter_error(allowed, *l) {
            Some(d) => Some(d),
            None => filter_error(allowed, *r),
        },
    }
}

/// The first semantic error of a query: the projection first, then the filter.
pub open spec fn query_error(f: CaseFold, allowed: Seq<Seq<char>>, q: QueryV) -> Option<Diag> {
    let pe = match q.projection {
        ProjectionV::Star => None,
        ProjectionV::Items(v) => items_error_from(f, allowed, v, 0),
    };
    match pe {
        Some(d) => Some(d),
        None => match q.filter {
            Some(x) => filter_error(allowed, x),
            None => None,
        },
    }
}

pub open spec fn names_view(v: Seq<Vec<char>>) -> Seq<Seq<char>> {
    v.map_values(|n: Vec<char>| n@)
}

/// `n` with the case fold applied.
pub fn fold_exec(f: CaseFold, n: &Vec<char>) -> (r: Vec<char>)
    ensures
        r@ == fold_name(f, n@),
{
    let mut out: Vec<char> = Vec::new();
    let mut k: usize = 0;
    while k < n.len()
        invariant
            k <= n@.len(),
            out@.len() == k,
            forall|m: int| 0 <= m < k ==> out@[m] == #[trigger] fold_name(f, n@.subrange(0, k as int))[m],
            forall|m: int| 0 <= m < k ==> out@[m] == fold_name(f, n@)[m],
        decreases n@.len() - k,
    {
        let c = match f {
            CaseFold::Keep => n[k],
            CaseFold::Upper => upper_char_exec(n[k]),
            CaseFold::Lower => lower_char_exec(n[k]),
        };
        out.push(c);
        k = k + 1;
    }
    assert(out@ =~= fold_name(f, n@));
    out
}

fn function_allowed_exec(allowed: &Vec<Vec<char>>, name: &Vec<char>) -> (r: bool)
    ensures
        r == function_allowed(names_view(allowed@), name@),
{
    let un = fold_exec(CaseFold::Upper, name);
    let mut k: usize = 0;
    while k < allowed.len()
        invariant
            k <= allowed@.len(),
            un@ == upper_seq(name@),
            forall|m: int|
                0 <= m < k ==> upper_seq(#[trigger] names_view(allowed@)[m]) != upper_seq(name@),
        decreases allowed@.len() - k,
    {
        let ua = fold_exec(CaseFold::Upper, &allowed[k]);
        if chars_eq(&ua, &un) {
            assert(names_view(allowed@)[k as int] == allowed@[k as int]@);
            return true;
        }
        k = k + 1;
    }
    false
}

fn operand_error_exec(allowed: &Vec<Vec<char>>, o: &Operand) -> (r: Option<Diag>)
    ensures
        r == operand_error(names_view(allowed@), o@),
{
    match o {
        Operand::Call { name, pos, .. } => if function_allowed_exec(allowed, name) {
            None
        } else {
            Some(Diag { kind: ErrorKind::Semantic, reason: Reason::UnknownFunction, pos: *pos })
        },
        Operand::Atom(_) => None,
    }
}

fn out_name_exec(f: CaseFold, it: &Item) -> (r: Option<Vec<char>>)
    ensures
        match r {
            Some(v) => out_name(f, it@) == Some(v@),
            None => out_name(f, it@) is None,
        },
{
    match &it.alias {
        Some(a) => Some(fold_exec(f, a)),
        None => match &it.expr {
            Operand::Atom(Atom::Field(n)) => Some(fold_exec(f, n)),
            _ => None,
        },
    }
}

fn duplicate_at_exec(f: CaseFold, items: &Vec<Item>, k: usize) -> (r: bool)
    requires
        k < items@.len(),
    ensures
        r == duplicate_at(f, items_view(items@), k as int),
{
    let ghost v = items_view(items@);
    let name = match out_name_exec(f, &items[k]) {
        Some(n) => n,
        None => return false,
    };
    let mut j: usize = 0;
    while j < k
        invariant
            j <= k < items@.len(),
            v == items_view(items@),
            out_name(f, v[k as int]) == Some(name@),
            forall|m: int| 0 <= m < j ==> #[trigger] out_name(f, v[m]) != out_name(f, v[k as int]),
        decreases k - j,
    {
        match out_name_exec(f, &items[j]) {
            Some(other) => if chars_eq(&other, &name) {
                assert(out_name(f, v[j as int]) == out_name(f, v[k as int]));
                return true;
            },
            None => {},
        }
        j = j + 1;
    }
    false
}

fn items_error_exec(f: CaseFold, allowed: &Vec<Vec<char>>, items: &Vec<Item>) -> (r: Option<Diag>)
    ensures
        r == items_error_from(f, names_view(allowed@), items_view(items@), 0),
{
    let ghost v = items_view(items@);
    let ghost al = names_view(allowed@);
    let mut k: usize = 0;
    while k < items.len()
        invariant
            k <= items@.len(),
            v == items_view(items@),
            al == names_view(allowed@),
            items_error_from(f, al, v, 0) == items_error_from(f, al, v, k as int),
        decreases items@.len() - k,
    {
        match operand_error_exec(allowed, &items[k].expr) {
            Some(d) => return Some(d),
            None => {},
        }
        if duplicate_at_exec(f, items, k) {
            return Some(
                Diag { kind: ErrorKind::Semantic, reason: Reason::DuplicateField, pos: items[k].pos },
            );
        }
        k = k + 1;
    }
    None
}

fn filter_error_exec(allowed: &Vec<Vec<char>>, f: &Filter) -> (r: Option<Diag>)
    ensures
        r == filter_error(names_view(allowed@), f@),
    decreases f,
{
    match f {
        Filter::Cmp { lhs, rhs, pos, .. } => {
            match operand_error_exec(allowed, lhs) {
                Some(d) => return Some(d),
                None => {},
            }
            match operand_error_exec(allowed, rhs) {
                Some(d) => return Some(d),
                None => {},
            }
            let l_int = matches!(lhs, Operand::Atom(Atom::Int(_)));
            let l_str = matches!(lhs, Operand::Atom(Atom::Str(_)));
            let r_int = matches!(rhs, Operand::Atom(Atom::Int(_)));
            let r_str = matches!(rhs, Operand::Atom(Atom::Str(_)));
            if (l_int && r_str) || (l_str && r_int) {
                Some(Diag { kind: ErrorKind::Semantic, reason: Reason::TypeMismatch, pos: *pos })
            } else {
                None
            }
        },
        Filter::Not(x) => filter_error_exec(allowed, x),
        Filter::And(l, r) => match filter_error_exec(allowed, l) {
            Some(d) => Some(d),
            None => filter_error_exec(allowed, r),
        },
        Filter::Or(l, r) => match filter_error_exec(allowed, l) {
            Some(d) => Some(d),
            None => filter_error_exec(allowed, r),
        },
    }
}

/// Checks a parsed query: called functions are on the list, no two
/// projected columns share a name, and no integer literal is compared with a
/// string literal. The query itself is left as it is.
pub fn validate(q: &SelectQuery, f: CaseFold, allowed: &Vec<Vec<char>>) -> (r: Result<(), Diag>)
    ensures
        match query_error(f, names_view(allowed@), q@) {
            Some(d) => r == Err::<(), Diag>(d),
            None => r is Ok,
        },
{
    match &q.projection {
        Projection::Star => {},
        Projection::Items(v) => match items_error_exec(f, allowed, v) {
            Some(d) => return Err(d),
            None => {},
        },
    }
    match &q.filter {
        Some(x) => match filter_error_exec(allowed, x) {
            Some(d) => Err(d),
            None => Ok(()),
        },
        None => Ok(()),
    }
}

} // verus!
