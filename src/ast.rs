use vstd::prelude::*;
use crate::lexer::CmpOp;

verus! {

/// An operand that cannot hold another: a field, an integer or a string.
#[derive(Debug)]
pub enum Atom {
    Field(Vec<char>),
    /// The digits as written.
    Int(Vec<char>),
    /// The characters of the literal, escapes resolved.
    Str(Vec<char>),
}

#[derive(Debug)]
pub enum Operand {
    Atom(Atom),
    /// A call of a named function on atoms; `pos` is where its name starts.
    Call { name: Vec<char>, args: Vec<Atom>, pos: usize },
}

/// A filter tree. `pos` of a comparison is where its left operand starts.
#[derive(Debug)]
pub enum Filter {
    Cmp { op: CmpOp, lhs: Operand, rhs: Operand, pos: usize },
    Not(Box<Filter>),
    And(Box<Filter>, Box<Filter>),
    Or(Box<Filter>, Box<Filter>),
}

/// One projected column: a field or a call, with an optional alias.
#[derive(Debug)]
pub struct Item {
    pub expr: Operand,
    pub alias: Option<Vec<char>>,
    pub pos: usize,
}

#[derive(Debug)]
pub enum Projection {
    Star,
    Items(Vec<Item>),
}

/// The root of every parsed query.
#[derive(Debug)]
pub struct SelectQuery {
    pub projection: Projection,
    pub table: Vec<char>,
    pub filter: Option<Filter>,
}

pub enum AtomV {
    Field(Seq<char>),
    Int(Seq<char>),
    Str(Seq<char>),
}

pub enum OperandV {
    Atom(AtomV),
    Call { name: Seq<char>, args: Seq<AtomV>, pos: int },
}

pub enum FilterV {
    Cmp { op: CmpOp, lhs: OperandV, rhs: OperandV, pos: int },
    Not(Box<FilterV>),
    And(Box<FilterV>, Box<FilterV>),
    Or(Box<FilterV>, Box<FilterV>),
}

pub struct ItemV {
    pub expr: OperandV,
    pub alias: Option<Seq<char>>,
    pub pos: int,
}

pub enum ProjectionV {
    Star,
    Items(Seq<ItemV>),
}

pub struct QueryV {
    pub projection: ProjectionV,
    pub table: Seq<char>,
    pub filter: Option<FilterV>,
}

impl View for Atom {
    type V = AtomV;

    open spec fn view(&self) -> AtomV {
        match self {
            Atom::Field(n) => AtomV::Field(n@),
            Atom::Int(d) => AtomV::Int(d@),
            Atom::Str(c) => AtomV::Str(c@),
        }
    }
}

pub open spec fn atoms_view(v: Seq<Atom>) -> Seq<AtomV> {
    v.map_values(|a: Atom| a@)
}

impl View for Operand {
    type V = OperandV;

    open spec fn view(&self) -> OperandV {
        match self {
            Operand::Atom(a) => OperandV::Atom(a@),
            Operand::Call { name, args, pos } => OperandV::Call {
                name: name@,
                args: atoms_view(args@),
                pos: *pos as int,
            },
        }
    }
}

impl Filter {
    pub open spec fn model(&self) -> FilterV
        decreases self,
    {
        match self {
            Filter::Cmp { op, lhs, rhs, pos } => FilterV::Cmp {
                op: *op,
                lhs: lhs@,
                rhs: rhs@,
                pos: *pos as int,
            },
            Filter::Not(x) => FilterV::Not(Box::new((**x).model())),
            Filter::And(l, r) => FilterV::And(Box::new((**l).model()), Box::new((**r).model())),
            Filter::Or(l, r) => FilterV::Or(Box::new((**l).model()), Box::new((**r).model())),
        }
    }
}

impl View for Filter {
    type V = FilterV;

    open spec fn view(&self) -> FilterV {
        self.model()
    }
}

impl View for Item {
    type V = ItemV;

    open spec fn view(&self) -> ItemV {
        ItemV {
            expr: self.expr@,
            alias: match self.alias {
                Some(a) => Some(a@),
                None => None,
            },
            pos: self.pos as int,
        }
    }
}

pub open spec fn items_view(v: Seq<Item>) -> Seq<ItemV> {
    v.map_values(|i: Item| i@)
}

impl View for Projection {
    type V = ProjectionV;

    open spec fn view(&self) -> ProjectionV {
        match self {
            Projection::Star => ProjectionV::Star,
            Projection::Items(v) => ProjectionV::Items(items_view(v@)),
        }
    }
}

impl View for SelectQuery {
    type V = QueryV;

    open spec fn view(&self) -> QueryV {
        QueryV {
            projection: self.projection@,
            table: self.table@,
            filter: match self.filter {
                Some(f) => Some(f@),
                None => None,
            },
        }
    }
}

/// The stage at which a translation failed.
#[derive(Clone, Copy, Debug, PartialEq, Eq, Structural)]
pub enum ErrorKind {
    Lex,
    Syntax,
    Semantic,
    InputTooLarge,
}

/// What went wrong, as a closed set of causes.
#[derive(Clone, Copy, Debug, PartialEq, Eq, Structural)]
pub enum Reason {
    UnknownCharacter,
    /// A quote that is never closed, or a quoted identifier with nothing inside.
    BadQuote,
    ExpectedSelect,
    ExpectedField,
    ExpectedFrom,
    ExpectedTable,
    ExpectedAlias,
    ExpectedOperand,
    ExpectedComparison,
    ExpectedClosingParen,
    ExpectedEnd,
    DuplicateField,
    UnknownFunction,
    TypeMismatch,
    TooLarge,
}

/// A failure of one stage, at a character offset of the source.
#[derive(Clone, Copy, Debug, PartialEq, Eq, Structural)]
pub struct Diag {
    pub kind: ErrorKind,
    pub reason: Reason,
    pub pos: usize,
}

pub open spec fn diag(kind: ErrorKind, reason: Reason, pos: int) -> Diag {
    Diag { kind, reason, pos: pos as usize }
}

} // verus!
