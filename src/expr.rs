use crate::types::{ty_of, Ty, Type};
use vstd::prelude::*;

verus! {

/// A binary operator.
#[derive(Copy, Clone, Debug, PartialEq, Eq, Structural)]
pub enum BinOp {
    Add,
    Subtract,
    Multiply,
    Divide,
    LessThan,
    GreaterThan,
    LessOrEqual,
    GreaterOrEqual,
    EqualTo,
    And,
    Or,
    Concat,
}

/// A node of the expression tree, with a slot for the type that checking
/// derived for it. The slot is never read by checking.
#[derive(Debug)]
pub struct Expr {
    pub checked_type: Type,
    pub kind: ExprKind,
}

impl Expr {
    /// A node whose type has not been derived yet.
    pub fn new(kind: ExprKind) -> (r: Expr)
        ensures
            r.kind == kind,
            r.checked_type is Unknown,
    {
        Expr { checked_type: Type::Unknown, kind }
    }
}

/// The forms of expression.
#[derive(Debug)]
pub enum ExprKind {
    /// Operator and its two operands.
    Binop(BinOp, Box<Expr>, Box<Expr>),
    /// Predicate, consequent, alternate.
    If(Box<Expr>, Box<Expr>, Box<Expr>),
    /// Bindings, all checked in the enclosing environment, and the body.
    Let(Vec<(String, Expr)>, Box<Expr>),
    /// Parameter names with their types, the declared return type, the body.
    Lambda(Vec<(String, Type)>, Type, Box<Expr>),
    Begin(Vec<Expr>),
    /// `set!`: assigns to a bound variable.
    Assign(String, Box<Expr>),
    Cons(Box<Expr>, Box<Expr>),
    Car(Box<Expr>),
    Cdr(Box<Expr>),
    IsNull(Box<Expr>),
    /// The empty list of the given element type.
    Null(Type),
    /// Function and arguments.
    FnApp(Box<Expr>, Vec<Expr>),
    /// Elements and their declared types.
    Tuple(Vec<Expr>, Vec<Type>),
    /// Tuple and index; the index must be a number literal.
    TupleGet(Box<Expr>, Box<Expr>),
    /// Field names with their expressions.
    Record(Vec<(String, Expr)>),
    RecordGet(Box<Expr>, String),
    /// Value, the type it hides, and the existential type it is packed at.
    Pack(Box<Expr>, Type, Type),
    /// Name bound to the contents, package, type variable standing for the
    /// hidden type, body.
    Unpack(String, Box<Expr>, u64, Box<Expr>),
    Id(String),
    Num(i64),
    Bool(bool),
    Str(String),
}

/// Why an expression does not check.
#[derive(Debug)]
pub enum TypeError {
    UnboundVariable(String),
    /// An operand of the operator has the wrong type.
    TypeMismatch { expected: Type, found: Type, context: BinOp },
    NotABoolean,
    BranchTypeMismatch,
    ReturnTypeMismatch,
    NotAFunction,
    ArityMismatch,
    /// The argument at this position has the wrong type.
    ArgTypeMismatch(usize),
    EmptyBegin,
    AssignTypeMismatch,
    NotAList,
    ListElementMismatch,
    /// The element at this position has the wrong type.
    TupleElementMismatch(usize),
    NotATuple,
    IndexOutOfBounds,
    NotAConstantIndex,
    NotARecord,
    DuplicateField(String),
    UnknownField(String),
    NotAnExistential,
    ExistentialPackMismatch,
    EscapingTypeVariable,
}

/// The mathematical value of a `TypeError`.
pub ghost enum TyErr {
    UnboundVariable(Seq<char>),
    TypeMismatch { expected: Ty, found: Ty, context: BinOp },
    NotABoolean,
    BranchTypeMismatch,
    ReturnTypeMismatch,
    NotAFunction,
    ArityMismatch,
    ArgTypeMismatch(nat),
    EmptyBegin,
    AssignTypeMismatch,
    NotAList,
    ListElementMismatch,
    TupleElementMismatch(nat),
    NotATuple,
    IndexOutOfBounds,
    NotAConstantIndex,
    NotARecord,
    DuplicateField(Seq<char>),
    UnknownField(Seq<char>),
    NotAnExistential,
    ExistentialPackMismatch,
    EscapingTypeVariable,
}

pub open spec fn err_of(e: TypeError) -> TyErr {
    match e {
        TypeError::UnboundVariable(x) => TyErr::UnboundVariable(x@),
        TypeError::TypeMismatch { expected, found, context } => TyErr::TypeMismatch {
            expected: ty_of(expected),
            found: ty_of(found),
            context,
        },
        TypeError::NotABoolean => TyErr::NotABoolean,
        TypeError::BranchTypeMismatch => TyErr::BranchTypeMismatch,
        TypeError::ReturnTypeMismatch => TyErr::ReturnTypeMismatch,
        TypeError::NotAFunction => TyErr::NotAFunction,
        TypeError::ArityMismatch => TyErr::ArityMismatch,
        TypeError::ArgTypeMismatch(i) => TyErr::ArgTypeMismatch(i as nat),
        TypeError::EmptyBegin => TyErr::EmptyBegin,
        TypeError::AssignTypeMismatch => TyErr::AssignTypeMismatch,
        TypeError::NotAList => TyErr::NotAList,
        TypeError::ListElementMismatch => TyErr::ListElementMismatch,
        TypeError::TupleElementMismatch(i) => TyErr::TupleElementMismatch(i as nat),
        TypeError::NotATuple => TyErr::NotATuple,
        TypeError::IndexOutOfBounds => TyErr::IndexOutOfBounds,
        TypeError::NotAConstantIndex => TyErr::NotAConstantIndex,
        TypeError::NotARecord => TyErr::NotARecord,
        TypeError::DuplicateField(x) => TyErr::DuplicateField(x@),
        TypeError::UnknownField(x) => TyErr::UnknownField(x@),
        TypeError::NotAnExistential => TyErr::NotAnExistential,
        TypeError::ExistentialPackMismatch => TyErr::ExistentialPackMismatch,
        TypeError::EscapingTypeVariable => TyErr::EscapingTypeVariable,
    }
}

impl View for TypeError {
    type V = TyErr;

    open spec fn view(&self) -> TyErr {
        err_of(*self)
    }
}

/// The mathematical value of the outcome of a check.
pub open spec fn outcome(r: Result<Type, TypeError>) -> Result<Ty, TyErr> {
    match r {
        Ok(t) => Ok(ty_of(t)),
        Err(e) => Err(err_of(e)),
    }
}

} // verus!
