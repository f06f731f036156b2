use crate::expr::{BinOp, Expr, ExprKind};
use crate::parser::{parse_type, sexpr_type, ParseError};
use crate::sexpr::SExpr;
use crate::text::same_text;
use crate::types::{ty_of, Ty, Type};
use vstd::prelude::*;

verus! {

/// The operator that a symbol names.
pub open spec fn binop_named(h: Seq<char>) -> Option<BinOp> {
    if h == "and"@ {
        Some(BinOp::And)
    } else if h == "or"@ {
        Some(BinOp::Or)
    } else if h == "+"@ {
        Some(BinOp::Add)
    } else if h == "-"@ {
        Some(BinOp::Subtract)
    } else if h == "*"@ {
        Some(BinOp::Multiply)
    } else if h == "/"@ {
        Some(BinOp::Divide)
    } else if h == "<"@ {
        Some(BinOp::LessThan)
    } else if h == ">"@ {
        Some(BinOp::GreaterThan)
    } else if h == "<="@ {
        Some(BinOp::LessOrEqual)
    } else if h == ">="@ {
        Some(BinOp::GreaterOrEqual)
    } else if h == "="@ {
        Some(BinOp::EqualTo)
    } else if h == "concat"@ {
        Some(BinOp::Concat)
    } else {
        None
    }
}

/// Whether every entry holds.
pub open spec fn all_true(s: Seq<bool>) -> bool {
    forall|i: int| 0 <= i < s.len() ==> #[trigger] s[i]
}


/// Whether `p` is `(name : type)` for the parameter `(n, t)`.
pub open spec fn param_reads(p: SExpr, n: Seq<char>, t: Ty) -> bool {
    &&& p is List
    &&& p->List_0@.len() == 3
    &&& p->List_0@[0] is Symbol
    &&& p->List_0@[0]->Symbol_0@ == n
    &&& p->List_0@[1] is Symbol
    &&& p->List_0@[1]->Symbol_0@ == ":"@
    &&& sexpr_type(p->List_0@[2]) == Some(t)
}

/// Whether `p` is `(name : type)` for some parameter.
pub open spec fn param_parsable(p: SExpr) -> bool {
    &&& p is List
    &&& p->List_0@.len() == 3
    &&& p->List_0@[0] is Symbol
    &&& p->List_0@[1] is Symbol
    &&& p->List_0@[1]->Symbol_0@ == ":"@
    &&& sexpr_type(p->List_0@[2]) is Some
}

/// The special forms, by the symbol at the head of their list.
#[derive(Copy, Clone, PartialEq, Eq, Structural)]
pub enum Keyword {
    Op(BinOp),
    If,
    Let,
    Lambda,
    MakeEnv,
    EnvRef,
    Begin,
    SetBang,
    Cons,
    Car,
    Cdr,
    IsNull,
    Null,
    MakeTuple,
    GetNth,
    Pack,
}

/// The special form that a head symbol introduces.
pub open spec fn keyword(h: Seq<char>) -> Option<Keyword> {
    if binop_named(h) is Some {
        Some(Keyword::Op(binop_named(h)->Some_0))
    } else if h == "if"@ {
        Some(Keyword::If)
    } else if h == "let"@ {
        Some(Keyword::Let)
    } else if h == "lambda"@ {
        Some(Keyword::Lambda)
    } else if h == "make-env"@ {
        Some(Keyword::MakeEnv)
    } else if h == "env-ref"@ {
        Some(Keyword::EnvRef)
    } else if h == "begin"@ {
        Some(Keyword::Begin)
    } else if h == "set!"@ {
        Some(Keyword::SetBang)
    } else if h == "cons"@ {
        Some(Keyword::Cons)
    } else if h == "car"@ {
        Some(Keyword::Car)
    } else if h == "cdr"@ {
        Some(Keyword::Cdr)
    } else if h == "null?"@ {
        Some(Keyword::IsNull)
    } else if h == "null"@ {
        Some(Keyword::Null)
    } else if h == "make-tuple"@ {
        Some(Keyword::MakeTuple)
    } else if h == "get-nth"@ {
        Some(Keyword::GetNth)
    } else if h == "pack"@ {
        Some(Keyword::Pack)
    } else {
        None
    }
}

/// The special form that the head of a list introduces, if its head is a
/// symbol that names one.
pub open spec fn head_keyword(items: Seq<SExpr>) -> Option<Keyword> {
    if items.len() > 0 && items[0] is Symbol {
        keyword(items[0]->Symbol_0@)
    } else {
        None
    }
}

/// Whether `e` is what the value `s` reads as.
pub open spec fn reads_as(s: SExpr, e: Expr) -> bool
    decreases s, 3nat,
{
    &&& e.checked_type is Unknown
    &&& match s {
        SExpr::Number(n) => e.kind == ExprKind::Num(n),
        SExpr::Bool(b) => e.kind == ExprKind::Bool(b),
        SExpr::Str(x) => e.kind is Str && e.kind->Str_0@ == x@,
        SExpr::Symbol(x) => if x@ == "true"@ {
            e.kind == ExprKind::Bool(true)
        } else if x@ == "false"@ {
            e.kind == ExprKind::Bool(false)
        } else {
            e.kind is Id && e.kind->Id_0@ == x@
        },
        SExpr::List(items) => list_reads(items@, e),
        SExpr::Other => false,
    }
}

/// Whether `es` is what `items[lo..]` read as, one for one.
pub open spec fn exprs_read(items: Seq<SExpr>, lo: int, es: Seq<Expr>) -> bool
    decreases items, 1nat,
{
    &&& 0 <= lo <= items.len()
    &&& es.len() == items.len() - lo
    &&& all_true(
        Seq::new(
            es.len(),
            |i: int| 0 <= i < es.len() && 0 <= lo + i < items.len() && reads_as(items[lo + i], es[i]),
        ),
    )
}

/// Whether `pair` is what the binding `(name value)` reads as.
pub open spec fn binding_reads(b: SExpr, pair: (String, Expr)) -> bool
    decreases b, 0nat,
{
    match b {
        SExpr::List(v) => v@.len() == 2 && v@[0] is Symbol && v@[0]->Symbol_0@ == pair.0@ && reads_as(
            v@[1],
            pair.1,
        ),
        _ => false,
    }
}

/// Whether `pairs` is what the bindings `(name value)` of `bs` read as.
pub open spec fn bindings_read(bs: Seq<SExpr>, pairs: Seq<(String, Expr)>) -> bool
    decreases bs, 1nat,
{
    &&& pairs.len() == bs.len()
    &&& all_true(Seq::new(bs.len(), |i: int| 0 <= i < bs.len() && binding_reads(bs[i], pairs[i])))
}

/// Whether `params` is what the parameters `(name : type)` of `ps` read as.
pub open spec fn params_read(ps: Seq<SExpr>, params: Seq<(String, Type)>) -> bool {
    &&& params.len() == ps.len()
    &&& all_true(Seq::new(ps.len(), |i: int| param_reads(ps[i], params[i].0@, ty_of(params[i].1))))
}

/// Whether `types` is what the annotations `ts` denote.
pub open spec fn types_read(ts: Seq<SExpr>, types: Seq<Type>) -> bool {
    &&& types.len() == ts.len()
    &&& all_true(Seq::new(ts.len(), |i: int| sexpr_type(ts[i]) == Some(ty_of(types[i]))))
}

/// Whether `e` is what the list `items` reads as: a special form when its
/// head names one, else an application.
pub open spec fn list_reads(items: Seq<SExpr>, e: Expr) -> bool
    decreases items, 2nat,
{
    let n = items.len();
    if n == 0 {
        false
    } else {
        match head_keyword(items) {
            Some(Keyword::Op(op)) => n == 3 && e.kind is Binop && e.kind->Binop_0 == op && reads_as(
                items[1],
                *e.kind->Binop_1,
            ) && reads_as(items[2], *e.kind->Binop_2),
            Some(Keyword::If) => n == 4 && e.kind is If && reads_as(items[1], *e.kind->If_0) && reads_as(
                items[2],
                *e.kind->If_1,
            ) && reads_as(items[3], *e.kind->If_2),
            Some(Keyword::Let) => n == 3 && items[1] is List && e.kind is Let && bindings_read(
                items[1]->List_0@,
                e.kind->Let_0@,
            ) && reads_as(items[2], *e.kind->Let_1),
            Some(Keyword::Lambda) => n == 5 && items[1] is List && items[2] is Symbol
                && items[2]->Symbol_0@ == ":"@ && e.kind is Lambda && params_read(
                items[1]->List_0@,
                e.kind->Lambda_0@,
            ) && sexpr_type(items[3]) == Some(ty_of(e.kind->Lambda_1)) && reads_as(
                items[4],
                *e.kind->Lambda_2,
            ),
            Some(Keyword::MakeEnv) => e.kind is Record && bindings_read(
                items.subrange(1, n as int),
                e.kind->Record_0@,
            ),
            Some(Keyword::EnvRef) => n == 3 && items[2] is Symbol && e.kind is RecordGet && reads_as(
                items[1],
                *e.kind->RecordGet_0,
            ) && e.kind->RecordGet_1@ == items[2]->Symbol_0@,
            Some(Keyword::Begin) => n > 1 && e.kind is Begin && exprs_read(items, 1, e.kind->Begin_0@),
            Some(Keyword::SetBang) => n == 3 && items[1] is Symbol && e.kind is Assign
                && e.kind->Assign_0@ == items[1]->Symbol_0@ && reads_as(items[2], *e.kind->Assign_1),
            Some(Keyword::Cons) => n == 3 && e.kind is Cons && reads_as(items[1], *e.kind->Cons_0)
                && reads_as(items[2], *e.kind->Cons_1),
            Some(Keyword::Car) => n == 2 && e.kind is Car && reads_as(items[1], *e.kind->Car_0),
            Some(Keyword::Cdr) => n == 2 && e.kind is Cdr && reads_as(items[1], *e.kind->Cdr_0),
            Some(Keyword::IsNull) => n == 2 && e.kind is IsNull && reads_as(items[1], *e.kind->IsNull_0),
            Some(Keyword::Null) => n == 2 && e.kind is Null && sexpr_type(items[1]) == Some(
                ty_of(e.kind->Null_0),
            ),
            Some(Keyword::MakeTuple) => n == 4 && items[1] is List && items[2] is Symbol
                && items[2]->Symbol_0@ == ":"@ && items[3] is List && e.kind is Tuple && exprs_read(
                items[1]->List_0@,
                0,
                e.kind->Tuple_0@,
            ) && types_read(items[3]->List_0@, e.kind->Tuple_1@),
            Some(Keyword::GetNth) => n == 3 && e.kind is TupleGet && reads_as(items[1], *e.kind->TupleGet_0)
                && reads_as(items[2], *e.kind->TupleGet_1),
            Some(Keyword::Pack) => n == 4 && e.kind is Pack && reads_as(items[1], *e.kind->Pack_0)
                && sexpr_type(items[2]) == Some(ty_of(e.kind->Pack_1)) && sexpr_type(items[3]) == Some(
                ty_of(e.kind->Pack_2),
            ),
            None => e.kind is FnApp && reads_as(items[0], *e.kind->FnApp_0) && exprs_read(
                items,
                1,
                e.kind->FnApp_1@,
            ),
        }
    }
}

/// Whether the value `s` reads as some expression.
pub open spec fn parsable(s: SExpr) -> bool
    decreases s, 3nat,
{
    match s {
        SExpr::List(items) => list_parsable(items@),
        SExpr::Other => false,
        _ => true,
    }
}

/// Whether every value of `s` reads as an expression.
pub open spec fn all_parsable(s: Seq<SExpr>) -> bool
    decreases s, 1nat,
{
    if s.len() == 0 {
        true
    } else {
        all_parsable(s.subrange(0, s.len() - 1)) && parsable(s[s.len() - 1])
    }
}

/// Whether `b` is a binding `(name value)` whose value reads as an expression.
pub open spec fn binding_parsable(b: SExpr) -> bool
    decreases b, 0nat,
{
    match b {
        SExpr::List(v) => v@.len() == 2 && v@[0] is Symbol && parsable(v@[1]),
        _ => false,
    }
}

/// Whether every value of `s` is a binding that reads.
pub open spec fn bindings_parsable(s: Seq<SExpr>) -> bool
    decreases s, 1nat,
{
    if s.len() == 0 {
        true
    } else {
        bindings_parsable(s.subrange(0, s.len() - 1)) && binding_parsable(s[s.len() - 1])
    }
}

/// Whether every value of `s` is a parameter `(name : type)`.
pub open spec fn params_parsable(s: Seq<SExpr>) -> bool
    decreases s.len(),
{
    if s.len() == 0 {
        true
    } else {
        params_parsable(s.subrange(0, s.len() - 1)) && param_parsable(s[s.len() - 1])
    }
}

/// Whether every value of `s` is a type annotation.
pub open spec fn types_parsable(s: Seq<SExpr>) -> bool
    decreases s.len(),
{
    if s.len() == 0 {
        true
    } else {
        types_parsable(s.subrange(0, s.len() - 1)) && sexpr_type(s[s.len() - 1]) is Some
    }
}

/// Whether the list `items` reads as some expression.
pub open spec fn list_parsable(items: Seq<SExpr>) -> bool
    decreases items, 2nat,
{
    let n = items.len();
    if n == 0 {
        false
    } else {
        match head_keyword(items) {
            Some(Keyword::Op(_)) => n == 3 && parsable(items[1]) && parsable(items[2]),
            Some(Keyword::If) => n == 4 && parsable(items[1]) && parsable(items[2]) && parsable(items[3]),
            Some(Keyword::Let) => n == 3 && items[1] is List && bindings_parsable(items[1]->List_0@)
                && parsable(items[2]),
            Some(Keyword::Lambda) => n == 5 && items[1] is List && params_parsable(items[1]->List_0@)
                && items[2] is Symbol && items[2]->Symbol_0@ == ":"@ && sexpr_type(items[3]) is Some
                && parsable(items[4]),
            Some(Keyword::MakeEnv) => bindings_parsable(items.subrange(1, n as int)),
            Some(Keyword::EnvRef) => n == 3 && parsable(items[1]) && items[2] is Symbol,
            Some(Keyword::Begin) => n > 1 && all_parsable(items.subrange(1, n as int)),
            Some(Keyword::SetBang) => n == 3 && items[1] is Symbol && parsable(items[2]),
            Some(Keyword::Cons) => n == 3 && parsable(items[1]) && parsable(items[2]),
            Some(Keyword::Car) => n == 2 && parsable(items[1]),
            Some(Keyword::Cdr) => n == 2 && parsable(items[1]),
            Some(Keyword::IsNull) => n == 2 && parsable(items[1]),
            Some(Keyword::Null) => n == 2 && sexpr_type(items[1]) is Some,
            Some(Keyword::MakeTuple) => n == 4 && items[1] is List && all_parsable(items[1]->List_0@)
                && items[2] is Symbol && items[2]->Symbol_0@ == ":"@ && items[3] is List && types_parsable(
                items[3]->List_0@,
            ),
            Some(Keyword::GetNth) => n == 3 && parsable(items[1]) && parsable(items[2]),
            Some(Keyword::Pack) => n == 4 && parsable(items[1]) && sexpr_type(items[2]) is Some && sexpr_type(
                items[3],
            ) is Some,
            None => parsable(items[0]) && all_parsable(items.subrange(1, n as int)),
        }
    }
}

proof fn lemma_all_parsable_prefix(s: Seq<SExpr>, k: int)
    requires
        0 <= k <= s.len(),
        !all_parsable(s.subrange(0, k)),
    ensures
        !all_parsable(s),
    decreases s.len() - k,
{
    if k == s.len() {
        assert(s.subrange(0, k) =~= s);
    } else {
        let init = s.subrange(0, s.len() - 1);
        assert(init.subrange(0, k) =~= s.subrange(0, k));
        lemma_all_parsable_prefix(init, k);
    }
}

proof fn lemma_bindings_parsable_prefix(s: Seq<SExpr>, k: int)
    requires
        0 <= k <= s.len(),
        !bindings_parsable(s.subrange(0, k)),
    ensures
        !bindings_parsable(s),
    decreases s.len() - k,
{
    if k == s.len() {
        assert(s.subrange(0, k) =~= s);
    } else {
        let init = s.subrange(0, s.len() - 1);
        assert(init.subrange(0, k) =~= s.subrange(0, k));
        lemma_bindings_parsable_prefix(init, k);
    }
}

proof fn lemma_params_parsable_prefix(s: Seq<SExpr>, k: int)
    requires
        0 <= k <= s.len(),
        !params_parsable(s.subrange(0, k)),
    ensures
        !params_parsable(s),
    decreases s.len() - k,
{
    if k == s.len() {
        assert(s.subrange(0, k) =~= s);
    } else {
        let init = s.subrange(0, s.len() - 1);
        assert(init.subrange(0, k) =~= s.subrange(0, k));
        lemma_params_parsable_prefix(init, k);
    }
}

proof fn lemma_types_parsable_prefix(s: Seq<SExpr>, k: int)
    requires
        0 <= k <= s.len(),
        !types_parsable(s.subrange(0, k)),
    ensures
        !types_parsable(s),
    decreases s.len() - k,
{
    if k == s.len() {
        assert(s.subrange(0, k) =~= s);
    } else {
        let init = s.subrange(0, s.len() - 1);
        assert(init.subrange(0, k) =~= s.subrange(0, k));
        lemma_types_parsable_prefix(init, k);
    }
}

fn fail(msg: &str) -> ParseError {
    ParseError::new(msg)
}

/// The operator that a symbol names.
fn binop_of(h: &String) -> (r: Option<BinOp>)
    ensures
        r == binop_named(h@),
{
    let h = h.as_str();
    if same_text(h, "and") {
        Some(BinOp::And)
    } else if same_text(h, "or") {
        Some(BinOp::Or)
    } else if same_text(h, "+") {
        Some(BinOp::Add)
    } else if same_text(h, "-") {
        Some(BinOp::Subtract)
    } else if same_text(h, "*") {
        Some(BinOp::Multiply)
    } else if same_text(h, "/") {
        Some(BinOp::Divide)
    } else if same_text(h, "<") {
        Some(BinOp::LessThan)
    } else if same_text(h, ">") {
        Some(BinOp::GreaterThan)
    } else if same_text(h, "<=") {
        Some(BinOp::LessOrEqual)
    } else if same_text(h, ">=") {
        Some(BinOp::GreaterOrEqual)
    } else if same_text(h, "=") {
        Some(BinOp::EqualTo)
    } else if same_text(h, "concat") {
        Some(BinOp::Concat)
    } else {
        None
    }
}

/// The special form that a head symbol introduces.
fn keyword_of(h: &String) -> (r: Option<Keyword>)
    ensures
        r == keyword(h@),
{
    if let Some(op) = binop_of(h) {
        return Some(Keyword::Op(op));
    }
    let h = h.as_str();
    if same_text(h, "if") {
        Some(Keyword::If)
    } else if same_text(h, "let") {
        Some(Keyword::Let)
    } else if same_text(h, "lambda") {
        Some(Keyword::Lambda)
    } else if same_text(h, "make-env") {
        Some(Keyword::MakeEnv)
    } else if same_text(h, "env-ref") {
        Some(Keyword::EnvRef)
    } else if same_text(h, "begin") {
        Some(Keyword::Begin)
    } else if same_text(h, "set!") {
        Some(Keyword::SetBang)
    } else if same_text(h, "cons") {
        Some(Keyword::Cons)
    } else if same_text(h, "car") {
        Some(Keyword::Car)
    } else if same_text(h, "cdr") {
        Some(Keyword::Cdr)
    } else if same_text(h, "null?") {
        Some(Keyword::IsNull)
    } else if same_text(h, "null") {
        Some(Keyword::Null)
    } else if same_text(h, "make-tuple") {
        Some(Keyword::MakeTuple)
    } else if same_text(h, "get-nth") {
        Some(Keyword::GetNth)
    } else if same_text(h, "pack") {
        Some(Keyword::Pack)
    } else {
        None
    }
}

/// Reads `items[lo..]` as expressions, one for one.
fn parse_array(items: &Vec<SExpr>, lo: usize) -> (r: Result<Vec<Expr>, ParseError>)
    requires
        lo <= items@.len(),
    ensures
        r is Ok ==> exprs_read(items@, lo as int, r->Ok_0@),
        r is Ok <==> all_parsable(items@.subrange(lo as int, items@.len() as int)),
    decreases items, 0nat,
{
    let mut out: Vec<Expr> = Vec::new();
    let mut i = lo;
    while i < items.len()
        invariant
            lo <= i <= items@.len(),
            out@.len() == i - lo,
            forall|k: int| 0 <= k < i - lo ==> reads_as(items@[lo + k], #[trigger] out@[k]),
            all_parsable(items@.subrange(lo as int, i as int)),
        decreases items@.len() - i,
    {
        let ghost next = items@.subrange(lo as int, i + 1);
        assert(next[next.len() - 1] == items@[i as int]);
        assert(next.subrange(0, next.len() - 1) =~= items@.subrange(lo as int, i as int));
        match parse(&items[i]) {
            Ok(e) => out.push(e),
            Err(x) => {
                proof {
                    let whole = items@.subrange(lo as int, items@.len() as int);
                    assert(whole.subrange(0, i + 1 - lo) =~= next);
                    lemma_all_parsable_prefix(whole, i + 1 - lo);
                }
                return Err(x);
            },
        }
        i = i + 1;
    }
    assert(items@.subrange(lo as int, i as int) =~= items@.subrange(lo as int, items@.len() as int));
    let ghost flags = Seq::new(
        out@.len(),
        |k: int| 0 <= k < out@.len() && 0 <= lo + k < items@.len() && reads_as(items@[lo + k], out@[k]),
    );
    assert forall|k: int| 0 <= k < flags.len() implies #[trigger] flags[k] by {
        assert(reads_as(items@[lo + k], out@[k]));
    }
    Ok(out)
}

/// Reads the bindings `(name value)` of `bs[lo..]`.
fn parse_bindings(bs: &Vec<SExpr>, lo: usize) -> (r: Result<Vec<(String, Expr)>, ParseError>)
    requires
        lo <= bs@.len(),
    ensures
        r is Ok ==> bindings_read(bs@.subrange(lo as int, bs@.len() as int), r->Ok_0@),
        r is Ok <==> bindings_parsable(bs@.subrange(lo as int, bs@.len() as int)),
    decreases bs, 0nat,
{
    let ghost part = bs@.subrange(lo as int, bs@.len() as int);
    let mut out: Vec<(String, Expr)> = Vec::new();
    let mut i = lo;
    while i < bs.len()
        invariant
            lo <= i <= bs@.len(),
            part == bs@.subrange(lo as int, bs@.len() as int),
            out@.len() == i - lo,
            forall|k: int| 0 <= k < i - lo ==> binding_reads(part[k], #[trigger] out@[k]),
            bindings_parsable(part.subrange(0, i - lo)),
        decreases bs@.len() - i,
    {
        let ghost next = part.subrange(0, i + 1 - lo);
        assert(next.subrange(0, next.len() - 1) =~= part.subrange(0, i - lo));
        assert(next[next.len() - 1] == bs@[i as int]);
        let pair = match &bs[i] {
            SExpr::List(b) => b,
            _ => {
                proof {
                    assert(!binding_parsable(bs@[i as int]));
                    assert(!bindings_parsable(next));
                    lemma_bindings_parsable_prefix(part, i + 1 - lo);
                }
                return Err(fail("Binding is not a valid list."));
            },
        };
        if pair.len() != 2 {
            {
                proof {
                    assert(!binding_parsable(bs@[i as int]));
                    assert(!bindings_parsable(next));
                    lemma_bindings_parsable_prefix(part, i + 1 - lo);
                }
                return Err(fail("Binding is missing values or contains extra values."));
            };
        }
        let name = match &pair[0] {
            SExpr::Symbol(x) => x,
            _ => {
                proof {
                    assert(!binding_parsable(bs@[i as int]));
                    assert(!bindings_parsable(next));
                    lemma_bindings_parsable_prefix(part, i + 1 - lo);
                }
                return Err(fail("Binding does not have a valid name."));
            },
        };
        proof {
            assert(decreases_to!(bs => pair@[1]));
        }
        let value = match parse(&pair[1]) {
            Ok(e) => e,
            Err(x) => {
                proof {
                    assert(!binding_parsable(bs@[i as int]));
                    assert(!bindings_parsable(next));
                    lemma_bindings_parsable_prefix(part, i + 1 - lo);
                }
                return Err(x);
            },
        };
        let ghost prev = out@;
        out.push((name.clone(), value));
        proof {
            let k0 = i - lo;
            assert(part[k0] == bs@[i as int]);
            assert(part[k0]->List_0 == *pair);
            assert(out@[k0].0@ == pair@[0]->Symbol_0@);
            assert(binding_reads(part[k0], out@[k0]));
            assert(binding_parsable(bs@[i as int]));
            assert(bindings_parsable(next));
            assert forall|k: int| 0 <= k < k0 implies out@[k] == prev[k] by {}
        }
        i = i + 1;
    }
    let ghost flags = Seq::new(part.len(), |k: int| 0 <= k < part.len() && binding_reads(part[k], out@[k]));
    assert forall|k: int| 0 <= k < flags.len() implies #[trigger] flags[k] by {
        assert(binding_reads(part[k], out@[k]));
    }
    assert(part.subrange(0, i - lo) =~= part);
    Ok(out)
}

/// Reads the parameter list `((name : type) ...)` of a lambda.
fn unwrap_lambda_args(ps: &Vec<SExpr>) -> (r: Result<Vec<(String, Type)>, ParseError>)
    ensures
        r is Ok ==> params_read(ps@, r->Ok_0@),
        r is Ok <==> params_parsable(ps@),
{
    let mut out: Vec<(String, Type)> = Vec::new();
    let mut i: usize = 0;
    while i < ps.len()
        invariant
            i <= ps@.len(),
            out@.len() == i,
            forall|k: int| 0 <= k < i ==> param_reads(ps@[k], out@[k].0@, ty_of(#[trigger] out@[k].1)),
            params_parsable(ps@.subrange(0, i as int)),
        decreases ps@.len() - i,
    {
        let ghost next = ps@.subrange(0, i + 1);
        assert(next.subrange(0, next.len() - 1) =~= ps@.subrange(0, i as int));
        assert(next[next.len() - 1] == ps@[i as int]);
        let arg = match &ps[i] {
            SExpr::List(a) => a,
            _ => {
                proof {
                    lemma_params_parsable_prefix(ps@, i + 1);
                }
                return Err(fail("Lambda argument is not a valid list."));
            },
        };
        if arg.len() != 3 {
            {
                proof {
                    lemma_params_parsable_prefix(ps@, i + 1);
                }
                return Err(fail("Lambda argument is missing values or contains extra values."));
            };
        }
        match &arg[1] {
            SExpr::Symbol(sep) => {
                if !same_text(sep.as_str(), ":") {
                    {
                proof {
                    lemma_params_parsable_prefix(ps@, i + 1);
                }
                return Err(fail("Lambda argument does not contain the correct : separator."));
            };
                }
            },
            _ => {
                proof {
                    lemma_params_parsable_prefix(ps@, i + 1);
                }
                return Err(fail("Lambda argument does not contain the correct : separator."));
            },
        }
        let name = match &arg[0] {
            SExpr::Symbol(x) => x,
            _ => {
                proof {
                    lemma_params_parsable_prefix(ps@, i + 1);
                }
                return Err(fail("Lambda argument does not have a valid name."));
            },
        };
        let t = match parse_type(&arg[2]) {
            Ok(t) => t,
            Err(x) => {
                proof {
                    lemma_params_parsable_prefix(ps@, i + 1);
                }
                return Err(x);
            },
        };
        out.push((name.clone(), t));
        i = i + 1;
    }
    assert(ps@.subrange(0, i as int) =~= ps@);
    let ghost flags = Seq::new(ps@.len(), |k: int| param_reads(ps@[k], out@[k].0@, ty_of(out@[k].1)));
    assert forall|k: int| 0 <= k < flags.len() implies #[trigger] flags[k] by {
        assert(param_reads(ps@[k], out@[k].0@, ty_of(out@[k].1)));
    }
    Ok(out)
}

/// Reads a list of type annotations.
fn parse_type_list(ts: &Vec<SExpr>) -> (r: Result<Vec<Type>, ParseError>)
    ensures
        r is Ok ==> types_read(ts@, r->Ok_0@),
        r is Ok <==> types_parsable(ts@),
{
    let mut out: Vec<Type> = Vec::new();
    let mut i: usize = 0;
    while i < ts.len()
        invariant
            i <= ts@.len(),
            out@.len() == i,
            forall|k: int| 0 <= k < i ==> sexpr_type(ts@[k]) == Some(ty_of(#[trigger] out@[k])),
            types_parsable(ts@.subrange(0, i as int)),
        decreases ts@.len() - i,
    {
        let ghost next = ts@.subrange(0, i + 1);
        assert(next.subrange(0, next.len() - 1) =~= ts@.subrange(0, i as int));
        assert(next[next.len() - 1] == ts@[i as int]);
        match parse_type(&ts[i]) {
            Ok(t) => out.push(t),
            Err(x) => {
                proof {
                    lemma_types_parsable_prefix(ts@, i + 1);
                }
                return Err(x);
            },
        }
        i = i + 1;
    }
    assert(ts@.subrange(0, i as int) =~= ts@);
    let ghost flags = Seq::new(ts@.len(), |k: int| sexpr_type(ts@[k]) == Some(ty_of(out@[k])));
    assert forall|k: int| 0 <= k < flags.len() implies #[trigger] flags[k] by {
        assert(sexpr_type(ts@[k]) == Some(ty_of(out@[k])));
    }
    Ok(out)
}

/// Reads `(op a b)`.
fn parse_binop(op: BinOp, items: &Vec<SExpr>) -> (r: Result<Expr, ParseError>)
    requires
        items@.len() > 0,
        head_keyword(items@) == Some(Keyword::Op(op)),
    ensures
        r is Ok ==> list_reads(items@, r->Ok_0) && r->Ok_0.checked_type is Unknown,
        r is Ok <==> list_parsable(items@),
    decreases items, 1nat,
{
    if items.len() != 3 {
        return Err(fail("Binary operator has incorrect number of sub-expressions."));
    }
    let a = match parse(&items[1]) {
        Ok(e) => e,
        Err(x) => return Err(x),
    };
    let b = match parse(&items[2]) {
        Ok(e) => e,
        Err(x) => return Err(x),
    };
    Ok(Expr::new(ExprKind::Binop(op, Box::new(a), Box::new(b))))
}

/// Reads `(if p c a)`.
fn parse_if(items: &Vec<SExpr>) -> (r: Result<Expr, ParseError>)
    requires
        items@.len() > 0,
        head_keyword(items@) == Some(Keyword::If),
    ensures
        r is Ok ==> list_reads(items@, r->Ok_0) && r->Ok_0.checked_type is Unknown,
        r is Ok <==> list_parsable(items@),
    decreases items, 1nat,
{
    if items.len() != 4 {
        return Err(fail("If expression has incorrect number of arguments."));
    }
    let p = match parse(&items[1]) {
        Ok(e) => e,
        Err(x) => return Err(x),
    };
    let c = match parse(&items[2]) {
        Ok(e) => e,
        Err(x) => return Err(x),
    };
    let a = match parse(&items[3]) {
        Ok(e) => e,
        Err(x) => return Err(x),
    };
    Ok(Expr::new(ExprKind::If(Box::new(p), Box::new(c), Box::new(a))))
}

/// Reads `(let ((name value) ...) body)`.
fn parse_let(items: &Vec<SExpr>) -> (r: Result<Expr, ParseError>)
    requires
        items@.len() > 0,
        head_keyword(items@) == Some(Keyword::Let),
    ensures
        r is Ok ==> list_reads(items@, r->Ok_0) && r->Ok_0.checked_type is Unknown,
        r is Ok <==> list_parsable(items@),
    decreases items, 1nat,
{
    if items.len() != 3 {
        return Err(fail("Let expression has incorrect number of arguments."));
    }
    let bs = match &items[1] {
        SExpr::List(bs) => bs,
        _ => return Err(fail("Let expression bindings are not in a proper list.")),
    };
    assert(bs@.subrange(0, bs@.len() as int) =~= bs@);
    let bindings = match parse_bindings(bs, 0) {
        Ok(b) => b,
        Err(x) => return Err(x),
    };
    let body = match parse(&items[2]) {
        Ok(e) => e,
        Err(x) => return Err(x),
    };
    Ok(Expr::new(ExprKind::Let(bindings, Box::new(body))))
}

/// Reads `(lambda ((name : type) ...) : type body)`.
fn parse_lambda(items: &Vec<SExpr>) -> (r: Result<Expr, ParseError>)
    requires
        items@.len() > 0,
        head_keyword(items@) == Some(Keyword::Lambda),
    ensures
        r is Ok ==> list_reads(items@, r->Ok_0) && r->Ok_0.checked_type is Unknown,
        r is Ok <==> list_parsable(items@),
    decreases items, 1nat,
{
    if items.len() != 5 {
        return Err(fail("Lambda expression has incorrect number of arguments. Perhaps you are missing the return type?"));
    }
    let ps = match &items[1] {
        SExpr::List(ps) => ps,
        _ => return Err(fail("Lambda arguments are not in a valid list.")),
    };
    let params = match unwrap_lambda_args(ps) {
        Ok(p) => p,
        Err(x) => return Err(x),
    };
    match &items[2] {
        SExpr::Symbol(sep) => {
            if !same_text(sep.as_str(), ":") {
                return Err(fail("Lambda expression does not have the correct separator : between the arguments list and return type."));
            }
        },
        _ => return Err(fail("Lambda expression does not have a separator between the arguments list and return type.")),
    }
    let ret = match parse_type(&items[3]) {
        Ok(t) => t,
        Err(x) => return Err(x),
    };
    let body = match parse(&items[4]) {
        Ok(e) => e,
        Err(x) => return Err(x),
    };
    Ok(Expr::new(ExprKind::Lambda(params, ret, Box::new(body))))
}

/// Reads `(make-env (name value) ...)` as a record.
fn parse_make_env(items: &Vec<SExpr>) -> (r: Result<Expr, ParseError>)
    requires
        items@.len() > 0,
        head_keyword(items@) == Some(Keyword::MakeEnv),
    ensures
        r is Ok ==> list_reads(items@, r->Ok_0) && r->Ok_0.checked_type is Unknown,
        r is Ok <==> list_parsable(items@),
    decreases items, 1nat,
{
    let fields = match parse_bindings(items, 1) {
        Ok(b) => b,
        Err(x) => return Err(x),
    };
    Ok(Expr::new(ExprKind::Record(fields)))
}

/// Reads `(env-ref record name)`.
fn parse_get_env(items: &Vec<SExpr>) -> (r: Result<Expr, ParseError>)
    requires
        items@.len() > 0,
        head_keyword(items@) == Some(Keyword::EnvRef),
    ensures
        r is Ok ==> list_reads(items@, r->Ok_0) && r->Ok_0.checked_type is Unknown,
        r is Ok <==> list_parsable(items@),
    decreases items, 1nat,
{
    if items.len() != 3 {
        return Err(fail("Env-ref expression has incorrect number of arguments."));
    }
    let rec = match parse(&items[1]) {
        Ok(e) => e,
        Err(x) => return Err(x),
    };
    match &items[2] {
        SExpr::Symbol(key) => Ok(Expr::new(ExprKind::RecordGet(Box::new(rec), key.clone()))),
        _ => Err(fail("Env-ref key is not a valid identifier.")),
    }
}

/// Reads `(begin e ...)`.
fn parse_begin(items: &Vec<SExpr>) -> (r: Result<Expr, ParseError>)
    requires
        items@.len() > 0,
        head_keyword(items@) == Some(Keyword::Begin),
    ensures
        r is Ok ==> list_reads(items@, r->Ok_0) && r->Ok_0.checked_type is Unknown,
        r is Ok <==> list_parsable(items@),
    decreases items, 1nat,
{
    if items.len() < 2 {
        return Err(fail("Begin expression has no arguments."));
    }
    match parse_array(items, 1) {
        Ok(es) => Ok(Expr::new(ExprKind::Begin(es))),
        Err(x) => Err(x),
    }
}

/// Reads `(set! name value)`.
fn parse_set_bang(items: &Vec<SExpr>) -> (r: Result<Expr, ParseError>)
    requires
        items@.len() > 0,
        head_keyword(items@) == Some(Keyword::SetBang),
    ensures
        r is Ok ==> list_reads(items@, r->Ok_0) && r->Ok_0.checked_type is Unknown,
        r is Ok <==> list_parsable(items@),
    decreases items, 1nat,
{
    if items.len() != 3 {
        return Err(fail("Set expression has incorrect number of arguments."));
    }
    let var = match &items[1] {
        SExpr::Symbol(v) => v,
        _ => return Err(fail("Set expression does not have a symbol as its first argument.")),
    };
    let value = match parse(&items[2]) {
        Ok(e) => e,
        Err(x) => return Err(x),
    };
    Ok(Expr::new(ExprKind::Assign(var.clone(), Box::new(value))))
}

/// Reads `(cons head tail)`.
fn parse_cons(items: &Vec<SExpr>) -> (r: Result<Expr, ParseError>)
    requires
        items@.len() > 0,
        head_keyword(items@) == Some(Keyword::Cons),
    ensures
        r is Ok ==> list_reads(items@, r->Ok_0) && r->Ok_0.checked_type is Unknown,
        r is Ok <==> list_parsable(items@),
    decreases items, 1nat,
{
    if items.len() != 3 {
        return Err(fail("Cons expression has incorrect number of arguments."));
    }
    let head = match parse(&items[1]) {
        Ok(e) => e,
        Err(x) => return Err(x),
    };
    let tail = match parse(&items[2]) {
        Ok(e) => e,
        Err(x) => return Err(x),
    };
    Ok(Expr::new(ExprKind::Cons(Box::new(head), Box::new(tail))))
}

/// Reads the one-operand form `Car`.
fn parse_car(items: &Vec<SExpr>) -> (r: Result<Expr, ParseError>)
    requires
        items@.len() > 0,
        head_keyword(items@) == Some(Keyword::Car),
    ensures
        r is Ok ==> list_reads(items@, r->Ok_0) && r->Ok_0.checked_type is Unknown,
        r is Ok <==> list_parsable(items@),
    decreases items, 1nat,
{
    if items.len() != 2 {
        return Err(fail("Car expression has incorrect number of arguments."));
    }
    let arg = match parse(&items[1]) {
        Ok(e) => e,
        Err(x) => return Err(x),
    };
    Ok(Expr::new(ExprKind::Car(Box::new(arg))))
}

/// Reads the one-operand form `Cdr`.
fn parse_cdr(items: &Vec<SExpr>) -> (r: Result<Expr, ParseError>)
    requires
        items@.len() > 0,
        head_keyword(items@) == Some(Keyword::Cdr),
    ensures
        r is Ok ==> list_reads(items@, r->Ok_0) && r->Ok_0.checked_type is Unknown,
        r is Ok <==> list_parsable(items@),
    decreases items, 1nat,
{
    if items.len() != 2 {
        return Err(fail("Cdr expression has incorrect number of arguments."));
    }
    let arg = match parse(&items[1]) {
        Ok(e) => e,
        Err(x) => return Err(x),
    };
    Ok(Expr::new(ExprKind::Cdr(Box::new(arg))))
}

/// Reads the one-operand form `IsNull`.
fn parse_is_null(items: &Vec<SExpr>) -> (r: Result<Expr, ParseError>)
    requires
        items@.len() > 0,
        head_keyword(items@) == Some(Keyword::IsNull),
    ensures
        r is Ok ==> list_reads(items@, r->Ok_0) && r->Ok_0.checked_type is Unknown,
        r is Ok <==> list_parsable(items@),
    decreases items, 1nat,
{
    if items.len() != 2 {
        return Err(fail("Null? expression has incorrect number of arguments."));
    }
    let arg = match parse(&items[1]) {
        Ok(e) => e,
        Err(x) => return Err(x),
    };
    Ok(Expr::new(ExprKind::IsNull(Box::new(arg))))
}

/// Reads `(null type)`.
fn parse_null(items: &Vec<SExpr>) -> (r: Result<Expr, ParseError>)
    requires
        items@.len() > 0,
        head_keyword(items@) == Some(Keyword::Null),
    ensures
        r is Ok ==> list_reads(items@, r->Ok_0) && r->Ok_0.checked_type is Unknown,
        r is Ok <==> list_parsable(items@),
    decreases items, 1nat,
{
    if items.len() != 2 {
        return Err(fail("Null expression has incorrect number of arguments."));
    }
    match parse_type(&items[1]) {
        Ok(t) => Ok(Expr::new(ExprKind::Null(t))),
        Err(x) => Err(x),
    }
}

/// Reads `(make-tuple (e ...) : (type ...))`.
fn parse_make_tuple(items: &Vec<SExpr>) -> (r: Result<Expr, ParseError>)
    requires
        items@.len() > 0,
        head_keyword(items@) == Some(Keyword::MakeTuple),
    ensures
        r is Ok ==> list_reads(items@, r->Ok_0) && r->Ok_0.checked_type is Unknown,
        r is Ok <==> list_parsable(items@),
    decreases items, 1nat,
{
    if items.len() != 4 {
        return Err(fail("Make-tuple expression has incorrect number of arguments."));
    }
    let vals = match &items[1] {
        SExpr::List(vs) => vs,
        _ => return Err(fail("First argument in make-tuple expression is not a list.")),
    };
    assert(vals@.subrange(0, vals@.len() as int) =~= vals@);
    let es = match parse_array(vals, 0) {
        Ok(es) => es,
        Err(x) => return Err(x),
    };
    match &items[2] {
        SExpr::Symbol(sep) => {
            if !same_text(sep.as_str(), ":") {
                return Err(fail("Make-tuple expression does not have the correct separator : between the arguments list and return type."));
            }
        },
        _ => return Err(fail("Make-tuple expression does not have a separator between the arguments list and return type.")),
    }
    let ts = match &items[3] {
        SExpr::List(ts) => ts,
        _ => return Err(fail("Make-tuple expression does not have a proper list of types.")),
    };
    let types = match parse_type_list(ts) {
        Ok(t) => t,
        Err(x) => return Err(x),
    };
    Ok(Expr::new(ExprKind::Tuple(es, types)))
}

/// Reads `(get-nth tuple index)`.
fn parse_get_tuple(items: &Vec<SExpr>) -> (r: Result<Expr, ParseError>)
    requires
        items@.len() > 0,
        head_keyword(items@) == Some(Keyword::GetNth),
    ensures
        r is Ok ==> list_reads(items@, r->Ok_0) && r->Ok_0.checked_type is Unknown,
        r is Ok <==> list_parsable(items@),
    decreases items, 1nat,
{
    if items.len() != 3 {
        return Err(fail("Get-nth expression has incorrect number of arguments."));
    }
    let tup = match parse(&items[1]) {
        Ok(e) => e,
        Err(x) => return Err(x),
    };
    let key = match parse(&items[2]) {
        Ok(e) => e,
        Err(x) => return Err(x),
    };
    Ok(Expr::new(ExprKind::TupleGet(Box::new(tup), Box::new(key))))
}

/// Reads `(pack value type existential-type)`.
fn parse_pack(items: &Vec<SExpr>) -> (r: Result<Expr, ParseError>)
    requires
        items@.len() > 0,
        head_keyword(items@) == Some(Keyword::Pack),
    ensures
        r is Ok ==> list_reads(items@, r->Ok_0) && r->Ok_0.checked_type is Unknown,
        r is Ok <==> list_parsable(items@),
    decreases items, 1nat,
{
    if items.len() != 4 {
        return Err(fail("Pack expression has incorrect number of arguments."));
    }
    let value = match parse(&items[1]) {
        Ok(e) => e,
        Err(x) => return Err(x),
    };
    let hidden = match parse_type(&items[2]) {
        Ok(t) => t,
        Err(x) => return Err(x),
    };
    let ex = match parse_type(&items[3]) {
        Ok(t) => t,
        Err(x) => return Err(x),
    };
    Ok(Expr::new(ExprKind::Pack(Box::new(value), hidden, ex)))
}

/// Reads an application `(f arg ...)`.
fn parse_func(items: &Vec<SExpr>) -> (r: Result<Expr, ParseError>)
    requires
        items@.len() > 0,
        head_keyword(items@) == None::<Keyword>,
    ensures
        r is Ok ==> list_reads(items@, r->Ok_0) && r->Ok_0.checked_type is Unknown,
        r is Ok <==> list_parsable(items@),
    decreases items, 1nat,
{
    let func = match parse(&items[0]) {
        Ok(e) => e,
        Err(x) => return Err(x),
    };
    match parse_array(items, 1) {
        Ok(args) => Ok(Expr::new(ExprKind::FnApp(Box::new(func), args))),
        Err(x) => Err(x),
    }
}

/// Reads a list: a special form when its head names one, else an
/// application.
fn parse_list(items: &Vec<SExpr>) -> (r: Result<Expr, ParseError>)
    ensures
        r is Ok ==> list_reads(items@, r->Ok_0) && r->Ok_0.checked_type is Unknown,
        r is Ok <==> list_parsable(items@),
    decreases items, 2nat,
{
    if items.len() == 0 {
        return Err(fail("Empty list found."));
    }
    let kw = match &items[0] {
        SExpr::Symbol(h) => keyword_of(h),
        _ => None,
    };
    match kw {
        Some(Keyword::Op(op)) => parse_binop(op, items),
        Some(Keyword::If) => parse_if(items),
        Some(Keyword::Let) => parse_let(items),
        Some(Keyword::Lambda) => parse_lambda(items),
        Some(Keyword::MakeEnv) => parse_make_env(items),
        Some(Keyword::EnvRef) => parse_get_env(items),
        Some(Keyword::Begin) => parse_begin(items),
        Some(Keyword::SetBang) => parse_set_bang(items),
        Some(Keyword::Cons) => parse_cons(items),
        Some(Keyword::Car) => parse_car(items),
        Some(Keyword::Cdr) => parse_cdr(items),
        Some(Keyword::IsNull) => parse_is_null(items),
        Some(Keyword::Null) => parse_null(items),
        Some(Keyword::MakeTuple) => parse_make_tuple(items),
        Some(Keyword::GetNth) => parse_get_tuple(items),
        Some(Keyword::Pack) => parse_pack(items),
        None => parse_func(items),
    }
}

/// Reads an expression. What it returns is what the value reads as.
pub fn parse(value: &SExpr) -> (r: Result<Expr, ParseError>)
    ensures
        r is Ok ==> reads_as(*value, r->Ok_0),
        r is Ok <==> parsable(*value),
    decreases value, 3nat,
{
    match value {
        SExpr::Number(n) => Ok(Expr::new(ExprKind::Num(*n))),
        SExpr::Bool(b) => Ok(Expr::new(ExprKind::Bool(*b))),
        SExpr::Str(x) => Ok(Expr::new(ExprKind::Str(x.clone()))),
        SExpr::Symbol(x) => {
            if same_text(x.as_str(), "true") {
                Ok(Expr::new(ExprKind::Bool(true)))
            } else if same_text(x.as_str(), "false") {
                Ok(Expr::new(ExprKind::Bool(false)))
            } else {
                Ok(Expr::new(ExprKind::Id(x.clone())))
            }
        },
        SExpr::List(items) => parse_list(items),
        SExpr::Other => Err(fail("Unrecognized form of expression found.")),
    }
}

} // verus!
