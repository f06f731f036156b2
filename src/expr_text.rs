use crate::display::{decimal, type_text, write_decimal, write_type};
use crate::expr::{BinOp, Expr, ExprKind};
use crate::text::{push_char, push_text};
use crate::types::{ty_of, Type};
use vstd::prelude::*;

verus! {

/// The symbol of an operator.
pub open spec fn op_text(op: BinOp) -> Seq<char> {
    match op {
        BinOp::Add => "+"@,
        BinOp::Subtract => "-"@,
        BinOp::Multiply => "*"@,
        BinOp::Divide => "/"@,
        BinOp::LessThan => "<"@,
        BinOp::GreaterThan => ">"@,
        BinOp::LessOrEqual => "<="@,
        BinOp::GreaterOrEqual => ">="@,
        BinOp::EqualTo => "="@,
        BinOp::And => "and"@,
        BinOp::Or => "or"@,
        BinOp::Concat => "concat"@,
    }
}

/// `n` in decimal, with a minus sign when negative.
pub open spec fn int_text(n: int) -> Seq<char> {
    if n < 0 {
        "-"@ + decimal((-n) as nat)
    } else {
        decimal(n as nat)
    }
}

/// The text of an expression, in the surface syntax that reads back as it.
pub open spec fn expr_text(e: Expr) -> Seq<char>
    decreases e, 2nat,
{
    match e.kind {
        ExprKind::Binop(op, a, b) => "("@ + op_text(op) + " "@ + expr_text(*a) + " "@ + expr_text(*b) + ")"@,
        ExprKind::If(p, c, a) => "(if "@ + expr_text(*p) + " "@ + expr_text(*c) + " "@ + expr_text(*a) + ")"@,
        ExprKind::Let(bs, body) => "(let ("@ + bindings_text(bs@) + ") "@ + expr_text(*body) + ")"@,
        ExprKind::Lambda(ps, ret, body) => "(lambda ("@ + params_text(ps@) + ") : "@ + type_text(ty_of(ret)) + " "@
            + expr_text(*body) + ")"@,
        ExprKind::Begin(es) => "(begin"@ + spaced_exprs(es@) + ")"@,
        ExprKind::Assign(x, v) => "(set! "@ + x@ + " "@ + expr_text(*v) + ")"@,
        ExprKind::Cons(h, t) => "(cons "@ + expr_text(*h) + " "@ + expr_text(*t) + ")"@,
        ExprKind::Car(l) => "(car "@ + expr_text(*l) + ")"@,
        ExprKind::Cdr(l) => "(cdr "@ + expr_text(*l) + ")"@,
        ExprKind::IsNull(l) => "(null? "@ + expr_text(*l) + ")"@,
        ExprKind::Null(t) => "(null "@ + type_text(ty_of(t)) + ")"@,
        ExprKind::FnApp(f, args) => "("@ + expr_text(*f) + spaced_exprs(args@) + ")"@,
        ExprKind::Tuple(es, ts) => "(make-tuple ("@ + joined_exprs(es@) + ") : ("@ + joined_types(ts@) + "))"@,
        ExprKind::TupleGet(t, i) => "(get-nth "@ + expr_text(*t) + " "@ + expr_text(*i) + ")"@,
        ExprKind::Record(fs) => "(make-env"@ + spaced_bindings(fs@) + ")"@,
        ExprKind::RecordGet(r, name) => "(env-ref "@ + expr_text(*r) + " "@ + name@ + ")"@,
        ExprKind::Pack(v, hidden, ex) => "(pack "@ + expr_text(*v) + " "@ + type_text(ty_of(hidden)) + " "@
            + type_text(ty_of(ex)) + ")"@,
        ExprKind::Unpack(x, p, tv, body) => "(unpack "@ + x@ + " "@ + expr_text(*p) + " T"@ + decimal(tv as nat)
            + " "@ + expr_text(*body) + ")"@,
        ExprKind::Id(x) => x@,
        ExprKind::Num(n) => int_text(n as int),
        ExprKind::Bool(b) => if b {
            "true"@
        } else {
            "false"@
        },
        ExprKind::Str(s) => "\""@ + s@ + "\""@,
    }
}

/// The texts of `es`, each after a space.
pub open spec fn spaced_exprs(es: Seq<Expr>) -> Seq<char>
    decreases es, 0nat,
{
    if es.len() == 0 {
        Seq::empty()
    } else {
        spaced_exprs(es.subrange(0, es.len() - 1)) + " "@ + expr_text(es[es.len() - 1])
    }
}

/// The texts of `es`, separated by spaces.
pub open spec fn joined_exprs(es: Seq<Expr>) -> Seq<char>
    decreases es, 0nat,
{
    if es.len() == 0 {
        Seq::empty()
    } else if es.len() == 1 {
        expr_text(es[0])
    } else {
        joined_exprs(es.subrange(0, es.len() - 1)) + " "@ + expr_text(es[es.len() - 1])
    }
}

/// A binding `(name value)`.
pub open spec fn binding_text(b: (String, Expr)) -> Seq<char>
    decreases b, 0nat,
{
    "("@ + b.0@ + " "@ + expr_text(b.1) + ")"@
}

/// The bindings `(name value)`, each after a space.
pub open spec fn spaced_bindings(bs: Seq<(String, Expr)>) -> Seq<char>
    decreases bs, 1nat,
{
    if bs.len() == 0 {
        Seq::empty()
    } else {
        spaced_bindings(bs.subrange(0, bs.len() - 1)) + " "@ + binding_text(bs[bs.len() - 1])
    }
}

/// The bindings `(name value)`, separated by spaces.
pub open spec fn bindings_text(bs: Seq<(String, Expr)>) -> Seq<char>
    decreases bs, 1nat,
{
    if bs.len() == 0 {
        Seq::empty()
    } else if bs.len() == 1 {
        binding_text(bs[0])
    } else {
        bindings_text(bs.subrange(0, bs.len() - 1)) + " "@ + binding_text(bs[bs.len() - 1])
    }
}

/// The parameters `(name : type)`, separated by spaces.
pub open spec fn params_text(ps: Seq<(String, Type)>) -> Seq<char>
    decreases ps.len(),
{
    if ps.len() == 0 {
        Seq::empty()
    } else {
        let sep = if ps.len() == 1 {
            Seq::empty()
        } else {
            " "@
        };
        params_text(ps.subrange(0, ps.len() - 1)) + sep + "("@ + ps[ps.len() - 1].0@ + " : "@ + type_text(
            ty_of(ps[ps.len() - 1].1),
        ) + ")"@
    }
}

/// The type annotations of `ts`, separated by spaces.
pub open spec fn joined_types(ts: Seq<Type>) -> Seq<char>
    decreases ts.len(),
{
    if ts.len() == 0 {
        Seq::empty()
    } else {
        let sep = if ts.len() == 1 {
            Seq::empty()
        } else {
            " "@
        };
        joined_types(ts.subrange(0, ts.len() - 1)) + sep + type_text(ty_of(ts[ts.len() - 1]))
    }
}

fn write_int(out: &mut String, n: i64)
    ensures
        final(out)@ == old(out)@ + int_text(n as int),
{
    if n < 0 {
        push_text(out, "-");
        let m = (-(n as i128)) as u64;
        write_decimal(out, m);
    } else {
        write_decimal(out, n as u64);
    }
    assert(final(out)@ =~= old(out)@ + int_text(n as int));
}

impl BinOp {
    /// The symbol of this operator: `+`, `<=`, `concat`.
    pub fn to_text(self) -> (r: &'static str)
        ensures
            r@ == op_text(self),
    {
        match self {
            BinOp::Add => "+",
            BinOp::Subtract => "-",
            BinOp::Multiply => "*",
            BinOp::Divide => "/",
            BinOp::LessThan => "<",
            BinOp::GreaterThan => ">",
            BinOp::LessOrEqual => "<=",
            BinOp::GreaterOrEqual => ">=",
            BinOp::EqualTo => "=",
            BinOp::And => "and",
            BinOp::Or => "or",
            BinOp::Concat => "concat",
        }
    }
}

fn write_spaced_exprs(out: &mut String, es: &Vec<Expr>)
    ensures
        final(out)@ == old(out)@ + spaced_exprs(es@),
    decreases es, 0nat,
{
    let ghost start = out@;
    let mut i: usize = 0;
    while i < es.len()
        invariant
            i <= es@.len(),
            out@ == start + spaced_exprs(es@.subrange(0, i as int)),
        decreases es@.len() - i,
    {
        assert(es@.subrange(0, i + 1).subrange(0, i as int) =~= es@.subrange(0, i as int));
        push_text(out, " ");
        write_expr(out, &es[i]);
        assert(out@ =~= start + spaced_exprs(es@.subrange(0, i + 1)));
        i = i + 1;
    }
    assert(es@.subrange(0, i as int) =~= es@);
}

fn write_joined_exprs(out: &mut String, es: &Vec<Expr>)
    ensures
        final(out)@ == old(out)@ + joined_exprs(es@),
    decreases es, 0nat,
{
    let ghost start = out@;
    let mut i: usize = 0;
    while i < es.len()
        invariant
            i <= es@.len(),
            out@ == start + joined_exprs(es@.subrange(0, i as int)),
        decreases es@.len() - i,
    {
        assert(es@.subrange(0, i + 1).subrange(0, i as int) =~= es@.subrange(0, i as int));
        if i > 0 {
            push_text(out, " ");
        }
        write_expr(out, &es[i]);
        assert(out@ =~= start + joined_exprs(es@.subrange(0, i + 1)));
        i = i + 1;
    }
    assert(es@.subrange(0, i as int) =~= es@);
}

fn write_binding(out: &mut String, b: &(String, Expr))
    ensures
        final(out)@ == old(out)@ + binding_text(*b),
    decreases b, 1nat,
{
    push_text(out, "(");
    push_text(out, b.0.as_str());
    push_text(out, " ");
    write_expr(out, &b.1);
    push_text(out, ")");
    assert(final(out)@ =~= old(out)@ + binding_text(*b));
}

fn write_spaced_bindings(out: &mut String, bs: &Vec<(String, Expr)>)
    ensures
        final(out)@ == old(out)@ + spaced_bindings(bs@),
    decreases bs, 2nat,
{
    let ghost start = out@;
    let mut i: usize = 0;
    while i < bs.len()
        invariant
            i <= bs@.len(),
            out@ == start + spaced_bindings(bs@.subrange(0, i as int)),
        decreases bs@.len() - i,
    {
        assert(bs@.subrange(0, i + 1).subrange(0, i as int) =~= bs@.subrange(0, i as int));
        push_text(out, " ");
        write_binding(out, &bs[i]);
        assert(out@ =~= start + spaced_bindings(bs@.subrange(0, i + 1)));
        i = i + 1;
    }
    assert(bs@.subrange(0, i as int) =~= bs@);
}

fn write_bindings(out: &mut String, bs: &Vec<(String, Expr)>)
    ensures
        final(out)@ == old(out)@ + bindings_text(bs@),
    decreases bs, 2nat,
{
    let ghost start = out@;
    let mut i: usize = 0;
    while i < bs.len()
        invariant
            i <= bs@.len(),
            out@ == start + bindings_text(bs@.subrange(0, i as int)),
        decreases bs@.len() - i,
    {
        assert(bs@.subrange(0, i + 1).subrange(0, i as int) =~= bs@.subrange(0, i as int));
        if i > 0 {
            push_text(out, " ");
        }
        write_binding(out, &bs[i]);
        assert(out@ =~= start + bindings_text(bs@.subrange(0, i + 1)));
        i = i + 1;
    }
    assert(bs@.subrange(0, i as int) =~= bs@);
}

fn write_params(out: &mut String, ps: &Vec<(String, Type)>)
    ensures
        final(out)@ == old(out)@ + params_text(ps@),
{
    let ghost start = out@;
    let mut i: usize = 0;
    while i < ps.len()
        invariant
            i <= ps@.len(),
            out@ == start + params_text(ps@.subrange(0, i as int)),
        decreases ps@.len() - i,
    {
        assert(ps@.subrange(0, i + 1).subrange(0, i as int) =~= ps@.subrange(0, i as int));
        if i > 0 {
            push_text(out, " ");
        }
        push_text(out, "(");
        push_text(out, ps[i].0.as_str());
        push_text(out, " : ");
        write_type(out, &ps[i].1);
        push_text(out, ")");
        assert(out@ =~= start + params_text(ps@.subrange(0, i + 1)));
        i = i + 1;
    }
    assert(ps@.subrange(0, i as int) =~= ps@);
}

fn write_joined_types(out: &mut String, ts: &Vec<Type>)
    ensures
        final(out)@ == old(out)@ + joined_types(ts@),
{
    let ghost start = out@;
    let mut i: usize = 0;
    while i < ts.len()
        invariant
            i <= ts@.len(),
            out@ == start + joined_types(ts@.subrange(0, i as int)),
        decreases ts@.len() - i,
    {
        assert(ts@.subrange(0, i + 1).subrange(0, i as int) =~= ts@.subrange(0, i as int));
        if i > 0 {
            push_text(out, " ");
        }
        write_type(out, &ts[i]);
        assert(out@ =~= start + joined_types(ts@.subrange(0, i + 1)));
        i = i + 1;
    }
    assert(ts@.subrange(0, i as int) =~= ts@);
}

#[verifier::spinoff_prover]
#[verifier::rlimit(100)]
fn write_expr(out: &mut String, e: &Expr)
    ensures
        final(out)@ == old(out)@ + expr_text(*e),
    decreases e, 3nat,
{
    let ghost start = out@;
    match &e.kind {
        ExprKind::Binop(op, a, b) => {
            push_text(out, "(");
            push_text(out, op.to_text());
            push_text(out, " ");
            write_expr(out, a);
            push_text(out, " ");
            write_expr(out, b);
            push_text(out, ")");
        },
        ExprKind::If(p, c, a) => {
            push_text(out, "(if ");
            write_expr(out, p);
            push_text(out, " ");
            write_expr(out, c);
            push_text(out, " ");
            write_expr(out, a);
            push_text(out, ")");
        },
        ExprKind::Let(bs, body) => {
            push_text(out, "(let (");
            write_bindings(out, bs);
            push_text(out, ") ");
            write_expr(out, body);
            push_text(out, ")");
        },
        ExprKind::Lambda(ps, ret, body) => {
            push_text(out, "(lambda (");
            write_params(out, ps);
            push_text(out, ") : ");
            write_type(out, ret);
            push_text(out, " ");
            write_expr(out, body);
            push_text(out, ")");
        },
        ExprKind::Begin(es) => {
            push_text(out, "(begin");
            write_spaced_exprs(out, es);
            push_text(out, ")");
        },
        ExprKind::Assign(x, v) => {
            push_text(out, "(set! ");
            push_text(out, x.as_str());
            push_text(out, " ");
            write_expr(out, v);
            push_text(out, ")");
        },
        ExprKind::Cons(h, t) => {
            push_text(out, "(cons ");
            write_expr(out, h);
            push_text(out, " ");
            write_expr(out, t);
            push_text(out, ")");
        },
        ExprKind::Car(l) => {
            push_text(out, "(car ");
            write_expr(out, l);
            push_text(out, ")");
        },
        ExprKind::Cdr(l) => {
            push_text(out, "(cdr ");
            write_expr(out, l);
            push_text(out, ")");
        },
        ExprKind::IsNull(l) => {
            push_text(out, "(null? ");
            write_expr(out, l);
            push_text(out, ")");
        },
        ExprKind::Null(t) => {
            push_text(out, "(null ");
            write_type(out, t);
            push_text(out, ")");
        },
        ExprKind::FnApp(f, args) => {
            push_text(out, "(");
            write_expr(out, f);
            write_spaced_exprs(out, args);
            push_text(out, ")");
        },
        ExprKind::Tuple(es, ts) => {
            push_text(out, "(make-tuple (");
            write_joined_exprs(out, es);
            push_text(out, ") : (");
            write_joined_types(out, ts);
            push_text(out, "))");
        },
        ExprKind::TupleGet(t, i) => {
            push_text(out, "(get-nth ");
            write_expr(out, t);
            push_text(out, " ");
            write_expr(out, i);
            push_text(out, ")");
        },
        ExprKind::Record(fs) => {
            push_text(out, "(make-env");
            write_spaced_bindings(out, fs);
            push_text(out, ")");
        },
        ExprKind::RecordGet(r, name) => {
            push_text(out, "(env-ref ");
            write_expr(out, r);
            push_text(out, " ");
            push_text(out, name.as_str());
            push_text(out, ")");
        },
        ExprKind::Pack(v, hidden, ex) => {
            push_text(out, "(pack ");
            write_expr(out, v);
            push_text(out, " ");
            write_type(out, hidden);
            push_text(out, " ");
            write_type(out, ex);
            push_text(out, ")");
        },
        ExprKind::Unpack(x, p, tv, body) => {
            push_text(out, "(unpack ");
            push_text(out, x.as_str());
            push_text(out, " ");
            write_expr(out, p);
            push_text(out, " T");
            write_decimal(out, *tv);
            push_text(out, " ");
            write_expr(out, body);
            push_text(out, ")");
        },
        ExprKind::Id(x) => push_text(out, x.as_str()),
        ExprKind::Num(n) => write_int(out, *n),
        ExprKind::Bool(b) => if *b {
            push_text(out, "true")
        } else {
            push_text(out, "false")
        },
        ExprKind::Str(s) => {
            push_text(out, "\"");
            push_text(out, s.as_str());
            push_text(out, "\"");
        },
    }
    assert(out@ =~= start + expr_text(*e));
}

impl Expr {
    /// The text of this expression in the surface syntax, as `parse` reads
    /// it back: `(if (= 1 1) 3 4)`.
    pub fn to_text(&self) -> (r: String)
        ensures
            r@ == expr_text(*self),
    {
        let mut out = String::new();
        write_expr(&mut out, self);
        assert(out@ =~= expr_text(*self));
        out
    }
}

} // verus!
