use crate::env::{lookup, push_all, TypeEnv};
use crate::expr::{BinOp, Expr, ExprKind, TyErr, TypeError, err_of, outcome};
use crate::types::{Ty, Type, ty_of, subst, occurs_free, types_equal};
use vstd::prelude::*;

verus! {

/// The environment of the typing rules: names with their types, innermost
/// first.
pub type TyEnv = Seq<(Seq<char>, Ty)>;

/// `env` extended with `names[i] : tys[i]` for each `i` in order, so that the
/// last one is innermost.
pub open spec fn bind_all(env: TyEnv, names: Seq<Seq<char>>, tys: Seq<Ty>) -> TyEnv
    recommends
        names.len() == tys.len(),
{
    Seq::new(names.len(), |i: int| (names[names.len() - 1 - i], tys[names.len() - 1 - i])) + env
}

/// The names of a sequence of pairs.
pub open spec fn names_of<T>(bs: Seq<(String, T)>) -> Seq<Seq<char>> {
    Seq::new(bs.len(), |i: int| bs[i].0@)
}

/// The values of a sequence of types.
pub open spec fn tys_of(ts: Seq<Type>) -> Seq<Ty> {
    Seq::new(ts.len(), |i: int| ty_of(ts[i]))
}

/// The parameter types of a sequence of named parameters.
pub open spec fn param_tys(ps: Seq<(String, Type)>) -> Seq<Ty> {
    Seq::new(ps.len(), |i: int| ty_of(ps[i].1))
}

/// The fields of a record type, from a sequence of named types.
pub open spec fn fields_ty(fs: Seq<(String, Type)>) -> Seq<(Seq<char>, Ty)> {
    Seq::new(fs.len(), |i: int| (fs[i].0@, ty_of(fs[i].1)))
}

/// The fields of a record type, from the names of `fs` and the types `ts`.
pub open spec fn record_fields(fs: Seq<(String, Expr)>, ts: Seq<Ty>) -> Seq<(Seq<char>, Ty)> {
    Seq::new(fs.len(), |i: int| (fs[i].0@, ts[i]))
}

/// Whether `a` holds the values of `b`.
pub open spec fn same_tys(a: Seq<Ty>, b: Seq<Type>) -> bool {
    a.len() == b.len() && forall|i: int| 0 <= i < a.len() ==> a[i] == #[trigger] ty_of(b[i])
}

/// The first position where `a` and `b` differ, if they differ before the
/// end of the shorter.
pub open spec fn first_difference(a: Seq<Ty>, b: Seq<Ty>) -> Option<nat> {
    if exists|i: int| 0 <= i < a.len() && 0 <= i < b.len() && a[i] != b[i] {
        Some(
            choose|i: nat|
                i < a.len() && i < b.len() && a[i as int] != b[i as int] && forall|j: int|
                    0 <= j < i ==> a[j] == b[j],
        )
    } else {
        None
    }
}

/// Whether position `i` repeats an earlier name and no earlier position does.
pub open spec fn is_first_duplicate(names: Seq<Seq<char>>, i: nat) -> bool {
    &&& i < names.len()
    &&& exists|j: int| 0 <= j < i && names[j] == names[i as int]
    &&& forall|k: int, l: int| 0 <= l < k < i ==> names[l] != names[k]
}

/// The first position whose name occurs at an earlier position, if any.
pub open spec fn first_duplicate(names: Seq<Seq<char>>) -> Option<nat> {
    if exists|i: int, j: int| 0 <= j < i < names.len() && names[j] == names[i] {
        Some(choose|i: nat| #[trigger] is_first_duplicate(names, i))
    } else {
        None
    }
}

/// The result type of `op` on operands of types `a` and `b`.
pub open spec fn binop_typing(op: BinOp, a: Ty, b: Ty) -> Result<Ty, TyErr> {
    let want = match op {
        BinOp::And | BinOp::Or => Ty::Bool,
        BinOp::Concat => Ty::Str,
        _ => Ty::Int,
    };
    let result = match op {
        BinOp::Add | BinOp::Subtract | BinOp::Multiply | BinOp::Divide => Ty::Int,
        BinOp::Concat => Ty::Str,
        _ => Ty::Bool,
    };
    if op == BinOp::EqualTo {
        if a == b {
            Ok(Ty::Bool)
        } else {
            Err(TyErr::TypeMismatch { expected: a, found: b, context: op })
        }
    } else if a != want {
        Err(TyErr::TypeMismatch { expected: want, found: a, context: op })
    } else if b != want {
        Err(TyErr::TypeMismatch { expected: want, found: b, context: op })
    } else {
        Ok(result)
    }
}

/// The typing rules: the type of `e` in `env`, or the first error met in a
/// depth-first walk.
pub open spec fn typing(e: Expr, env: TyEnv) -> Result<Ty, TyErr>
    decreases e,
{
    match e.kind {
        ExprKind::Num(_) => Ok(Ty::Int),
        ExprKind::Bool(_) => Ok(Ty::Bool),
        ExprKind::Str(_) => Ok(Ty::Str),
        ExprKind::Id(x) => match lookup(env, x@) {
            Some(t) => Ok(t),
            None => Err(TyErr::UnboundVariable(x@)),
        },
        ExprKind::Binop(op, a, b) => match typing(*a, env) {
            Err(x) => Err(x),
            Ok(ta) => match typing(*b, env) {
                Err(x) => Err(x),
                Ok(tb) => binop_typing(op, ta, tb),
            },
        },
        ExprKind::If(p, c, a) => match typing(*p, env) {
            Err(x) => Err(x),
            Ok(tp) => if tp != Ty::Bool {
                Err(TyErr::NotABoolean)
            } else {
                match typing(*c, env) {
                    Err(x) => Err(x),
                    Ok(tc) => match typing(*a, env) {
                        Err(x) => Err(x),
                        Ok(ta) => if tc == ta {
                            Ok(tc)
                        } else {
                            Err(TyErr::BranchTypeMismatch)
                        },
                    },
                }
            },
        },
        ExprKind::Let(bs, body) => match typing_fields(bs@, env) {
            Err(x) => Err(x),
            Ok(ts) => typing(*body, bind_all(env, names_of(bs@), ts)),
        },
        ExprKind::Lambda(ps, ret, body) => {
            let pts = param_tys(ps@);
            match typing(*body, bind_all(env, names_of(ps@), pts)) {
                Err(x) => Err(x),
                Ok(tb) => if tb == ty_of(ret) {
                    Ok(Ty::Func(pts, Box::new(ty_of(ret))))
                } else {
                    Err(TyErr::ReturnTypeMismatch)
                },
            }
        },
        ExprKind::Begin(es) => if es@.len() == 0 {
            Err(TyErr::EmptyBegin)
        } else {
            match typing_all(es@, env) {
                Err(x) => Err(x),
                Ok(ts) => Ok(ts.last()),
            }
        },
        ExprKind::Assign(x, v) => match lookup(env, x@) {
            None => Err(TyErr::UnboundVariable(x@)),
            Some(tx) => match typing(*v, env) {
                Err(y) => Err(y),
                Ok(tv) => if tv == tx {
                    Ok(tx)
                } else {
                    Err(TyErr::AssignTypeMismatch)
                },
            },
        },
        ExprKind::Cons(h, t) => match typing(*h, env) {
            Err(x) => Err(x),
            Ok(th) => match typing(*t, env) {
                Err(x) => Err(x),
                Ok(tt) => if tt == Ty::List(Box::new(th)) {
                    Ok(tt)
                } else {
                    Err(TyErr::ListElementMismatch)
                },
            },
        },
        ExprKind::Car(l) => match typing(*l, env) {
            Err(x) => Err(x),
            Ok(Ty::List(elem)) => Ok(*elem),
            Ok(_) => Err(TyErr::NotAList),
        },
        ExprKind::Cdr(l) => match typing(*l, env) {
            Err(x) => Err(x),
            Ok(Ty::List(elem)) => Ok(Ty::List(elem)),
            Ok(_) => Err(TyErr::NotAList),
        },
        ExprKind::IsNull(l) => match typing(*l, env) {
            Err(x) => Err(x),
            Ok(Ty::List(_)) => Ok(Ty::Bool),
            Ok(_) => Err(TyErr::NotAList),
        },
        ExprKind::Null(t) => Ok(Ty::List(Box::new(ty_of(t)))),
        ExprKind::FnApp(f, args) => match typing(*f, env) {
            Err(x) => Err(x),
            Ok(Ty::Func(ps, ret)) => if args@.len() != ps.len() {
                Err(TyErr::ArityMismatch)
            } else {
                match typing_all(args@, env) {
                    Err(x) => Err(x),
                    Ok(ts) => match first_difference(ps, ts) {
                        Some(i) => Err(TyErr::ArgTypeMismatch(i)),
                        None => Ok(*ret),
                    },
                }
            },
            Ok(_) => Err(TyErr::NotAFunction),
        },
        ExprKind::Tuple(es, decl) => if es@.len() != decl@.len() {
            Err(TyErr::ArityMismatch)
        } else {
            match typing_all(es@, env) {
                Err(x) => Err(x),
                Ok(ts) => match first_difference(tys_of(decl@), ts) {
                    Some(i) => Err(TyErr::TupleElementMismatch(i)),
                    None => Ok(Ty::Tuple(tys_of(decl@))),
                },
            }
        },
        ExprKind::TupleGet(t, idx) => match typing(*t, env) {
            Err(x) => Err(x),
            Ok(Ty::Tuple(ts)) => match idx.kind {
                ExprKind::Num(n) => if 0 <= n < ts.len() {
                    Ok(ts[n as int])
                } else {
                    Err(TyErr::IndexOutOfBounds)
                },
                _ => Err(TyErr::NotAConstantIndex),
            },
            Ok(_) => Err(TyErr::NotATuple),
        },
        ExprKind::Record(fs) => match first_duplicate(names_of(fs@)) {
            Some(i) => Err(TyErr::DuplicateField(fs@[i as int].0@)),
            None => match typing_fields(fs@, env) {
                Err(x) => Err(x),
                Ok(ts) => Ok(Ty::Record(record_fields(fs@, ts))),
            },
        },
        ExprKind::RecordGet(r, name) => match typing(*r, env) {
            Err(x) => Err(x),
            Ok(Ty::Record(fs)) => match lookup(fs, name@) {
                Some(t) => Ok(t),
                None => Err(TyErr::UnknownField(name@)),
            },
            Ok(_) => Err(TyErr::NotARecord),
        },
        ExprKind::Pack(v, hidden, ex) => match ty_of(ex) {
            Ty::Exists(var, base) => match typing(*v, env) {
                Err(x) => Err(x),
                Ok(tv) => if tv == subst(*base, var, ty_of(hidden)) {
                    Ok(ty_of(ex))
                } else {
                    Err(TyErr::ExistentialPackMismatch)
                },
            },
            _ => Err(TyErr::NotAnExistential),
        },
        ExprKind::Unpack(x, package, tv, body) => match typing(*package, env) {
            Err(y) => Err(y),
            Ok(Ty::Exists(var, base)) => match typing(
                *body,
                seq![(x@, subst(*base, var, Ty::TypeVar(tv)))] + env,
            ) {
                Err(y) => Err(y),
                Ok(tb) => if occurs_free(tb, tv) {
                    Err(TyErr::EscapingTypeVariable)
                } else {
                    Ok(tb)
                },
            },
            Ok(_) => Err(TyErr::NotAnExistential),
        },
    }
}

/// The types of `es` in order, or the first error.
pub open spec fn typing_all(es: Seq<Expr>, env: TyEnv) -> Result<Seq<Ty>, TyErr>
    decreases es,
{
    if es.len() == 0 {
        Ok(Seq::empty())
    } else {
        match typing_all(es.subrange(0, es.len() - 1), env) {
            Err(x) => Err(x),
            Ok(ts) => match typing(es[es.len() - 1], env) {
                Err(x) => Err(x),
                Ok(t) => Ok(ts.push(t)),
            },
        }
    }
}

/// The types of the expressions of `bs` in order, or the first error.
pub open spec fn typing_fields(bs: Seq<(String, Expr)>, env: TyEnv) -> Result<Seq<Ty>, TyErr>
    decreases bs,
{
    if bs.len() == 0 {
        Ok(Seq::empty())
    } else {
        match typing_fields(bs.subrange(0, bs.len() - 1), env) {
            Err(x) => Err(x),
            Ok(ts) => match typing(bs[bs.len() - 1].1, env) {
                Err(x) => Err(x),
                Ok(t) => Ok(ts.push(t)),
            },
        }
    }
}

/// Whether an executable outcome over a sequence matches the rules' one.
pub open spec fn matches_all(r: Result<Vec<Type>, TypeError>, expected: Result<Seq<Ty>, TyErr>) -> bool {
    match r {
        Ok(ts) => expected is Ok && same_tys(expected->Ok_0, ts@),
        Err(e) => expected == Err::<Seq<Ty>, TyErr>(err_of(e)),
    }
}

/// Pushing bindings on an environment matches `bind_all` on its view.
pub proof fn lemma_push_all(env: TyEnv, binds: Seq<(String, Type)>, names: Seq<Seq<char>>, tys: Seq<Ty>)
    requires
        binds.len() == names.len(),
        binds.len() == tys.len(),
        forall|i: int| 0 <= i < binds.len() ==> (#[trigger] binds[i]).0@ == names[i] && ty_of(binds[i].1) == tys[i],
    ensures
        push_all(env, binds) == bind_all(env, names, tys),
{
    let n = binds.len() as int;
    assert forall|i: int| 0 <= i < n implies #[trigger] push_all(env, binds)[i] == bind_all(env, names, tys)[i] by {
        assert(binds[n - 1 - i].0@ == names[n - 1 - i]);
    }
    assert(push_all(env, binds) =~= bind_all(env, names, tys));
}

/// An error in a prefix is the error of the whole sequence.
proof fn lemma_all_err(es: Seq<Expr>, n: int, env: TyEnv)
    requires
        0 <= n <= es.len(),
        typing_all(es.subrange(0, n), env) is Err,
    ensures
        typing_all(es, env) == typing_all(es.subrange(0, n), env),
    decreases es.len() - n,
{
    if n == es.len() {
        assert(es.subrange(0, n) =~= es);
    } else {
        let init = es.subrange(0, es.len() - 1);
        assert(init.subrange(0, n) =~= es.subrange(0, n));
        lemma_all_err(init, n, env);
    }
}

/// An error in a prefix is the error of the whole sequence.
proof fn lemma_fields_err(bs: Seq<(String, Expr)>, n: int, env: TyEnv)
    requires
        0 <= n <= bs.len(),
        typing_fields(bs.subrange(0, n), env) is Err,
    ensures
        typing_fields(bs, env) == typing_fields(bs.subrange(0, n), env),
    decreases bs.len() - n,
{
    if n == bs.len() {
        assert(bs.subrange(0, n) =~= bs);
    } else {
        let init = bs.subrange(0, bs.len() - 1);
        assert(init.subrange(0, n) =~= bs.subrange(0, n));
        lemma_fields_err(init, n, env);
    }
}

/// The first difference, once found, is what `first_difference` gives.
proof fn lemma_first_difference(a: Seq<Ty>, b: Seq<Ty>, i: nat)
    requires
        i < a.len(),
        i < b.len(),
        a[i as int] != b[i as int],
        forall|j: int| 0 <= j < i ==> a[j] == b[j],
    ensures
        first_difference(a, b) == Some(i),
{
    assert(exists|k: int| 0 <= k < a.len() && 0 <= k < b.len() && a[k] != b[k]) by {
        assert(a[i as int] != b[i as int]);
    }
    let c = choose|c: nat|
        c < a.len() && c < b.len() && a[c as int] != b[c as int] && forall|j: int|
            0 <= j < c ==> a[j] == b[j];
    assert(c == i) by {
        if c < i {
            assert(a[c as int] == b[c as int]);
        } else if c > i {
            assert(a[i as int] == b[i as int]);
        }
    }
}

/// The first repeated name, once found, is what `first_duplicate` gives.
proof fn lemma_first_duplicate(names: Seq<Seq<char>>, i: nat, j: int)
    requires
        i < names.len(),
        0 <= j < i,
        names[j] == names[i as int],
        forall|k: int, l: int| 0 <= l < k < i ==> names[l] != names[k],
    ensures
        first_duplicate(names) == Some(i),
{
    assert(exists|a: int, b: int| 0 <= b < a < names.len() && names[b] == names[a]) by {
        assert(0 <= j < i && names[j] == names[i as int]);
    }
    assert(exists|l: int| 0 <= l < i && names[l] == names[i as int]);
    assert(is_first_duplicate(names, i));
    let c = choose|c: nat| #[trigger] is_first_duplicate(names, c);
    assert(c == i) by {
        if c < i {
            let l = choose|l: int| 0 <= l < c && names[l] == names[c as int];
            assert(names[l] != names[c as int]);
        } else if c > i {
            assert(names[j] != names[i as int]);
        }
    }
}

/// The first position where the two sequences of types differ.
fn first_mismatch(a: &Vec<Type>, b: &Vec<Type>) -> (r: Option<usize>)
    requires
        a@.len() == b@.len(),
    ensures
        match r {
            Some(i) => i < a@.len() && ty_of(a@[i as int]) != ty_of(b@[i as int]) && forall|j: int|
                0 <= j < i ==> ty_of(#[trigger] a@[j]) == ty_of(b@[j]),
            None => forall|j: int| 0 <= j < a@.len() ==> ty_of(#[trigger] a@[j]) == ty_of(b@[j]),
        },
{
    let mut i: usize = 0;
    while i < a.len()
        invariant
            a@.len() == b@.len(),
            i <= a@.len(),
            forall|j: int| 0 <= j < i ==> ty_of(#[trigger] a@[j]) == ty_of(b@[j]),
        decreases a@.len() - i,
    {
        if !types_equal(&a[i], &b[i]) {
            return Some(i);
        }
        i = i + 1;
    }
    None
}

/// The first position whose name occurs at an earlier position.
fn first_repeated_name<T>(fs: &Vec<(String, T)>) -> (r: Option<usize>)
    ensures
        match r {
            Some(i) => i < fs@.len() && (exists|j: int| 0 <= j < i && fs@[j].0@ == fs@[i as int].0@)
                && forall|k: int, l: int| 0 <= l < k < i ==> fs@[l].0@ != fs@[k].0@,
            None => forall|k: int, l: int| 0 <= l < k < fs@.len() ==> fs@[l].0@ != fs@[k].0@,
        },
{
    let mut i: usize = 0;
    while i < fs.len()
        invariant
            i <= fs@.len(),
            forall|k: int, l: int| 0 <= l < k < i ==> fs@[l].0@ != fs@[k].0@,
        decreases fs@.len() - i,
    {
        let mut j: usize = 0;
        while j < i
            invariant
                i < fs@.len(),
                j <= i,
                forall|k: int, l: int| 0 <= l < k < i ==> fs@[l].0@ != fs@[k].0@,
                forall|l: int| 0 <= l < j ==> fs@[l].0@ != fs@[i as int].0@,
            decreases i - j,
        {
            if fs[j].0 == fs[i].0 {
                assert(fs@[j as int].0@ == fs@[i as int].0@);
                return Some(i);
            }
            j = j + 1;
        }
        i = i + 1;
    }
    None
}

/// The position of the first field named `name`, if any.
fn field_position(fs: &Vec<(String, Type)>, name: &String) -> (r: Option<usize>)
    ensures
        match r {
            Some(i) => i < fs@.len() && lookup(fields_ty(fs@), name@) == Some(ty_of(fs@[i as int].1)),
            None => lookup(fields_ty(fs@), name@) is None,
        },
{
    let ghost whole = fields_ty(fs@);
    assert(whole.subrange(0, whole.len() as int) =~= whole);
    let mut i: usize = 0;
    while i < fs.len()
        invariant
            i <= fs@.len(),
            whole == fields_ty(fs@),
            lookup(whole.subrange(i as int, whole.len() as int), name@) == lookup(whole, name@),
        decreases fs@.len() - i,
    {
        let ghost rest = whole.subrange(i as int, whole.len() as int);
        assert(rest.subrange(1, rest.len() as int) =~= whole.subrange(i + 1, whole.len() as int));
        if fs[i].0 == *name {
            return Some(i);
        }
        i = i + 1;
    }
    assert(whole.subrange(i as int, whole.len() as int).len() == 0);
    None
}

/// Each name of `src` with the type at the same position of `ts`.
fn pair_names<T>(src: &Vec<(String, T)>, ts: &Vec<Type>) -> (r: Vec<(String, Type)>)
    requires
        src@.len() == ts@.len(),
    ensures
        r@.len() == src@.len(),
        forall|i: int|
            0 <= i < r@.len() ==> (#[trigger] r@[i]).0@ == src@[i].0@ && ty_of(r@[i].1) == ty_of(ts@[i]),
{
    let mut out: Vec<(String, Type)> = Vec::new();
    let mut i: usize = 0;
    while i < src.len()
        invariant
            src@.len() == ts@.len(),
            i <= src@.len(),
            out@.len() == i,
            forall|k: int|
                0 <= k < i ==> (#[trigger] out@[k]).0@ == src@[k].0@ && ty_of(out@[k].1) == ty_of(ts@[k]),
        decreases src@.len() - i,
    {
        out.push((src[i].0.clone(), ts[i].duplicate()));
        i = i + 1;
    }
    out
}

/// The types of `es` in order, or the first error.
fn check_all(es: &Vec<Expr>, env: &TypeEnv) -> (r: Result<Vec<Type>, TypeError>)
    ensures
        r is Ok ==> r->Ok_0@.len() == es@.len(),
        matches_all(r, typing_all(es@, env@)),
    decreases es,
{
    let ghost e = env@;
    let mut out: Vec<Type> = Vec::new();
    let mut i: usize = 0;
    while i < es.len()
        invariant
            i <= es@.len(),
            out@.len() == i,
            e == env@,
            typing_all(es@.subrange(0, i as int), e) is Ok,
            same_tys(typing_all(es@.subrange(0, i as int), e)->Ok_0, out@),
        decreases es@.len() - i,
    {
        let r = check(&es[i], env);
        let ghost next = es@.subrange(0, i + 1);
        assert(next.subrange(0, i as int) =~= es@.subrange(0, i as int));
        match r {
            Err(x) => {
                proof {
                    lemma_all_err(es@, i + 1, e);
                }
                return Err(x);
            },
            Ok(t) => {
                out.push(t);
            },
        }
        i = i + 1;
    }
    assert(es@.subrange(0, es@.len() as int) =~= es@);
    Ok(out)
}

/// The types of the expressions of `bs` in order, or the first error.
fn check_fields(bs: &Vec<(String, Expr)>, env: &TypeEnv) -> (r: Result<Vec<Type>, TypeError>)
    ensures
        r is Ok ==> r->Ok_0@.len() == bs@.len(),
        matches_all(r, typing_fields(bs@, env@)),
    decreases bs,
{
    let ghost e = env@;
    let mut out: Vec<Type> = Vec::new();
    let mut i: usize = 0;
    while i < bs.len()
        invariant
            i <= bs@.len(),
            out@.len() == i,
            e == env@,
            typing_fields(bs@.subrange(0, i as int), e) is Ok,
            same_tys(typing_fields(bs@.subrange(0, i as int), e)->Ok_0, out@),
        decreases bs@.len() - i,
    {
        proof {
            assert(decreases_to!(bs => bs@[i as int].1));
        }
        let r = check(&bs[i].1, env);
        let ghost next = bs@.subrange(0, i + 1);
        assert(next.subrange(0, i as int) =~= bs@.subrange(0, i as int));
        match r {
            Err(x) => {
                proof {
                    lemma_fields_err(bs@, i + 1, e);
                }
                return Err(x);
            },
            Ok(t) => {
                out.push(t);
            },
        }
        i = i + 1;
    }
    assert(bs@.subrange(0, bs@.len() as int) =~= bs@);
    Ok(out)
}

/// The result of `op` on operands of types `a` and `b`.
fn check_binop(op: BinOp, a: Type, b: Type) -> (r: Result<Type, TypeError>)
    ensures
        outcome(r) == binop_typing(op, ty_of(a), ty_of(b)),
{
    if op == BinOp::EqualTo {
        if types_equal(&a, &b) {
            return Ok(Type::Bool);
        } else {
            return Err(TypeError::TypeMismatch { expected: a, found: b, context: op });
        }
    }
    let want = match op {
        BinOp::And | BinOp::Or => Type::Bool,
        BinOp::Concat => Type::Str,
        _ => Type::Int,
    };
    let result = match op {
        BinOp::Add | BinOp::Subtract | BinOp::Multiply | BinOp::Divide => Type::Int,
        BinOp::Concat => Type::Str,
        _ => Type::Bool,
    };
    if !types_equal(&a, &want) {
        Err(TypeError::TypeMismatch { expected: want, found: a, context: op })
    } else if !types_equal(&b, &want) {
        Err(TypeError::TypeMismatch { expected: want, found: b, context: op })
    } else {
        Ok(result)
    }
}

#[verifier::spinoff_prover]
#[verifier::rlimit(100)]
/// Checks `e` in `env`: its type, or the first error met in a depth-first
/// walk. Neither `e` nor `env` is changed.
pub fn check(e: &Expr, env: &TypeEnv) -> (r: Result<Type, TypeError>)
    ensures
        outcome(r) == typing(*e, env@),
    decreases e,
{
    let ghost g = env@;
    match &e.kind {
        ExprKind::Num(_) => Ok(Type::Int),
        ExprKind::Bool(_) => Ok(Type::Bool),
        ExprKind::Str(_) => Ok(Type::Str),
        ExprKind::Id(x) => {
            match env.find(x.as_str()) {
                Some(t) => Ok(t.duplicate()),
                None => Err(TypeError::UnboundVariable(x.clone())),
            }
        },
        ExprKind::Binop(op, a, b) => {
            let ta = match check(a, env) {
                Ok(t) => t,
                Err(x) => return Err(x),
            };
            let tb = match check(b, env) {
                Ok(t) => t,
                Err(x) => return Err(x),
            };
            check_binop(*op, ta, tb)
        },
        ExprKind::If(p, c, a) => {
            let tp = match check(p, env) {
                Ok(t) => t,
                Err(x) => return Err(x),
            };
            if !types_equal(&tp, &Type::Bool) {
                return Err(TypeError::NotABoolean);
            }
            let tc = match check(c, env) {
                Ok(t) => t,
                Err(x) => return Err(x),
            };
            let ta = match check(a, env) {
                Ok(t) => t,
                Err(x) => return Err(x),
            };
            if types_equal(&tc, &ta) {
                Ok(tc)
            } else {
                Err(TypeError::BranchTypeMismatch)
            }
        },
        ExprKind::Let(bs, body) => {
            let ts = match check_fields(bs, env) {
                Ok(ts) => ts,
                Err(x) => return Err(x),
            };
            let binds = pair_names(bs, &ts);
            proof {
                lemma_push_all(env@, binds@, names_of(bs@), typing_fields(bs@, g)->Ok_0);
            }
            let inner = env.add_bindings(binds);
            check(body, &inner)
        },
        ExprKind::Lambda(ps, ret, body) => {
            let binds = crate::types::duplicate_fields(ps);
            proof {
                lemma_push_all(env@, binds@, names_of(ps@), param_tys(ps@));
            }
            let inner = env.add_bindings(binds);
            let tb = match check(body, &inner) {
                Ok(t) => t,
                Err(x) => return Err(x),
            };
            if !types_equal(&tb, ret) {
                return Err(TypeError::ReturnTypeMismatch);
            }
            let mut pts: Vec<Type> = Vec::new();
            let mut i: usize = 0;
            while i < ps.len()
                invariant
                    i <= ps@.len(),
                    pts@.len() == i,
                    forall|k: int| 0 <= k < i ==> ty_of(#[trigger] pts@[k]) == ty_of(ps@[k].1),
                decreases ps@.len() - i,
            {
                pts.push(ps[i].1.duplicate());
                i = i + 1;
            }
            let r = Type::Func(pts, Box::new(ret.duplicate()));
            assert(ty_of(r)->Func_0 =~= param_tys(ps@));
            Ok(r)
        },
        ExprKind::Begin(es) => {
            if es.len() == 0 {
                return Err(TypeError::EmptyBegin);
            }
            let mut ts = match check_all(es, env) {
                Ok(ts) => ts,
                Err(x) => return Err(x),
            };
            match ts.pop() {
                Some(t) => Ok(t),
                None => Err(TypeError::EmptyBegin),
            }
        },
        ExprKind::Assign(x, v) => {
            match env.find(x.as_str()) {
                None => Err(TypeError::UnboundVariable(x.clone())),
                Some(tx) => {
                    let tv = match check(v, env) {
                        Ok(t) => t,
                        Err(y) => return Err(y),
                    };
                    if types_equal(&tv, tx) {
                        Ok(tx.duplicate())
                    } else {
                        Err(TypeError::AssignTypeMismatch)
                    }
                },
            }
        },
        ExprKind::Cons(h, t) => {
            let th = match check(h, env) {
                Ok(t) => t,
                Err(x) => return Err(x),
            };
            let tt = match check(t, env) {
                Ok(t) => t,
                Err(x) => return Err(x),
            };
            proof {
                crate::types::lemma_same_form(tt);
            }
            let fits = match &tt {
                Type::List(elem) => types_equal(elem, &th),
                _ => false,
            };
            if fits {
                Ok(tt)
            } else {
                Err(TypeError::ListElementMismatch)
            }
        },
        ExprKind::Car(l) => {
            let tl = match check(l, env) {
                Ok(t) => t,
                Err(x) => return Err(x),
            };
            proof {
                crate::types::lemma_same_form(tl);
            }
            match tl {
                Type::List(elem) => Ok(*elem),
                _ => Err(TypeError::NotAList),
            }
        },
        ExprKind::Cdr(l) => {
            let tl = match check(l, env) {
                Ok(t) => t,
                Err(x) => return Err(x),
            };
            proof {
                crate::types::lemma_same_form(tl);
            }
            if let Type::List(_) = &tl {
                Ok(tl)
            } else {
                Err(TypeError::NotAList)
            }
        },
        ExprKind::IsNull(l) => {
            let tl = match check(l, env) {
                Ok(t) => t,
                Err(x) => return Err(x),
            };
            proof {
                crate::types::lemma_same_form(tl);
            }
            if let Type::List(_) = &tl {
                Ok(Type::Bool)
            } else {
                Err(TypeError::NotAList)
            }
        },
        ExprKind::Null(t) => Ok(Type::List(Box::new(t.duplicate()))),
        ExprKind::FnApp(f, args) => {
            let tf = match check(f, env) {
                Ok(t) => t,
                Err(x) => return Err(x),
            };
            proof {
                crate::types::lemma_same_form(tf);
            }
            match tf {
                Type::Func(ps, ret) => {
                    if args.len() != ps.len() {
                        return Err(TypeError::ArityMismatch);
                    }
                    let ts = match check_all(args, env) {
                        Ok(ts) => ts,
                        Err(x) => return Err(x),
                    };
                    let ghost pv = tys_of(ps@);
                    let ghost tv = typing_all(args@, g)->Ok_0;
                    assert(pv =~= ty_of(tf)->Func_0);
                    match first_mismatch(&ps, &ts) {
                        Some(i) => {
                            proof {
                                assert(pv[i as int] != tv[i as int]);
                                assert forall|j: int| 0 <= j < i implies pv[j] == tv[j] by {
                                    assert(ty_of(ps@[j]) == ty_of(ts@[j]));
                                }
                                lemma_first_difference(pv, tv, i as nat);
                            }
                            Err(TypeError::ArgTypeMismatch(i))
                        },
                        None => {
                            proof {
                                assert forall|j: int| 0 <= j < pv.len() implies pv[j] == tv[j] by {
                                    assert(ty_of(ps@[j]) == ty_of(ts@[j]));
                                }
                            }
                            Ok(*ret)
                        },
                    }
                },
                _ => Err(TypeError::NotAFunction),
            }
        },
        ExprKind::Tuple(es, decl) => {
            if es.len() != decl.len() {
                return Err(TypeError::ArityMismatch);
            }
            let ts = match check_all(es, env) {
                Ok(ts) => ts,
                Err(x) => return Err(x),
            };
            let ghost dv = tys_of(decl@);
            let ghost tv = typing_all(es@, g)->Ok_0;
            match first_mismatch(decl, &ts) {
                Some(i) => {
                    proof {
                        assert(dv[i as int] != tv[i as int]);
                        assert forall|j: int| 0 <= j < i implies dv[j] == tv[j] by {
                            assert(ty_of(decl@[j]) == ty_of(ts@[j]));
                        }
                        lemma_first_difference(dv, tv, i as nat);
                    }
                    Err(TypeError::TupleElementMismatch(i))
                },
                None => {
                    proof {
                        assert forall|j: int| 0 <= j < dv.len() implies dv[j] == tv[j] by {
                            assert(ty_of(decl@[j]) == ty_of(ts@[j]));
                        }
                    }
                    let dup = crate::types::duplicate_all(decl);
                    let ghost dupv = dup@;
                    let r = Type::Tuple(dup);
                    assert forall|k: int| 0 <= k < dv.len() implies ty_of(r)->Tuple_0[k] == dv[k] by {
                        assert(ty_of(dupv[k]) == ty_of(decl@[k]));
                    }
                    assert(ty_of(r)->Tuple_0 =~= dv);
                    Ok(r)
                },
            }
        },
        ExprKind::TupleGet(t, idx) => {
            let tt = match check(t, env) {
                Ok(t) => t,
                Err(x) => return Err(x),
            };
            proof {
                crate::types::lemma_same_form(tt);
            }
            match &tt {
                Type::Tuple(ts) => match &idx.kind {
                    ExprKind::Num(n) => {
                        if *n < 0 || (*n as u128) >= (ts.len() as u128) {
                            Err(TypeError::IndexOutOfBounds)
                        } else {
                            let k = *n as usize;
                            Ok(ts[k].duplicate())
                        }
                    },
                    _ => Err(TypeError::NotAConstantIndex),
                },
                _ => Err(TypeError::NotATuple),
            }
        },
        ExprKind::Record(fs) => {
            match first_repeated_name(fs) {
                Some(i) => {
                    proof {
                        let names = names_of(fs@);
                        let j = choose|j: int| 0 <= j < i && fs@[j].0@ == fs@[i as int].0@;
                        assert(names[j] == names[i as int]);
                        assert forall|k: int, l: int| 0 <= l < k < i implies names[l] != names[k] by {
                            assert(fs@[l].0@ != fs@[k].0@);
                        }
                        lemma_first_duplicate(names, i as nat, j);
                    }
                    return Err(TypeError::DuplicateField(fs[i].0.clone()));
                },
                None => {
                    proof {
                        let names = names_of(fs@);
                        assert forall|k: int, l: int| 0 <= l < k < names.len() implies names[l] != names[k] by {
                            assert(fs@[l].0@ != fs@[k].0@);
                        }
                    }
                },
            }
            let ts = match check_fields(fs, env) {
                Ok(ts) => ts,
                Err(x) => return Err(x),
            };
            let fields = pair_names(fs, &ts);
            let ghost fv = fields@;
            let r = Type::Record(fields);
            assert(ty_of(r)->Record_0 =~= record_fields(fs@, typing_fields(fs@, g)->Ok_0)) by {
                assert forall|k: int| 0 <= k < fv.len() implies #[trigger] ty_of(r)->Record_0[k] == record_fields(fs@, typing_fields(fs@, g)->Ok_0)[k] by {
                    assert(fv[k].0@ == fs@[k].0@);
                }
            }
            Ok(r)
        },
        ExprKind::RecordGet(rec, name) => {
            let tr = match check(rec, env) {
                Ok(t) => t,
                Err(x) => return Err(x),
            };
            proof {
                crate::types::lemma_same_form(tr);
            }
            match &tr {
                Type::Record(fs) => {
                    assert(ty_of(tr)->Record_0 =~= fields_ty(fs@));
                    match field_position(fs, name) {
                        Some(i) => Ok(fs[i].1.duplicate()),
                        None => Err(TypeError::UnknownField(name.clone())),
                    }
                },
                _ => Err(TypeError::NotARecord),
            }
        },
        ExprKind::Pack(v, hidden, ex) => {
            proof {
                crate::types::lemma_same_form(*ex);
            }
            match ex {
                Type::Exists(var, base) => {
                    let tv = match check(v, env) {
                        Ok(t) => t,
                        Err(x) => return Err(x),
                    };
                    let want = base.subst(*var, hidden);
                    if types_equal(&tv, &want) {
                        Ok(ex.duplicate())
                    } else {
                        Err(TypeError::ExistentialPackMismatch)
                    }
                },
                _ => Err(TypeError::NotAnExistential),
            }
        },
        ExprKind::Unpack(x, package, tv, body) => {
            let tp = match check(package, env) {
                Ok(t) => t,
                Err(y) => return Err(y),
            };
            proof {
                crate::types::lemma_same_form(tp);
            }
            match tp {
                Type::Exists(var, base) => {
                    let bound = base.subst(var, &Type::TypeVar(*tv));
                    let inner = env.add_binding((x.clone(), bound));
                    assert(inner@ =~= seq![(x@, subst(ty_of(*base), var, Ty::TypeVar(*tv)))] + g);
                    let tb = match check(body, &inner) {
                        Ok(t) => t,
                        Err(y) => return Err(y),
                    };
                    if tb.mentions_free(*tv) {
                        Err(TypeError::EscapingTypeVariable)
                    } else {
                        Ok(tb)
                    }
                },
                _ => Err(TypeError::NotAnExistential),
            }
        },
    }
}

/// Checks `e` in the empty environment.
pub fn check_top(e: &Expr) -> (r: Result<Type, TypeError>)
    ensures
        outcome(r) == typing(*e, Seq::empty()),
{
    let env: TypeEnv = TypeEnv::new();
    check(e, &env)
}

} // verus!
