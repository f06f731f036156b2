use crate::checker::{bind_all, check, names_of, param_tys, typing, TyEnv, lemma_push_all};
use crate::env::TypeEnv;
use crate::expr::{err_of, outcome, Expr, TyErr, TypeError};
use crate::types::{ty_of, types_equal, Ty, Type};
use vstd::prelude::*;

verus! {

/// A named function with annotated parameters and return type.
#[derive(Debug)]
pub struct FnDecl {
    pub name: String,
    pub params: Vec<(String, Type)>,
    pub ret: Type,
    pub body: Expr,
}

/// A program: auxiliary function declarations and the entry expression.
#[derive(Debug)]
pub struct Prog {
    pub fns: Vec<FnDecl>,
    pub exp: Expr,
}

/// The declared type of a function.
pub open spec fn decl_ty(d: FnDecl) -> Ty {
    Ty::Func(param_tys(d.params@), Box::new(ty_of(d.ret)))
}

/// The environment that binds every declaration to its declared type, the
/// last declaration innermost.
pub open spec fn top_env(fns: Seq<FnDecl>) -> TyEnv {
    Seq::new(fns.len(), |i: int| (fns[fns.len() - 1 - i].name@, decl_ty(fns[fns.len() - 1 - i])))
}

/// Whether the body of `d` checks, in `top` extended with its parameters, to
/// its declared return type.
pub open spec fn decl_typing(d: FnDecl, top: TyEnv) -> Result<(), TyErr> {
    match typing(d.body, bind_all(top, names_of(d.params@), param_tys(d.params@))) {
        Err(x) => Err(x),
        Ok(t) => if t == ty_of(d.ret) {
            Ok(())
        } else {
            Err(TyErr::ReturnTypeMismatch)
        },
    }
}

/// The declarations checked in order, up to the first error.
pub open spec fn decls_typing(fns: Seq<FnDecl>, top: TyEnv) -> Result<(), TyErr>
    decreases fns.len(),
{
    if fns.len() == 0 {
        Ok(())
    } else {
        match decls_typing(fns.subrange(0, fns.len() - 1), top) {
            Err(x) => Err(x),
            Ok(_) => decl_typing(fns[fns.len() - 1], top),
        }
    }
}

/// The type of a program's entry expression once every declaration checks.
pub open spec fn program_typing(p: Prog) -> Result<Ty, TyErr> {
    let top = top_env(p.fns@);
    match decls_typing(p.fns@, top) {
        Err(x) => Err(x),
        Ok(_) => typing(p.exp, top),
    }
}

proof fn lemma_decls_err(fns: Seq<FnDecl>, n: int, top: TyEnv)
    requires
        0 <= n <= fns.len(),
        decls_typing(fns.subrange(0, n), top) is Err,
    ensures
        decls_typing(fns, top) == decls_typing(fns.subrange(0, n), top),
    decreases fns.len() - n,
{
    if n == fns.len() {
        assert(fns.subrange(0, n) =~= fns);
    } else {
        let init = fns.subrange(0, fns.len() - 1);
        assert(init.subrange(0, n) =~= fns.subrange(0, n));
        lemma_decls_err(init, n, top);
    }
}

/// The declared type of `d`.
fn declared_type(d: &FnDecl) -> (r: Type)
    ensures
        ty_of(r) == decl_ty(*d),
{
    let mut pts: Vec<Type> = Vec::new();
    let mut i: usize = 0;
    while i < d.params.len()
        invariant
            i <= d.params@.len(),
            pts@.len() == i,
            forall|k: int| 0 <= k < i ==> ty_of(#[trigger] pts@[k]) == ty_of(d.params@[k].1),
        decreases d.params@.len() - i,
    {
        pts.push(d.params[i].1.duplicate());
        i = i + 1;
    }
    let r = Type::Func(pts, Box::new(d.ret.duplicate()));
    assert(ty_of(r)->Func_0 =~= param_tys(d.params@));
    r
}

/// Checks a whole program: each declaration's body against its declared
/// return type, in order, then the entry expression. Every declaration is
/// visible to every body and to the entry expression.
pub fn check_program(prog: &Prog) -> (r: Result<Type, TypeError>)
    ensures
        outcome(r) == program_typing(*prog),
{
    let ghost fns = prog.fns@;
    let ghost top = top_env(fns);
    let mut env: TypeEnv = TypeEnv::new();
    let mut i: usize = 0;
    assert(env@ =~= top_env(fns.subrange(0, 0)));
    while i < prog.fns.len()
        invariant
            fns == prog.fns@,
            i <= fns.len(),
            env@ == top_env(fns.subrange(0, i as int)),
        decreases fns.len() - i,
    {
        let t = declared_type(&prog.fns[i]);
        let ghost tg = t;
        let name = prog.fns[i].name.clone();
        let next = env.add_binding((name, t));
        proof {
            let pre = fns.subrange(0, i as int);
            let post = fns.subrange(0, i + 1);
            assert(next@ == seq![(fns[i as int].name@, ty_of(tg))] + env@);
            assert(top_env(pre).len() == i);
            assert forall|k: int| 0 <= k < post.len() implies #[trigger] next@[k] == top_env(post)[k] by {
                if k > 0 {
                    assert(next@[k] == env@[k - 1]);
                    assert(top_env(pre)[k - 1] == top_env(post)[k]);
                }
            }
            assert(next@ =~= top_env(post));
        }
        env = next;
        i = i + 1;
    }
    assert(fns.subrange(0, fns.len() as int) =~= fns);
    let mut j: usize = 0;
    assert(decls_typing(fns.subrange(0, 0), top) is Ok);
    while j < prog.fns.len()
        invariant
            fns == prog.fns@,
            j <= fns.len(),
            top == top_env(fns),
            env@ == top,
            decls_typing(fns.subrange(0, j as int), top) is Ok,
        decreases fns.len() - j,
    {
        let d = &prog.fns[j];
        let binds = crate::types::duplicate_fields(&d.params);
        proof {
            lemma_push_all(env@, binds@, names_of(d.params@), param_tys(d.params@));
        }
        let inner = env.add_bindings(binds);
        let ghost next = fns.subrange(0, j + 1);
        assert(next.subrange(0, j as int) =~= fns.subrange(0, j as int));
        assert(next[j as int] == fns[j as int]);
        assert(inner@ == bind_all(top, names_of(d.params@), param_tys(d.params@)));
        assert(decls_typing(next, top) == decl_typing(fns[j as int], top));
        let res = check(&d.body, &inner);
        match res {
            Err(x) => {
                proof {
                    assert(typing(d.body, bind_all(top, names_of(d.params@), param_tys(d.params@)))
                        == Err::<Ty, TyErr>(err_of(x)));
                    assert(decl_typing(fns[j as int], top) == Err::<(), TyErr>(err_of(x)));
                    lemma_decls_err(fns, j + 1, top);
                    assert(decls_typing(fns, top) == Err::<(), TyErr>(err_of(x)));
                }
                return Err(x);
            },
            Ok(t) => {
                if !types_equal(&t, &d.ret) {
                    proof {
                        assert(decl_typing(fns[j as int], top) == Err::<(), TyErr>(TyErr::ReturnTypeMismatch));
                        lemma_decls_err(fns, j + 1, top);
                    }
                    return Err(TypeError::ReturnTypeMismatch);
                }
            },
        }
        j = j + 1;
    }
    check(&prog.exp, &env)
}

} // verus!
