use crate::checker::{typing, typing_fields, TyEnv};
use crate::env::{lookup, push_all};
use crate::expr::{Expr, ExprKind, TyErr};
use crate::types::{lemma_occurs_free_in, lemma_occurs_free_in_fields, occurs_free, subst, ty_of, Ty, Type};
use vstd::prelude::*;

verus! {

/// Type equality is structural: two existential types are equal exactly when
/// their bound variables and their bodies are, and every type equals itself.
pub proof fn lemma_exists_equality(v: u64, w: u64, a: Ty, b: Ty)
    ensures
        Ty::Exists(v, Box::new(a)) == Ty::Exists(v, Box::new(a)),
        (Ty::Exists(v, Box::new(a)) == Ty::Exists(w, Box::new(b))) == (v == w && a == b),
{
}

/// Substituting for a variable that does not occur free changes nothing.
pub proof fn lemma_subst_identity(t: Ty, v: u64, r: Ty)
    requires
        !occurs_free(t, v),
    ensures
        subst(t, v, r) == t,
    decreases t,
{
    match t {
        Ty::List(e) => {
            lemma_subst_identity(*e, v, r);
        },
        Ty::Func(ps, ret) => {
            lemma_occurs_free_in(ps, v);
            lemma_subst_identity(*ret, v, r);
            assert forall|i: int| 0 <= i < ps.len() implies subst(ps[i], v, r) == ps[i] by {
                assert(!occurs_free(ps[i], v));
                lemma_subst_identity(ps[i], v, r);
            }
            assert(subst(t, v, r)->Func_0 =~= ps);
        },
        Ty::Tuple(ts) => {
            lemma_occurs_free_in(ts, v);
            assert forall|i: int| 0 <= i < ts.len() implies subst(ts[i], v, r) == ts[i] by {
                assert(!occurs_free(ts[i], v));
                lemma_subst_identity(ts[i], v, r);
            }
            assert(subst(t, v, r)->Tuple_0 =~= ts);
        },
        Ty::Record(fs) => {
            lemma_occurs_free_in_fields(fs, v);
            assert forall|i: int| 0 <= i < fs.len() implies subst(fs[i].1, v, r) == fs[i].1 by {
                assert(!occurs_free(fs[i].1, v));
                lemma_subst_identity(fs[i].1, v, r);
            }
            assert(subst(t, v, r)->Record_0 =~= fs);
        },
        Ty::Exists(w, b) => {
            if w != v {
                lemma_subst_identity(*b, v, r);
            }
        },
        _ => {},
    }
}

/// Substitution does not reach under an existential that binds the same
/// variable again: such a binder and its body are left as they are.
pub proof fn lemma_subst_respects_rebinding(body: Ty, v: u64, r: Ty)
    ensures
        subst(Ty::Exists(v, Box::new(body)), v, r) == Ty::Exists(v, Box::new(body)),
{
}

/// The most recent binding of a name shadows every older one.
pub proof fn lemma_shadowing<T>(env: Seq<(Seq<char>, T)>, k: Seq<char>, older: T, newer: T)
    ensures
        lookup(seq![(k, newer)] + (seq![(k, older)] + env), k) == Some(newer),
        lookup(seq![(k, newer)] + env, k) == Some(newer),
{
}

/// Within one batch of bindings, a later binding of a name shadows an
/// earlier one.
pub proof fn lemma_batch_shadowing(env: Seq<(Seq<char>, Ty)>, k: String, a: Type, b: Type)
    ensures
        lookup(push_all(env, seq![(k, a), (k, b)]), k@) == Some(ty_of(b)),
{
    assert(push_all(env, seq![(k, a), (k, b)])[0] == (k@, ty_of(b)));
}

/// Packing hides the witness: a value whose type is the base with the hidden
/// type substituted checks, packed, to the existential type itself.
pub proof fn lemma_pack_hides_witness(e: Expr, env: TyEnv)
    requires
        e.kind is Pack,
        ty_of(e.kind->Pack_2) is Exists,
        typing(*e.kind->Pack_0, env) == Ok::<Ty, TyErr>(
            subst(
                *ty_of(e.kind->Pack_2)->Exists_1,
                ty_of(e.kind->Pack_2)->Exists_0,
                ty_of(e.kind->Pack_1),
            ),
        ),
    ensures
        typing(e, env) == Ok::<Ty, TyErr>(ty_of(e.kind->Pack_2)),
{
}

/// Applying a function to the wrong number of arguments is an arity error.
pub proof fn lemma_arity_mismatch(e: Expr, env: TyEnv)
    requires
        e.kind is FnApp,
        typing(*e.kind->FnApp_0, env) matches Ok(Ty::Func(ps, _)) && ps.len() != e.kind->FnApp_1@.len(),
    ensures
        typing(e, env) == Err::<Ty, TyErr>(TyErr::ArityMismatch),
{
}

/// A literal index outside a tuple is out of bounds, and an index that is not
/// a literal is refused.
pub proof fn lemma_tuple_index_bounds(e: Expr, env: TyEnv)
    requires
        e.kind is TupleGet,
        typing(*e.kind->TupleGet_0, env) is Ok,
        typing(*e.kind->TupleGet_0, env)->Ok_0 is Tuple,
    ensures
        e.kind->TupleGet_1.kind matches ExprKind::Num(n) && (n < 0 || n >= typing(
            *e.kind->TupleGet_0,
            env,
        )->Ok_0->Tuple_0.len()) ==> typing(e, env) == Err::<Ty, TyErr>(TyErr::IndexOutOfBounds),
        !(e.kind->TupleGet_1.kind is Num) ==> typing(e, env) == Err::<Ty, TyErr>(
            TyErr::NotAConstantIndex,
        ),
{
}

/// The bindings of a `let` are checked in the enclosing environment only: a
/// second binding that names a variable the environment lacks fails as
/// unbound, even when the first binding binds that very name.
pub proof fn lemma_let_bindings_are_parallel(e: Expr, env: TyEnv)
    requires
        e.kind is Let,
        e.kind->Let_0@.len() == 2,
        typing(e.kind->Let_0@[0].1, env) is Ok,
        e.kind->Let_0@[1].1.kind is Id,
        lookup(env, e.kind->Let_0@[1].1.kind->Id_0@) is None,
    ensures
        typing(e, env) == Err::<Ty, TyErr>(TyErr::UnboundVariable(e.kind->Let_0@[1].1.kind->Id_0@)),
{
    let bs = e.kind->Let_0@;
    let first = bs.subrange(0, 1);
    assert(typing_fields(first.subrange(0, 0), env) == Ok::<Seq<Ty>, TyErr>(Seq::empty()));
    assert(first[0] == bs[0]);
    assert(typing_fields(first, env) is Ok);
    assert(bs.subrange(0, bs.len() - 1) =~= first);
    assert(typing(bs[1].1, env) == Err::<Ty, TyErr>(TyErr::UnboundVariable(bs[1].1.kind->Id_0@)));
    assert(typing_fields(bs, env) == Err::<Seq<Ty>, TyErr>(TyErr::UnboundVariable(bs[1].1.kind->Id_0@)));
}

} // verus!
