use vstd::prelude::*;

verus! {

/// A type of the language.
///
/// Types are immutable values compared structurally; `Exists` binds a type
/// variable identified by a program-wide unique id.
#[derive(Debug)]
pub enum Type {
    Int,
    Bool,
    Str,
    /// A homogeneous list.
    List(Box<Type>),
    /// Parameter types in declaration order, and the return type.
    Func(Vec<Type>, Box<Type>),
    Tuple(Vec<Type>),
    /// Field names with their types, in declaration order.
    Record(Vec<(String, Type)>),
    /// A base type stated in terms of the bound variable.
    Exists(u64, Box<Type>),
    TypeVar(u64),
    /// A placeholder that checking never produces.
    Unknown,
}

/// The mathematical value of a `Type`.
pub ghost enum Ty {
    Int,
    Bool,
    Str,
    List(Box<Ty>),
    Func(Seq<Ty>, Box<Ty>),
    Tuple(Seq<Ty>),
    Record(Seq<(Seq<char>, Ty)>),
    Exists(u64, Box<Ty>),
    TypeVar(u64),
    Unknown,
}

pub open spec fn ty_of(t: Type) -> Ty
    decreases t,
{
    match t {
        Type::Int => Ty::Int,
        Type::Bool => Ty::Bool,
        Type::Str => Ty::Str,
        Type::List(e) => Ty::List(Box::new(ty_of(*e))),
        Type::Func(ps, r) => Ty::Func(
            Seq::new(ps@.len(), |i: int| if 0 <= i < ps@.len() { ty_of(ps@[i]) } else { Ty::Unknown }),
            Box::new(ty_of(*r)),
        ),
        Type::Tuple(ts) => Ty::Tuple(
            Seq::new(ts@.len(), |i: int| if 0 <= i < ts@.len() { ty_of(ts@[i]) } else { Ty::Unknown }),
        ),
        Type::Record(fs) => Ty::Record(
            Seq::new(
                fs@.len(),
                |i: int|
                    if 0 <= i < fs@.len() {
                        (fs@[i].0@, ty_of(fs@[i].1))
                    } else {
                        (Seq::empty(), Ty::Unknown)
                    },
            ),
        ),
        Type::Exists(v, b) => Ty::Exists(v, Box::new(ty_of(*b))),
        Type::TypeVar(v) => Ty::TypeVar(v),
        Type::Unknown => Ty::Unknown,
    }
}

impl View for Type {
    type V = Ty;

    open spec fn view(&self) -> Ty {
        ty_of(*self)
    }
}

impl PartialEq for Type {
    fn eq(&self, other: &Type) -> (r: bool) {
        types_equal(self, other)
    }
}

impl Clone for Type {
    fn clone(&self) -> (r: Type)
        ensures
            ty_of(r) == ty_of(*self),
    {
        self.duplicate()
    }
}

impl vstd::std_specs::cmp::PartialEqSpecImpl for Type {
    open spec fn obeys_eq_spec() -> bool {
        true
    }

    open spec fn eq_spec(&self, other: &Type) -> bool {
        ty_of(*self) == ty_of(*other)
    }
}

/// `t` with every free occurrence of `TypeVar(v)` replaced by `r`; a nested
/// `Exists` that binds `v` again is left as it is.
pub open spec fn subst(t: Ty, v: u64, r: Ty) -> Ty
    decreases t,
{
    match t {
        Ty::List(e) => Ty::List(Box::new(subst(*e, v, r))),
        Ty::Func(ps, ret) => Ty::Func(
            Seq::new(ps.len(), |i: int| if 0 <= i < ps.len() { subst(ps[i], v, r) } else { Ty::Unknown }),
            Box::new(subst(*ret, v, r)),
        ),
        Ty::Tuple(ts) => Ty::Tuple(
            Seq::new(ts.len(), |i: int| if 0 <= i < ts.len() { subst(ts[i], v, r) } else { Ty::Unknown }),
        ),
        Ty::Record(fs) => Ty::Record(
            Seq::new(
                fs.len(),
                |i: int|
                    if 0 <= i < fs.len() {
                        (fs[i].0, subst(fs[i].1, v, r))
                    } else {
                        (Seq::empty(), Ty::Unknown)
                    },
            ),
        ),
        Ty::Exists(w, b) => if w == v {
            t
        } else {
            Ty::Exists(w, Box::new(subst(*b, v, r)))
        },
        Ty::TypeVar(w) => if w == v {
            r
        } else {
            t
        },
        _ => t,
    }
}

/// Whether `TypeVar(v)` occurs in `t` outside every `Exists` that binds `v`.
pub open spec fn occurs_free(t: Ty, v: u64) -> bool
    decreases t,
{
    match t {
        Ty::List(e) => occurs_free(*e, v),
        Ty::Func(ps, ret) => occurs_free(*ret, v) || occurs_free_in(ps, v),
        Ty::Tuple(ts) => occurs_free_in(ts, v),
        Ty::Record(fs) => occurs_free_in_fields(fs, v),
        Ty::Exists(w, b) => w != v && occurs_free(*b, v),
        Ty::TypeVar(w) => w == v,
        _ => false,
    }
}

/// Whether `TypeVar(v)` occurs free in some type of `ts`.
pub open spec fn occurs_free_in(ts: Seq<Ty>, v: u64) -> bool
    decreases ts,
{
    if ts.len() == 0 {
        false
    } else {
        occurs_free_in(ts.subrange(0, ts.len() - 1), v) || occurs_free(ts[ts.len() - 1], v)
    }
}

/// Whether `TypeVar(v)` occurs free in the type of some field of `fs`.
pub open spec fn occurs_free_in_fields(fs: Seq<(Seq<char>, Ty)>, v: u64) -> bool
    decreases fs,
{
    if fs.len() == 0 {
        false
    } else {
        occurs_free_in_fields(fs.subrange(0, fs.len() - 1), v) || occurs_free(fs[fs.len() - 1].1, v)
    }
}

/// `occurs_free_in` holds exactly when some entry has the variable free.
pub proof fn lemma_occurs_free_in(ts: Seq<Ty>, v: u64)
    ensures
        occurs_free_in(ts, v) == exists|j: int| 0 <= j < ts.len() && #[trigger] occurs_free(ts[j], v),
    decreases ts.len(),
{
    if ts.len() > 0 {
        let init = ts.subrange(0, ts.len() - 1);
        lemma_occurs_free_in(init, v);
        assert(occurs_free_in(ts, v) == (occurs_free_in(init, v) || occurs_free(ts[ts.len() - 1], v)));
        if occurs_free_in(init, v) {
            let j = choose|j: int| 0 <= j < init.len() && #[trigger] occurs_free(init[j], v);
            assert(ts[j] == init[j]);
        }
        if exists|j: int| 0 <= j < ts.len() && #[trigger] occurs_free(ts[j], v) {
            let j = choose|j: int| 0 <= j < ts.len() && #[trigger] occurs_free(ts[j], v);
            if j < ts.len() - 1 {
                assert(init[j] == ts[j]);
            }
        }
    }
}

/// `occurs_free_in_fields` holds exactly when some field's type has the
/// variable free.
pub proof fn lemma_occurs_free_in_fields(fs: Seq<(Seq<char>, Ty)>, v: u64)
    ensures
        occurs_free_in_fields(fs, v) == exists|j: int| 0 <= j < fs.len() && #[trigger] occurs_free(fs[j].1, v),
    decreases fs.len(),
{
    if fs.len() > 0 {
        let init = fs.subrange(0, fs.len() - 1);
        lemma_occurs_free_in_fields(init, v);
        assert(occurs_free_in_fields(fs, v) == (occurs_free_in_fields(init, v) || occurs_free(fs[fs.len() - 1].1, v)));
        if occurs_free_in_fields(init, v) {
            let j = choose|j: int| 0 <= j < init.len() && #[trigger] occurs_free(init[j].1, v);
            assert(fs[j] == init[j]);
        }
        if exists|j: int| 0 <= j < fs.len() && #[trigger] occurs_free(fs[j].1, v) {
            let j = choose|j: int| 0 <= j < fs.len() && #[trigger] occurs_free(fs[j].1, v);
            if j < fs.len() - 1 {
                assert(init[j] == fs[j]);
            }
        }
    }
}

/// A type and its value have the same outermost form.
pub proof fn lemma_same_form(t: Type)
    ensures
        (t is Int) == (ty_of(t) is Int),
        (t is Bool) == (ty_of(t) is Bool),
        (t is Str) == (ty_of(t) is Str),
        (t is List) == (ty_of(t) is List),
        (t is Func) == (ty_of(t) is Func),
        (t is Tuple) == (ty_of(t) is Tuple),
        (t is Record) == (ty_of(t) is Record),
        (t is Exists) == (ty_of(t) is Exists),
        (t is TypeVar) == (ty_of(t) is TypeVar),
        (t is Unknown) == (ty_of(t) is Unknown),
{
}

/// Structural equality of two types.
pub fn types_equal(a: &Type, b: &Type) -> (r: bool)
    ensures
        r == (ty_of(*a) == ty_of(*b)),
    decreases a,
{
    proof {
        lemma_same_form(*a);
        lemma_same_form(*b);
    }
    match a {
        Type::Int => match b {
            Type::Int => true,
            _ => false,
        },
        Type::Bool => match b {
            Type::Bool => true,
            _ => false,
        },
        Type::Str => match b {
            Type::Str => true,
            _ => false,
        },
        Type::Unknown => match b {
            Type::Unknown => true,
            _ => false,
        },
        Type::TypeVar(x) => match b {
            Type::TypeVar(y) => *x == *y,
            _ => false,
        },
        Type::List(x) => match b {
            Type::List(y) => types_equal(x, y),
            _ => false,
        },
        Type::Exists(v, x) => match b {
            Type::Exists(w, y) => *v == *w && types_equal(x, y),
            _ => false,
        },
        Type::Func(ps, x) => match b {
            Type::Func(qs, y) => {
                let r1 = types_equal(x, y);
                let r2 = vecs_equal(ps, qs);
                proof {
                    if r2 {
                        assert forall|j: int| 0 <= j < ps@.len() implies ty_of(*a)->Func_0[j] == ty_of(*b)->Func_0[j] by {
                            assert(ty_of(ps@[j]) == ty_of(qs@[j]));
                        }
                        assert(ty_of(*a)->Func_0 =~= ty_of(*b)->Func_0);
                    } else if ps@.len() == qs@.len() {
                        let j = choose|j: int| 0 <= j < ps@.len() && #[trigger] ty_of(ps@[j]) != ty_of(qs@[j]);
                        assert(ty_of(*a)->Func_0[j] != ty_of(*b)->Func_0[j]);
                    } else {
                        assert(ty_of(*a)->Func_0.len() != ty_of(*b)->Func_0.len());
                    }
                }
                r1 && r2
            },
            _ => false,
        },
        Type::Tuple(ps) => match b {
            Type::Tuple(qs) => {
                let r = vecs_equal(ps, qs);
                proof {
                    if r {
                        assert forall|j: int| 0 <= j < ps@.len() implies ty_of(*a)->Tuple_0[j] == ty_of(*b)->Tuple_0[j] by {
                            assert(ty_of(ps@[j]) == ty_of(qs@[j]));
                        }
                        assert(ty_of(*a)->Tuple_0 =~= ty_of(*b)->Tuple_0);
                    } else if ps@.len() == qs@.len() {
                        let j = choose|j: int| 0 <= j < ps@.len() && #[trigger] ty_of(ps@[j]) != ty_of(qs@[j]);
                        assert(ty_of(*a)->Tuple_0[j] != ty_of(*b)->Tuple_0[j]);
                    } else {
                        assert(ty_of(*a)->Tuple_0.len() != ty_of(*b)->Tuple_0.len());
                    }
                }
                r
            },
            _ => false,
        },
        Type::Record(fs) => match b {
            Type::Record(gs) => {
                let r = fields_equal(fs, gs);
                proof {
                    if r {
                        assert forall|j: int| 0 <= j < fs@.len() implies ty_of(*a)->Record_0[j] == ty_of(*b)->Record_0[j] by {
                            assert(fs@[j].0@ == gs@[j].0@ && ty_of(fs@[j].1) == ty_of(gs@[j].1));
                        }
                        assert(ty_of(*a)->Record_0 =~= ty_of(*b)->Record_0);
                    } else if fs@.len() == gs@.len() {
                        let j = choose|j: int|
                            #![trigger fs@[j]] 0 <= j < fs@.len() && !(fs@[j].0@ == gs@[j].0@ && ty_of(fs@[j].1) == ty_of(gs@[j].1));
                        assert(ty_of(*a)->Record_0[j].0 != ty_of(*b)->Record_0[j].0 || ty_of(*a)->Record_0[j].1 != ty_of(*b)->Record_0[j].1);
                    } else {
                        assert(ty_of(*a)->Record_0.len() != ty_of(*b)->Record_0.len());
                    }
                }
                r
            },
            _ => false,
        },
    }
}

/// Element-wise structural equality of two sequences of types.
fn vecs_equal(ps: &Vec<Type>, qs: &Vec<Type>) -> (r: bool)
    ensures
        r == (ps@.len() == qs@.len() && forall|j: int| 0 <= j < ps@.len() ==> #[trigger] ty_of(ps@[j]) == ty_of(qs@[j])),
    decreases ps,
{
    if ps.len() != qs.len() {
        return false;
    }
    let mut i: usize = 0;
    while i < ps.len()
        invariant
            ps.len() == qs.len(),
            i <= ps.len(),
            forall|j: int| 0 <= j < i ==> #[trigger] ty_of(ps@[j]) == ty_of(qs@[j]),
        decreases ps.len() - i,
    {
        if !types_equal(&ps[i], &qs[i]) {
            return false;
        }
        i = i + 1;
    }
    true
}

/// Element-wise equality of two sequences of named fields.
fn fields_equal(fs: &Vec<(String, Type)>, gs: &Vec<(String, Type)>) -> (r: bool)
    ensures
        r == (fs@.len() == gs@.len() && forall|j: int|
            #![trigger fs@[j]] 0 <= j < fs@.len() ==> fs@[j].0@ == gs@[j].0@ && ty_of(fs@[j].1) == ty_of(gs@[j].1)),
    decreases fs,
{
    if fs.len() != gs.len() {
        return false;
    }
    let mut i: usize = 0;
    while i < fs.len()
        invariant
            fs.len() == gs.len(),
            i <= fs.len(),
            forall|j: int| #![trigger fs@[j]] 0 <= j < i ==> fs@[j].0@ == gs@[j].0@ && ty_of(fs@[j].1) == ty_of(gs@[j].1),
        decreases fs.len() - i,
    {
        proof {
            assert(decreases_to!(fs => fs@[i as int].1));
        }
        let same_name = fs[i].0 == gs[i].0;
        if !same_name {
            return false;
        }
        if !types_equal(&fs[i].1, &gs[i].1) {
            return false;
        }
        i = i + 1;
    }
    true
}

impl Type {
    /// A copy of this type, equal to it.
    pub fn duplicate(&self) -> (r: Type)
        ensures
            ty_of(r) == ty_of(*self),
        decreases self,
    {
        match self {
            Type::Int => Type::Int,
            Type::Bool => Type::Bool,
            Type::Str => Type::Str,
            Type::Unknown => Type::Unknown,
            Type::TypeVar(v) => Type::TypeVar(*v),
            Type::List(e) => Type::List(Box::new(e.duplicate())),
            Type::Exists(v, b) => Type::Exists(*v, Box::new(b.duplicate())),
            Type::Func(ps, ret) => {
                let qs = duplicate_all(ps);
                let ghost gq = qs@;
                let r = Type::Func(qs, Box::new(ret.duplicate()));
                assert forall|j: int| 0 <= j < ps@.len() implies ty_of(r)->Func_0[j] == ty_of(*self)->Func_0[j] by {
                    assert(ty_of(gq[j]) == ty_of(ps@[j]));
                }
                assert(ty_of(r)->Func_0 =~= ty_of(*self)->Func_0);
                r
            },
            Type::Tuple(ts) => {
                let us = duplicate_all(ts);
                let ghost gu = us@;
                let r = Type::Tuple(us);
                assert forall|j: int| 0 <= j < ts@.len() implies ty_of(r)->Tuple_0[j] == ty_of(*self)->Tuple_0[j] by {
                    assert(ty_of(gu[j]) == ty_of(ts@[j]));
                }
                assert(ty_of(r)->Tuple_0 =~= ty_of(*self)->Tuple_0);
                r
            },
            Type::Record(fs) => {
                let gs = duplicate_fields(fs);
                let ghost gg = gs@;
                let r = Type::Record(gs);
                assert forall|j: int| 0 <= j < fs@.len() implies ty_of(r)->Record_0[j] == ty_of(*self)->Record_0[j] by {
                    assert(gg[j].0@ == fs@[j].0@ && ty_of(gg[j].1) == ty_of(fs@[j].1));
                }
                assert(ty_of(r)->Record_0 =~= ty_of(*self)->Record_0);
                r
            },
        }
    }

    /// This type with `rep` in place of every free occurrence of
    /// `TypeVar(var)`.
    pub fn subst(&self, var: u64, rep: &Type) -> (r: Type)
        ensures
            ty_of(r) == subst(ty_of(*self), var, ty_of(*rep)),
        decreases self,
    {
        match self {
            Type::Int => Type::Int,
            Type::Bool => Type::Bool,
            Type::Str => Type::Str,
            Type::Unknown => Type::Unknown,
            Type::TypeVar(v) => if *v == var {
                rep.duplicate()
            } else {
                Type::TypeVar(*v)
            },
            Type::List(e) => Type::List(Box::new(e.subst(var, rep))),
            Type::Exists(v, b) => if *v == var {
                self.duplicate()
            } else {
                Type::Exists(*v, Box::new(b.subst(var, rep)))
            },
            Type::Func(ps, ret) => {
                let qs = subst_all(ps, var, rep);
                let ghost gq = qs@;
                let r = Type::Func(qs, Box::new(ret.subst(var, rep)));
                assert forall|j: int| 0 <= j < ps@.len() implies ty_of(r)->Func_0[j] == subst(ty_of(*self), var, ty_of(*rep))->Func_0[j] by {
                    assert(ty_of(gq[j]) == subst(ty_of(ps@[j]), var, ty_of(*rep)));
                }
                assert(ty_of(r)->Func_0 =~= subst(ty_of(*self), var, ty_of(*rep))->Func_0);
                r
            },
            Type::Tuple(ts) => {
                let us = subst_all(ts, var, rep);
                let ghost gu = us@;
                let r = Type::Tuple(us);
                assert forall|j: int| 0 <= j < ts@.len() implies ty_of(r)->Tuple_0[j] == subst(ty_of(*self), var, ty_of(*rep))->Tuple_0[j] by {
                    assert(ty_of(gu[j]) == subst(ty_of(ts@[j]), var, ty_of(*rep)));
                }
                assert(ty_of(r)->Tuple_0 =~= subst(ty_of(*self), var, ty_of(*rep))->Tuple_0);
                r
            },
            Type::Record(fs) => {
                let gs = subst_fields(fs, var, rep);
                let ghost gg = gs@;
                let r = Type::Record(gs);
                assert forall|j: int| 0 <= j < fs@.len() implies ty_of(r)->Record_0[j] == subst(ty_of(*self), var, ty_of(*rep))->Record_0[j] by {
                    assert(gg[j].0@ == fs@[j].0@ && ty_of(gg[j].1) == subst(ty_of(fs@[j].1), var, ty_of(*rep)));
                }
                assert(ty_of(r)->Record_0 =~= subst(ty_of(*self), var, ty_of(*rep))->Record_0);
                r
            },
        }
    }

    /// Whether `TypeVar(var)` occurs free in this type.
    pub fn mentions_free(&self, var: u64) -> (r: bool)
        ensures
            r == occurs_free(ty_of(*self), var),
        decreases self,
    {
        proof {
            lemma_same_form(*self);
        }
        match self {
            Type::TypeVar(v) => *v == var,
            Type::List(e) => e.mentions_free(var),
            Type::Exists(v, b) => *v != var && b.mentions_free(var),
            Type::Func(ps, ret) => {
                let in_ret = ret.mentions_free(var);
                let i = position_mentioning(ps, var);
                proof {
                    let t = ty_of(*self);
                    lemma_occurs_free_in(t->Func_0, var);
                    if i < ps.len() {
                        assert(t->Func_0[i as int] == ty_of(ps@[i as int]));
                        assert(occurs_free(t->Func_0[i as int], var));
                    } else {
                        assert forall|j: int| 0 <= j < t->Func_0.len() implies !occurs_free(#[trigger] t->Func_0[j], var) by {
                            assert(t->Func_0[j] == ty_of(ps@[j]));
                            assert(!occurs_free(ty_of(ps@[j]), var));
                        }
                    }
                }
                in_ret || i < ps.len()
            },
            Type::Tuple(ts) => {
                let i = position_mentioning(ts, var);
                proof {
                    let t = ty_of(*self);
                    lemma_occurs_free_in(t->Tuple_0, var);
                    if i < ts.len() {
                        assert(t->Tuple_0[i as int] == ty_of(ts@[i as int]));
                        assert(occurs_free(t->Tuple_0[i as int], var));
                    } else {
                        assert forall|j: int| 0 <= j < t->Tuple_0.len() implies !occurs_free(#[trigger] t->Tuple_0[j], var) by {
                            assert(t->Tuple_0[j] == ty_of(ts@[j]));
                            assert(!occurs_free(ty_of(ts@[j]), var));
                        }
                    }
                }
                i < ts.len()
            },
            Type::Record(fs) => {
                let i = field_mentioning(fs, var);
                proof {
                    let t = ty_of(*self);
                    lemma_occurs_free_in_fields(t->Record_0, var);
                    if i < fs.len() {
                        assert(occurs_free(t->Record_0[i as int].1, var));
                    } else {
                        assert forall|j: int| 0 <= j < t->Record_0.len() implies !occurs_free(#[trigger] t->Record_0[j].1, var) by {
                            assert(!occurs_free(ty_of(fs@[j].1), var));
                        }
                    }
                }
                i < fs.len()
            },
            _ => false,
        }
    }
}

/// The first position whose type mentions `TypeVar(var)` free, or the length
/// when there is none.
fn position_mentioning(ts: &Vec<Type>, var: u64) -> (r: usize)
    ensures
        r <= ts@.len(),
        r < ts@.len() ==> occurs_free(ty_of(ts@[r as int]), var),
        r == ts@.len() ==> forall|j: int| 0 <= j < ts@.len() ==> !occurs_free(#[trigger] ty_of(ts@[j]), var),
    decreases ts,
{
    let mut i: usize = 0;
    while i < ts.len()
        invariant
            i <= ts.len(),
            forall|j: int| 0 <= j < i ==> !occurs_free(#[trigger] ty_of(ts@[j]), var),
        decreases ts.len() - i,
    {
        if ts[i].mentions_free(var) {
            return i;
        }
        i = i + 1;
    }
    i
}

/// The first field whose type mentions `TypeVar(var)` free, or the length
/// when there is none.
fn field_mentioning(fs: &Vec<(String, Type)>, var: u64) -> (r: usize)
    ensures
        r <= fs@.len(),
        r < fs@.len() ==> occurs_free(ty_of(fs@[r as int].1), var),
        r == fs@.len() ==> forall|j: int| 0 <= j < fs@.len() ==> !occurs_free(#[trigger] ty_of(fs@[j].1), var),
    decreases fs,
{
    let mut i: usize = 0;
    while i < fs.len()
        invariant
            i <= fs.len(),
            forall|j: int| 0 <= j < i ==> !occurs_free(#[trigger] ty_of(fs@[j].1), var),
        decreases fs.len() - i,
    {
        proof {
            assert(decreases_to!(fs => fs@[i as int].1));
        }
        if fs[i].1.mentions_free(var) {
            return i;
        }
        i = i + 1;
    }
    i
}

pub(crate) fn duplicate_all(ts: &Vec<Type>) -> (r: Vec<Type>)
    ensures
        r@.len() == ts@.len(),
        forall|j: int| 0 <= j < ts@.len() ==> #[trigger] ty_of(r@[j]) == ty_of(ts@[j]),
    decreases ts,
{
    let mut out: Vec<Type> = Vec::new();
    let mut i: usize = 0;
    while i < ts.len()
        invariant
            i <= ts.len(),
            out@.len() == i,
            forall|j: int| 0 <= j < i ==> #[trigger] ty_of(out@[j]) == ty_of(ts@[j]),
        decreases ts.len() - i,
    {
        out.push(ts[i].duplicate());
        i = i + 1;
    }
    out
}

pub(crate) fn duplicate_fields(fs: &Vec<(String, Type)>) -> (r: Vec<(String, Type)>)
    ensures
        r@.len() == fs@.len(),
        forall|j: int|
            #![trigger r@[j]]
            0 <= j < fs@.len() ==> r@[j].0@ == fs@[j].0@ && ty_of(r@[j].1) == ty_of(fs@[j].1),
    decreases fs,
{
    let mut out: Vec<(String, Type)> = Vec::new();
    let mut i: usize = 0;
    while i < fs.len()
        invariant
            i <= fs.len(),
            out@.len() == i,
            forall|j: int|
                #![trigger out@[j]]
                0 <= j < i ==> out@[j].0@ == fs@[j].0@ && ty_of(out@[j].1) == ty_of(fs@[j].1),
        decreases fs.len() - i,
    {
        proof {
            assert(decreases_to!(fs => fs@[i as int].1));
        }
        out.push((fs[i].0.clone(), fs[i].1.duplicate()));
        i = i + 1;
    }
    out
}

fn subst_all(ts: &Vec<Type>, var: u64, rep: &Type) -> (r: Vec<Type>)
    ensures
        r@.len() == ts@.len(),
        forall|j: int|
            0 <= j < ts@.len() ==> #[trigger] ty_of(r@[j]) == subst(ty_of(ts@[j]), var, ty_of(*rep)),
    decreases ts,
{
    let mut out: Vec<Type> = Vec::new();
    let mut i: usize = 0;
    while i < ts.len()
        invariant
            i <= ts.len(),
            out@.len() == i,
            forall|j: int|
                0 <= j < i ==> #[trigger] ty_of(out@[j]) == subst(ty_of(ts@[j]), var, ty_of(*rep)),
        decreases ts.len() - i,
    {
        out.push(ts[i].subst(var, rep));
        i = i + 1;
    }
    out
}

fn subst_fields(fs: &Vec<(String, Type)>, var: u64, rep: &Type) -> (r: Vec<(String, Type)>)
    ensures
        r@.len() == fs@.len(),
        forall|j: int|
            #![trigger r@[j]]
            0 <= j < fs@.len() ==> r@[j].0@ == fs@[j].0@ && ty_of(r@[j].1) == subst(
                ty_of(fs@[j].1),
                var,
                ty_of(*rep),
            ),
    decreases fs,
{
    let mut out: Vec<(String, Type)> = Vec::new();
    let mut i: usize = 0;
    while i < fs.len()
        invariant
            i <= fs.len(),
            out@.len() == i,
            forall|j: int|
                #![trigger out@[j]]
                0 <= j < i ==> out@[j].0@ == fs@[j].0@ && ty_of(out@[j].1) == subst(
                    ty_of(fs@[j].1),
                    var,
                    ty_of(*rep),
                ),
        decreases fs.len() - i,
    {
        proof {
            assert(decreases_to!(fs => fs@[i as int].1));
        }
        out.push((fs[i].0.clone(), fs[i].1.subst(var, rep)));
        i = i + 1;
    }
    out
}

} // verus!
