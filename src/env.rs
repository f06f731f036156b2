use crate::text::same_text;
use crate::types::{ty_of, Ty, Type};
use im_rc::Vector;
use vstd::prelude::*;

verus! {

#[verifier::external_type_specification]
#[verifier::external_body]
#[verifier::reject_recursive_types(A)]
pub struct ExVector<A>(Vector<A>);

/// What a vector of bindings holds, front first: each name with the value of
/// its type.
pub uninterp spec fn bindings_of(v: Vector<(String, Type)>) -> Seq<(Seq<char>, Ty)>;

/// Relies on `im_rc::Vector::new`: the new vector is empty.
#[verifier::external_body]
fn vector_new() -> (r: Vector<(String, Type)>)
    ensures
        bindings_of(r) == Seq::<(Seq<char>, Ty)>::empty(),
{
    Vector::new()
}

/// Relies on `im_rc::Vector::clone`: the copy holds the same bindings.
#[verifier::external_body]
fn vector_clone(v: &Vector<(String, Type)>) -> (r: Vector<(String, Type)>)
    ensures
        bindings_of(r) == bindings_of(*v),
{
    v.clone()
}

/// Relies on `im_rc::Vector::push_front`: the binding goes in front.
#[verifier::external_body]
fn vector_push_front(v: &mut Vector<(String, Type)>, b: (String, Type))
    ensures
        bindings_of(*final(v)) == seq![(b.0@, ty_of(b.1))] + bindings_of(*old(v)),
{
    v.push_front(b)
}

/// Relies on `im_rc::Vector::len`: the number of bindings.
#[verifier::external_body]
fn vector_len(v: &Vector<(String, Type)>) -> (r: usize)
    ensures
        r == bindings_of(*v).len(),
{
    v.len()
}

/// Relies on `im_rc::Vector::get`: the binding at `i`, if `i` is in bounds.
#[verifier::external_body]
fn vector_get(v: &Vector<(String, Type)>, i: usize) -> (r: Option<&(String, Type)>)
    ensures
        i < bindings_of(*v).len() ==> r is Some && (r->Some_0.0@, ty_of(r->Some_0.1)) == bindings_of(
            *v,
        )[i as int],
        i >= bindings_of(*v).len() ==> r is None,
{
    v.get(i)
}

/// The value of the innermost binding of `k` in `s`, if there is one.
pub open spec fn lookup<T>(s: Seq<(Seq<char>, T)>, k: Seq<char>) -> Option<T>
    decreases s.len(),
{
    if s.len() == 0 {
        None
    } else if s[0].0 == k {
        Some(s[0].1)
    } else {
        lookup(s.subrange(1, s.len() as int), k)
    }
}

/// `bs` pushed one after the other in front of `env`: the last of them ends
/// up innermost.
pub open spec fn push_all(env: Seq<(Seq<char>, Ty)>, bs: Seq<(String, Type)>) -> Seq<(Seq<char>, Ty)> {
    Seq::new(bs.len(), |i: int| (bs[bs.len() - 1 - i].0@, ty_of(bs[bs.len() - 1 - i].1))) + env
}

/// A persistent environment from names to types. Extending it gives a new
/// environment and leaves this one as it was; the two share their bindings.
pub struct TypeEnv {
    bindings: Vector<(String, Type)>,
}

impl View for TypeEnv {
    type V = Seq<(Seq<char>, Ty)>;

    closed spec fn view(&self) -> Seq<(Seq<char>, Ty)> {
        bindings_of(self.bindings)
    }
}

impl TypeEnv {
    /// The empty environment.
    pub fn new() -> (r: TypeEnv)
        ensures
            r@ == Seq::<(Seq<char>, Ty)>::empty(),
    {
        TypeEnv { bindings: vector_new() }
    }

    /// A new environment extended with the provided binding.
    pub fn add_binding(&self, new_binding: (String, Type)) -> (r: TypeEnv)
        ensures
            r@ == seq![(new_binding.0@, ty_of(new_binding.1))] + self@,
    {
        let mut bindings = vector_clone(&self.bindings);
        vector_push_front(&mut bindings, new_binding);
        TypeEnv { bindings }
    }

    /// A new environment extended with the provided bindings, pushed in
    /// order, so that a later one shadows an earlier one of the same name.
    pub fn add_bindings(&self, new_bindings: Vec<(String, Type)>) -> (r: TypeEnv)
        ensures
            r@ == push_all(self@, new_bindings@),
    {
        let ghost bs = new_bindings@;
        let mut pending = new_bindings;
        let mut reversed: Vec<(String, Type)> = Vec::new();
        while pending.len() > 0
            invariant
                pending@.len() + reversed@.len() == bs.len(),
                forall|i: int| 0 <= i < pending@.len() ==> pending@[i] == bs[i],
                forall|i: int|
                    0 <= i < reversed@.len() ==> reversed@[i] == bs[bs.len() - 1 - i],
            decreases pending@.len(),
        {
            let b = pending.pop().unwrap();
            reversed.push(b);
        }
        let mut env = TypeEnv { bindings: vector_clone(&self.bindings) };
        assert(env@ =~= push_all(self@, bs.subrange(0, 0)));
        while reversed.len() > 0
            invariant
                reversed@.len() <= bs.len(),
                forall|i: int|
                    0 <= i < reversed@.len() ==> reversed@[i] == bs[bs.len() - 1 - i],
                env@ == push_all(self@, bs.subrange(0, bs.len() - reversed@.len())),
            decreases reversed@.len(),
        {
            let ghost done = bs.len() - reversed@.len();
            let b = reversed.pop().unwrap();
            let next = env.add_binding(b);
            assert(push_all(self@, bs.subrange(0, done + 1)) =~= seq![(bs[done].0@, ty_of(bs[done].1))]
                + push_all(self@, bs.subrange(0, done)));
            env = next;
        }
        assert(bs.subrange(0, bs.len() as int) =~= bs);
        env
    }

    /// The type of the innermost binding of `key`, if there is one.
    pub fn find(&self, key: &str) -> (r: Option<&Type>)
        ensures
            match r {
                Some(v) => lookup(self@, key@) == Some(ty_of(*v)),
                None => lookup(self@, key@) is None,
            },
    {
        let ghost whole = self@;
        let n = vector_len(&self.bindings);
        assert(whole.subrange(0, whole.len() as int) =~= whole);
        let mut i: usize = 0;
        while i < n
            invariant
                whole == self@,
                n == whole.len(),
                i <= n,
                lookup(whole.subrange(i as int, whole.len() as int), key@) == lookup(whole, key@),
            decreases n - i,
        {
            let ghost rest = whole.subrange(i as int, whole.len() as int);
            assert(rest.subrange(1, rest.len() as int) =~= whole.subrange(i + 1, whole.len() as int));
            match vector_get(&self.bindings, i) {
                Some(pair) => {
                    if same_text(pair.0.as_str(), key) {
                        return Some(&pair.1);
                    }
                },
                None => {
                    return None;
                },
            }
            i = i + 1;
        }
        assert(whole.subrange(i as int, whole.len() as int).len() == 0);
        None
    }
}

} // verus!
