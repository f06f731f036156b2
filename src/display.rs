use crate::text::{push_char, push_text};
use crate::types::{ty_of, Ty, Type};
use vstd::prelude::*;

verus! {

/// The character of the decimal digit `d`.
pub open spec fn digit_char(d: nat) -> char {
    if d == 0 {
        '0'
    } else if d == 1 {
        '1'
    } else if d == 2 {
        '2'
    } else if d == 3 {
        '3'
    } else if d == 4 {
        '4'
    } else if d == 5 {
        '5'
    } else if d == 6 {
        '6'
    } else if d == 7 {
        '7'
    } else if d == 8 {
        '8'
    } else {
        '9'
    }
}

/// `n` in decimal, without leading zeros.
pub open spec fn decimal(n: nat) -> Seq<char>
    decreases n,
{
    if n < 10 {
        seq![digit_char(n)]
    } else {
        decimal(n / 10).push(digit_char(n % 10))
    }
}

/// The canonical text of a type, in the syntax of type annotations.
pub open spec fn type_text(t: Ty) -> Seq<char>
    decreases t,
{
    match t {
        Ty::Int => "int"@,
        Ty::Bool => "bool"@,
        Ty::Str => "string"@,
        Ty::Unknown => "unknown"@,
        Ty::List(e) => "(list "@ + type_text(*e) + ")"@,
        Ty::Func(ps, r) => "(->"@ + spaced(ps) + " "@ + type_text(*r) + ")"@,
        Ty::Tuple(ts) => "(tuple"@ + spaced(ts) + ")"@,
        Ty::Record(fs) => "(record"@ + spaced_fields(fs) + ")"@,
        Ty::Exists(v, b) => "(exists T"@ + decimal(v as nat) + " "@ + type_text(*b) + ")"@,
        Ty::TypeVar(v) => "T"@ + decimal(v as nat),
    }
}

/// The texts of `ts`, each after a space.
pub open spec fn spaced(ts: Seq<Ty>) -> Seq<char>
    decreases ts,
{
    if ts.len() == 0 {
        Seq::empty()
    } else {
        spaced(ts.subrange(0, ts.len() - 1)) + " "@ + type_text(ts[ts.len() - 1])
    }
}

/// The fields `(name type)` of a record type, each after a space.
pub open spec fn spaced_fields(fs: Seq<(Seq<char>, Ty)>) -> Seq<char>
    decreases fs,
{
    if fs.len() == 0 {
        Seq::empty()
    } else {
        spaced_fields(fs.subrange(0, fs.len() - 1)) + " ("@ + fs[fs.len() - 1].0 + " "@ + type_text(
            fs[fs.len() - 1].1,
        ) + ")"@
    }
}

fn digit_of(d: u64) -> (r: char)
    requires
        d < 10,
    ensures
        r == digit_char(d as nat),
{
    if d == 0 {
        '0'
    } else if d == 1 {
        '1'
    } else if d == 2 {
        '2'
    } else if d == 3 {
        '3'
    } else if d == 4 {
        '4'
    } else if d == 5 {
        '5'
    } else if d == 6 {
        '6'
    } else if d == 7 {
        '7'
    } else if d == 8 {
        '8'
    } else {
        '9'
    }
}

pub(crate) fn write_decimal(out: &mut String, n: u64)
    ensures
        final(out)@ == old(out)@ + decimal(n as nat),
    decreases n,
{
    if n >= 10 {
        write_decimal(out, n / 10);
    }
    push_char(out, digit_of(n % 10));
    assert(final(out)@ =~= old(out)@ + decimal(n as nat));
}

pub(crate) fn write_type(out: &mut String, t: &Type)
    ensures
        final(out)@ == old(out)@ + type_text(ty_of(*t)),
    decreases t,
{
    let ghost start = out@;
    match t {
        Type::Int => push_text(out, "int"),
        Type::Bool => push_text(out, "bool"),
        Type::Str => push_text(out, "string"),
        Type::Unknown => push_text(out, "unknown"),
        Type::List(e) => {
            push_text(out, "(list ");
            write_type(out, e);
            push_text(out, ")");
        },
        Type::Func(ps, r) => {
            push_text(out, "(->");
            write_all(out, ps);
            assert(tys_view(ps@) =~= ty_of(*t)->Func_0);
            push_text(out, " ");
            write_type(out, r);
            push_text(out, ")");
        },
        Type::Tuple(ts) => {
            push_text(out, "(tuple");
            write_all(out, ts);
            assert(tys_view(ts@) =~= ty_of(*t)->Tuple_0);
            push_text(out, ")");
        },
        Type::Record(fs) => {
            push_text(out, "(record");
            write_fields(out, fs);
            assert(fields_view(fs@) =~= ty_of(*t)->Record_0);
            push_text(out, ")");
        },
        Type::Exists(v, b) => {
            push_text(out, "(exists T");
            write_decimal(out, *v);
            push_text(out, " ");
            write_type(out, b);
            push_text(out, ")");
        },
        Type::TypeVar(v) => {
            push_text(out, "T");
            write_decimal(out, *v);
        },
    }
    assert(out@ =~= start + type_text(ty_of(*t)));
}

/// The values of a sequence of types.
pub open spec fn tys_view(ts: Seq<Type>) -> Seq<Ty> {
    Seq::new(ts.len(), |i: int| ty_of(ts[i]))
}

/// The values of a sequence of named types.
pub open spec fn fields_view(fs: Seq<(String, Type)>) -> Seq<(Seq<char>, Ty)> {
    Seq::new(fs.len(), |i: int| (fs[i].0@, ty_of(fs[i].1)))
}

fn write_all(out: &mut String, ts: &Vec<Type>)
    ensures
        final(out)@ == old(out)@ + spaced(tys_view(ts@)),
    decreases ts,
{
    let ghost start = out@;
    let mut i: usize = 0;
    while i < ts.len()
        invariant
            i <= ts@.len(),
            out@ == start + spaced(tys_view(ts@).subrange(0, i as int)),
        decreases ts@.len() - i,
    {
        let ghost whole = tys_view(ts@);
        assert(whole.subrange(0, i + 1).subrange(0, i as int) =~= whole.subrange(0, i as int));
        push_text(out, " ");
        write_type(out, &ts[i]);
        assert(out@ =~= start + spaced(whole.subrange(0, i + 1)));
        i = i + 1;
    }
    assert(tys_view(ts@).subrange(0, i as int) =~= tys_view(ts@));
}

fn write_fields(out: &mut String, fs: &Vec<(String, Type)>)
    ensures
        final(out)@ == old(out)@ + spaced_fields(fields_view(fs@)),
    decreases fs,
{
    let ghost start = out@;
    let mut i: usize = 0;
    while i < fs.len()
        invariant
            i <= fs@.len(),
            out@ == start + spaced_fields(fields_view(fs@).subrange(0, i as int)),
        decreases fs@.len() - i,
    {
        let ghost whole = fields_view(fs@);
        assert(whole.subrange(0, i + 1).subrange(0, i as int) =~= whole.subrange(0, i as int));
        proof {
            assert(decreases_to!(fs => fs@[i as int].1));
        }
        push_text(out, " (");
        push_text(out, fs[i].0.as_str());
        push_text(out, " ");
        write_type(out, &fs[i].1);
        push_text(out, ")");
        assert(out@ =~= start + spaced_fields(whole.subrange(0, i + 1)));
        i = i + 1;
    }
    assert(fields_view(fs@).subrange(0, i as int) =~= fields_view(fs@));
}

impl Type {
    /// The canonical text of this type, in the syntax of type annotations:
    /// `(list int)`, `(exists T0 (-> T0 bool))`.
    pub fn to_text(&self) -> (r: String)
        ensures
            r@ == type_text(ty_of(*self)),
    {
        let mut out = String::new();
        write_type(&mut out, self);
        assert(out@ =~= type_text(ty_of(*self)));
        out
    }
}

} // verus!
