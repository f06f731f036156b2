use crate::sexpr::SExpr;
use crate::text::{chars_of, parse_u64, same_text, u64_text};
use crate::types::{ty_of, Ty, Type};
use vstd::prelude::*;

verus! {

/// Why a value does not read as an expression or a type.
#[derive(Debug)]
pub struct ParseError(String);

impl View for ParseError {
    type V = Seq<char>;

    closed spec fn view(&self) -> Seq<char> {
        self.0@
    }
}

impl ParseError {
    /// An error with the given message.
    pub fn new(msg: &str) -> (r: ParseError)
        ensures
            r@ == msg@,
    {
        ParseError(msg.to_owned())
    }

    /// What went wrong.
    pub fn message(&self) -> (r: &str)
        ensures
            r@ == self@,
    {
        self.0.as_str()
    }
}

fn fail(msg: &str) -> (r: ParseError)
    ensures
        r@ == msg@,
{
    ParseError(msg.to_owned())
}

/// The variable id that a name `T<n>` stands for.
pub open spec fn type_var_name(x: Seq<char>) -> Option<u64> {
    if x.len() > 0 && x[0] == 'T' {
        u64_text(x.subrange(1, x.len() as int))
    } else {
        None
    }
}

/// The type that a symbol names.
pub open spec fn symbol_type(x: Seq<char>) -> Option<Ty> {
    if x == "int"@ {
        Some(Ty::Int)
    } else if x == "bool"@ {
        Some(Ty::Bool)
    } else if x == "string"@ {
        Some(Ty::Str)
    } else if x == "unknown"@ {
        Some(Ty::Unknown)
    } else {
        match type_var_name(x) {
            Some(n) => Some(Ty::TypeVar(n)),
            None => None,
        }
    }
}

/// Whether every entry is present.
pub open spec fn all_some(s: Seq<Option<Ty>>) -> bool {
    forall|i: int| 0 <= i < s.len() ==> (#[trigger] s[i]) is Some
}

/// The entries, all present.
pub open spec fn unwrap_all(s: Seq<Option<Ty>>) -> Seq<Ty> {
    Seq::new(s.len(), |i: int| s[i]->Some_0)
}

/// The types that `items[lo..hi]` denote.
pub open spec fn range_types(items: Seq<SExpr>, lo: int, hi: int) -> Seq<Option<Ty>>
    decreases items, 0nat,
{
    Seq::new(
        (hi - lo) as nat,
        |i: int| if 0 <= i < hi - lo && 0 <= lo + i < items.len() { sexpr_type(items[lo + i]) } else { None },
    )
}

/// The type that an annotation denotes, if it is one.
pub open spec fn sexpr_type(s: SExpr) -> Option<Ty>
    decreases s, 1nat,
{
    match s {
        SExpr::Symbol(x) => symbol_type(x@),
        SExpr::List(items) => list_type(items@),
        _ => None,
    }
}

/// The type that a list annotation denotes, if it is one.
pub open spec fn list_type(items: Seq<SExpr>) -> Option<Ty>
    decreases items, 2nat,
{
    let n = items.len() as int;
    if n == 0 {
        None
    } else {
        match items[0] {
            SExpr::Symbol(h) => if h@ == "->"@ {
                if n < 2 {
                    None
                } else {
                    let ps = range_types(items, 1, n - 1);
                    match sexpr_type(items[n - 1]) {
                        Some(ret) => if all_some(ps) {
                            Some(Ty::Func(unwrap_all(ps), Box::new(ret)))
                        } else {
                            None
                        },
                        None => None,
                    }
                }
            } else if h@ == "list"@ {
                if n != 2 {
                    None
                } else {
                    match sexpr_type(items[1]) {
                        Some(t) => Some(Ty::List(Box::new(t))),
                        None => None,
                    }
                }
            } else if h@ == "tuple"@ {
                let ts = range_types(items, 1, n);
                if all_some(ts) {
                    Some(Ty::Tuple(unwrap_all(ts)))
                } else {
                    None
                }
            } else if h@ == "exists"@ {
                if n != 3 {
                    None
                } else {
                    match items[1] {
                        SExpr::Symbol(v) => match (type_var_name(v@), sexpr_type(items[2])) {
                            (Some(k), Some(b)) => Some(Ty::Exists(k, Box::new(b))),
                            _ => None,
                        },
                        _ => None,
                    }
                }
            } else {
                None
            },
            _ => None,
        }
    }
}

/// The variable id that a name `T<n>` stands for.
fn parse_type_var(x: &String) -> (r: Option<u64>)
    ensures
        r == type_var_name(x@),
{
    let cs = chars_of(x.as_str());
    if cs.len() > 0 && cs[0] == 'T' {
        parse_u64(&cs, 1)
    } else {
        None
    }
}

/// The type that a symbol names.
fn parse_symbol_type(x: &String) -> (r: Result<Type, ParseError>)
    ensures
        match r {
            Ok(t) => symbol_type(x@) == Some(ty_of(t)),
            Err(_) => symbol_type(x@) is None,
        },
{
    if same_text(x.as_str(), "int") {
        Ok(Type::Int)
    } else if same_text(x.as_str(), "bool") {
        Ok(Type::Bool)
    } else if same_text(x.as_str(), "string") {
        Ok(Type::Str)
    } else if same_text(x.as_str(), "unknown") {
        Ok(Type::Unknown)
    } else {
        match parse_type_var(x) {
            Some(n) => Ok(Type::TypeVar(n)),
            None => Err(fail("Type annotation not recognized as a valid type.")),
        }
    }
}

/// The types that `items[lo..hi]` denote, or an error if one of them is no
/// type.
fn parse_types(items: &Vec<SExpr>, lo: usize, hi: usize) -> (r: Result<Vec<Type>, ParseError>)
    requires
        lo <= hi <= items@.len(),
    ensures
        match r {
            Ok(ts) => all_some(range_types(items@, lo as int, hi as int)) && ts@.len() == hi - lo
                && forall|i: int|
                0 <= i < hi - lo ==> range_types(items@, lo as int, hi as int)[i] == Some(
                    ty_of(#[trigger] ts@[i]),
                ),
            Err(_) => !all_some(range_types(items@, lo as int, hi as int)),
        },
    decreases items, 0nat,
{
    let ghost rt = range_types(items@, lo as int, hi as int);
    let mut out: Vec<Type> = Vec::new();
    let mut i = lo;
    while i < hi
        invariant
            lo <= i <= hi <= items@.len(),
            rt == range_types(items@, lo as int, hi as int),
            out@.len() == i - lo,
            forall|k: int| 0 <= k < i - lo ==> rt[k] == Some(ty_of(#[trigger] out@[k])),
        decreases hi - i,
    {
        match parse_type(&items[i]) {
            Ok(t) => {
                out.push(t);
            },
            Err(e) => {
                assert(rt[i - lo] is None);
                return Err(e);
            },
        }
        i = i + 1;
    }
    assert forall|k: int| 0 <= k < rt.len() implies (#[trigger] rt[k]) is Some by {
        assert(rt[k] == Some(ty_of(out@[k])));
    }
    Ok(out)
}

/// Reads `(-> T1 ... Tn R)`.
fn parse_func_annotation(items: &Vec<SExpr>) -> (r: Result<Type, ParseError>)
    requires
        items@.len() > 0,
        items@[0] matches SExpr::Symbol(h) && h@ == "->"@,
    ensures
        match r {
            Ok(t) => list_type(items@) == Some(ty_of(t)),
            Err(_) => list_type(items@) is None,
        },
    decreases items, 1nat,
{
    let n = items.len();
    if n < 2 {
        return Err(fail("Type annotation for function is missing values."));
    }
    let ps = match parse_types(items, 1, n - 1) {
        Ok(ps) => ps,
        Err(e) => return Err(e),
    };
    let ret = match parse_type(&items[n - 1]) {
        Ok(t) => t,
        Err(e) => return Err(e),
    };
    let ghost pv = ps@;
    let r = Type::Func(ps, Box::new(ret));
    proof {
        let rt = range_types(items@, 1, n - 1);
        assert forall|k: int| 0 <= k < rt.len() implies ty_of(r)->Func_0[k] == unwrap_all(rt)[k] by {
            assert(rt[k] == Some(ty_of(pv[k])));
        }
        assert(ty_of(r)->Func_0 =~= unwrap_all(rt));
    }
    Ok(r)
}

/// Reads `(list T)`.
fn parse_list_annotation(items: &Vec<SExpr>) -> (r: Result<Type, ParseError>)
    requires
        items@.len() > 0,
        items@[0] matches SExpr::Symbol(h) && h@ == "list"@,
        !(items@[0]->Symbol_0@ == "->"@),
    ensures
        match r {
            Ok(t) => list_type(items@) == Some(ty_of(t)),
            Err(_) => list_type(items@) is None,
        },
    decreases items, 1nat,
{
    if items.len() != 2 {
        return Err(fail("Type annotation for list has incorrect number of values."));
    }
    match parse_type(&items[1]) {
        Ok(t) => Ok(Type::List(Box::new(t))),
        Err(e) => Err(e),
    }
}

/// Reads `(tuple T1 ... Tn)`.
fn parse_tuple_annotation(items: &Vec<SExpr>) -> (r: Result<Type, ParseError>)
    requires
        items@.len() > 0,
        items@[0] matches SExpr::Symbol(h) && h@ == "tuple"@,
        !(items@[0]->Symbol_0@ == "->"@),
        !(items@[0]->Symbol_0@ == "list"@),
    ensures
        match r {
            Ok(t) => list_type(items@) == Some(ty_of(t)),
            Err(_) => list_type(items@) is None,
        },
    decreases items, 1nat,
{
    let ts = match parse_types(items, 1, items.len()) {
        Ok(ts) => ts,
        Err(e) => return Err(e),
    };
    let ghost tv = ts@;
    let r = Type::Tuple(ts);
    proof {
        let rt = range_types(items@, 1, items@.len() as int);
        assert forall|k: int| 0 <= k < rt.len() implies ty_of(r)->Tuple_0[k] == unwrap_all(rt)[k] by {
            assert(rt[k] == Some(ty_of(tv[k])));
        }
        assert(ty_of(r)->Tuple_0 =~= unwrap_all(rt));
    }
    Ok(r)
}

/// Reads `(exists T<n> B)`.
fn parse_exists_annotation(items: &Vec<SExpr>) -> (r: Result<Type, ParseError>)
    requires
        items@.len() > 0,
        items@[0] matches SExpr::Symbol(h) && h@ == "exists"@,
        !(items@[0]->Symbol_0@ == "->"@),
        !(items@[0]->Symbol_0@ == "list"@),
        !(items@[0]->Symbol_0@ == "tuple"@),
    ensures
        match r {
            Ok(t) => list_type(items@) == Some(ty_of(t)),
            Err(_) => list_type(items@) is None,
        },
    decreases items, 1nat,
{
    if items.len() != 3 {
        return Err(fail("Type annotation for existential type has incorrect number of values."));
    }
    let var = match &items[1] {
        SExpr::Symbol(v) => match parse_type_var(v) {
            Some(k) => k,
            None => return Err(fail("Type variable for existential type is not of the form T0, T1, etc.")),
        },
        _ => return Err(
            fail(
                "Type annotation for existential type does not have a valid type variable in its first argument.",
            ),
        ),
    };
    match parse_type(&items[2]) {
        Ok(b) => Ok(Type::Exists(var, Box::new(b))),
        Err(e) => Err(e),
    }
}

/// Reads a type annotation.
pub fn parse_type(annotation: &SExpr) -> (r: Result<Type, ParseError>)
    ensures
        match r {
            Ok(t) => sexpr_type(*annotation) == Some(ty_of(t)),
            Err(_) => sexpr_type(*annotation) is None,
        },
    decreases annotation, 2nat,
{
    match annotation {
        SExpr::Symbol(x) => parse_symbol_type(x),
        SExpr::List(items) => {
            if items.len() == 0 {
                return Err(fail("Type annotation is missing values."));
            }
            match &items[0] {
                SExpr::Symbol(h) => {
                    if same_text(h.as_str(), "->") {
                        parse_func_annotation(items)
                    } else if same_text(h.as_str(), "list") {
                        parse_list_annotation(items)
                    } else if same_text(h.as_str(), "tuple") {
                        parse_tuple_annotation(items)
                    } else if same_text(h.as_str(), "exists") {
                        parse_exists_annotation(items)
                    } else {
                        Err(fail("Type annotation does not have \"->\", \"tuple\", \"list\" or \"exists\" as first symbol."))
                    }
                },
                _ => Err(fail("Type annotation does not start with a symbol.")),
            }
        },
        _ => Err(fail("Type annotation is invalid or is missing.")),
    }
}

} // verus!
