use typed_scheme::checker::{check, check_top};
use typed_scheme::env::TypeEnv;
use typed_scheme::expr::{BinOp, Expr, ExprKind, TypeError};
use typed_scheme::program::{check_program, FnDecl, Prog};
use typed_scheme::types::{types_equal, Type};

fn e(kind: ExprKind) -> Expr {
    Expr::new(kind)
}

fn num(n: i64) -> Expr {
    e(ExprKind::Num(n))
}

fn boolean(b: bool) -> Expr {
    e(ExprKind::Bool(b))
}

fn string(s: &str) -> Expr {
    e(ExprKind::Str(String::from(s)))
}

fn id(x: &str) -> Expr {
    e(ExprKind::Id(String::from(x)))
}

fn bin(op: BinOp, a: Expr, b: Expr) -> Expr {
    e(ExprKind::Binop(op, Box::new(a), Box::new(b)))
}

fn if_(p: Expr, c: Expr, a: Expr) -> Expr {
    e(ExprKind::If(Box::new(p), Box::new(c), Box::new(a)))
}

fn let_(bs: Vec<(&str, Expr)>, body: Expr) -> Expr {
    let bs = bs.into_iter().map(|(k, v)| (String::from(k), v)).collect();
    e(ExprKind::Let(bs, Box::new(body)))
}

fn lambda(ps: Vec<(&str, Type)>, ret: Type, body: Expr) -> Expr {
    let ps = ps.into_iter().map(|(k, t)| (String::from(k), t)).collect();
    e(ExprKind::Lambda(ps, ret, Box::new(body)))
}

fn app(f: Expr, args: Vec<Expr>) -> Expr {
    e(ExprKind::FnApp(Box::new(f), args))
}

fn tuple(es: Vec<Expr>, ts: Vec<Type>) -> Expr {
    e(ExprKind::Tuple(es, ts))
}

fn tuple_get(t: Expr, i: Expr) -> Expr {
    e(ExprKind::TupleGet(Box::new(t), Box::new(i)))
}

fn record(fs: Vec<(&str, Expr)>) -> Expr {
    let fs = fs.into_iter().map(|(k, v)| (String::from(k), v)).collect();
    e(ExprKind::Record(fs))
}

fn list_of(t: Type) -> Type {
    Type::List(Box::new(t))
}

fn func(ps: Vec<Type>, r: Type) -> Type {
    Type::Func(ps, Box::new(r))
}

fn existential(v: u64, b: Type) -> Type {
    Type::Exists(v, Box::new(b))
}

// (lambda ((x : int)) : bool (= x x))
fn int_predicate() -> Expr {
    lambda(
        vec![("x", Type::Int)],
        Type::Bool,
        bin(BinOp::EqualTo, id("x"), id("x")),
    )
}

#[test]
fn existential_equality_is_structural() {
    let a = existential(0, func(vec![Type::TypeVar(0)], Type::Bool));
    let b = existential(0, func(vec![Type::TypeVar(0)], Type::Bool));
    assert!(types_equal(&a, &a));
    assert!(types_equal(&a, &b));
    assert_eq!(a, b);
    let other_id = existential(1, func(vec![Type::TypeVar(0)], Type::Bool));
    let other_body = existential(0, func(vec![Type::TypeVar(0)], Type::Int));
    assert!(!types_equal(&a, &other_id));
    assert!(!types_equal(&a, &other_body));
    let r1 = Type::Record(vec![(String::from("a"), Type::Int)]);
    let r2 = Type::Record(vec![(String::from("b"), Type::Int)]);
    assert_ne!(r1, r2);
}

#[test]
fn substitution_without_occurrence_is_identity() {
    let t = func(vec![Type::Int, list_of(Type::Str)], Type::TypeVar(2));
    assert_eq!(t.subst(3, &Type::Bool), t);
    assert_eq!(
        t.subst(2, &Type::Bool),
        func(vec![Type::Int, list_of(Type::Str)], Type::Bool)
    );
}

#[test]
fn substitution_stops_at_a_rebinding_existential() {
    let t = existential(4, existential(4, Type::TypeVar(4)));
    assert_eq!(t.subst(4, &Type::Int), t);
    let inner = existential(4, Type::TypeVar(4));
    let outer = func(vec![Type::TypeVar(4)], existential(4, Type::TypeVar(4)));
    assert_eq!(outer.subst(4, &Type::Int), func(vec![Type::Int], inner));
    assert!(!t.mentions_free(4));
    assert!(outer.mentions_free(4));
}

#[test]
fn newer_binding_shadows_older() {
    let base: TypeEnv = TypeEnv::new();
    let one = base.add_binding((String::from("x"), Type::Int));
    let two = one.add_binding((String::from("x"), Type::Bool));
    assert_eq!(two.find("x"), Some(&Type::Bool));
    assert_eq!(one.find("x"), Some(&Type::Int));
    assert_eq!(base.find("x"), None);
    let batch = base.add_bindings(vec![
        (String::from("y"), Type::Int),
        (String::from("y"), Type::Str),
    ]);
    assert_eq!(batch.find("y"), Some(&Type::Str));
}

#[test]
fn let_bindings_cannot_see_each_other() {
    let exp = let_(vec![("x", num(1)), ("y", id("x"))], id("y"));
    match check_top(&exp) {
        Err(TypeError::UnboundVariable(x)) => assert_eq!(x, "x"),
        other => panic!("unexpected {:?}", other),
    }
    let exp = let_(
        vec![("x", num(1)), ("y", num(2))],
        bin(BinOp::Add, id("x"), id("y")),
    );
    assert_eq!(check_top(&exp).unwrap(), Type::Int);
}

#[test]
fn pack_hides_the_witness() {
    let base = func(vec![Type::TypeVar(0)], Type::Bool);
    let packed = e(ExprKind::Pack(
        Box::new(int_predicate()),
        Type::Int,
        existential(0, func(vec![Type::TypeVar(0)], Type::Bool)),
    ));
    assert_eq!(check_top(&packed).unwrap(), existential(0, base));
}

#[test]
fn unpack_keeps_the_variable_abstract() {
    let pack = || {
        e(ExprKind::Pack(
            Box::new(int_predicate()),
            Type::Int,
            existential(0, func(vec![Type::TypeVar(0)], Type::Bool)),
        ))
    };
    let ok = e(ExprKind::Unpack(String::from("f"), Box::new(pack()), 5, Box::new(num(1))));
    assert_eq!(check_top(&ok).unwrap(), Type::Int);
    let escaping = e(ExprKind::Unpack(String::from("f"), Box::new(pack()), 5, Box::new(id("f"))));
    assert!(matches!(check_top(&escaping), Err(TypeError::EscapingTypeVariable)));
    let misuse = e(ExprKind::Unpack(
        String::from("f"),
        Box::new(pack()),
        5,
        Box::new(app(id("f"), vec![num(1)])),
    ));
    assert!(matches!(check_top(&misuse), Err(TypeError::ArgTypeMismatch(0))));
    let not_package = e(ExprKind::Unpack(String::from("f"), Box::new(num(1)), 5, Box::new(num(1))));
    assert!(matches!(check_top(&not_package), Err(TypeError::NotAnExistential)));
}

#[test]
fn pack_errors() {
    let not_existential = e(ExprKind::Pack(Box::new(num(1)), Type::Int, Type::Int));
    assert!(matches!(check_top(&not_existential), Err(TypeError::NotAnExistential)));
    let wrong = e(ExprKind::Pack(
        Box::new(num(1)),
        Type::Bool,
        existential(0, Type::TypeVar(0)),
    ));
    assert!(matches!(check_top(&wrong), Err(TypeError::ExistentialPackMismatch)));
}

#[test]
fn arity_and_index_boundaries() {
    let f = lambda(vec![("x", Type::Int)], Type::Int, id("x"));
    assert!(matches!(check_top(&app(f, vec![])), Err(TypeError::ArityMismatch)));
    let pair = || tuple(vec![num(1), string("a")], vec![Type::Int, Type::Str]);
    assert!(matches!(
        check_top(&tuple_get(pair(), num(-1))),
        Err(TypeError::IndexOutOfBounds)
    ));
    assert!(matches!(
        check_top(&tuple_get(pair(), num(2))),
        Err(TypeError::IndexOutOfBounds)
    ));
    assert!(matches!(
        check_top(&tuple_get(pair(), bin(BinOp::Add, num(0), num(1)))),
        Err(TypeError::NotAConstantIndex)
    ));
    assert_eq!(check_top(&tuple_get(pair(), num(1))).unwrap(), Type::Str);
    assert!(matches!(
        check_top(&tuple(vec![num(1)], vec![])),
        Err(TypeError::ArityMismatch)
    ));
    assert!(matches!(
        check_top(&tuple(vec![num(1), num(2)], vec![Type::Int, Type::Bool])),
        Err(TypeError::TupleElementMismatch(1))
    ));
    assert!(matches!(
        check_top(&tuple_get(num(1), num(0))),
        Err(TypeError::NotATuple)
    ));
}

#[test]
fn end_to_end_scenarios() {
    // (+ 1 2)
    assert_eq!(check_top(&bin(BinOp::Add, num(1), num(2))).unwrap(), Type::Int);
    // (if (= 1 1) 3 4)
    let exp = if_(bin(BinOp::EqualTo, num(1), num(1)), num(3), num(4));
    assert_eq!(check_top(&exp).unwrap(), Type::Int);
    // (if 1 2 3)
    let exp = if_(num(1), num(2), num(3));
    assert!(matches!(check_top(&exp), Err(TypeError::NotABoolean)));
    // (let ((x 5)) (+ x 1))
    let exp = let_(vec![("x", num(5))], bin(BinOp::Add, id("x"), num(1)));
    assert_eq!(check_top(&exp).unwrap(), Type::Int);
    // (lambda ((x : int)) : int (+ x 1))
    let exp = lambda(vec![("x", Type::Int)], Type::Int, bin(BinOp::Add, id("x"), num(1)));
    assert_eq!(check_top(&exp).unwrap(), func(vec![Type::Int], Type::Int));
    // (car (null int))
    let exp = e(ExprKind::Car(Box::new(e(ExprKind::Null(Type::Int)))));
    assert_eq!(check_top(&exp).unwrap(), Type::Int);
}

#[test]
fn operator_mismatch_names_the_types() {
    match check_top(&bin(BinOp::Add, num(1), boolean(true))) {
        Err(TypeError::TypeMismatch { expected, found, context }) => {
            assert_eq!(expected, Type::Int);
            assert_eq!(found, Type::Bool);
            assert_eq!(context, BinOp::Add);
        },
        other => panic!("unexpected {:?}", other),
    }
    match check_top(&bin(BinOp::EqualTo, num(1), string("a"))) {
        Err(TypeError::TypeMismatch { expected, found, .. }) => {
            assert_eq!(expected, Type::Int);
            assert_eq!(found, Type::Str);
        },
        other => panic!("unexpected {:?}", other),
    }
    assert_eq!(
        check_top(&bin(BinOp::Concat, string("a"), string("b"))).unwrap(),
        Type::Str
    );
    assert_eq!(check_top(&bin(BinOp::LessThan, num(1), num(2))).unwrap(), Type::Bool);
    assert_eq!(
        check_top(&bin(BinOp::And, boolean(true), boolean(false))).unwrap(),
        Type::Bool
    );
    assert!(matches!(
        check_top(&bin(BinOp::Or, boolean(true), num(1))),
        Err(TypeError::TypeMismatch { context: BinOp::Or, .. })
    ));
}

#[test]
fn other_errors() {
    assert!(matches!(
        check_top(&if_(boolean(true), num(1), string("a"))),
        Err(TypeError::BranchTypeMismatch)
    ));
    assert!(matches!(
        check_top(&lambda(vec![], Type::Bool, num(1))),
        Err(TypeError::ReturnTypeMismatch)
    ));
    assert!(matches!(
        check_top(&app(num(1), vec![])),
        Err(TypeError::NotAFunction)
    ));
    assert!(matches!(
        check_top(&app(int_predicate(), vec![string("a")])),
        Err(TypeError::ArgTypeMismatch(0))
    ));
    assert!(matches!(
        check_top(&e(ExprKind::Begin(vec![]))),
        Err(TypeError::EmptyBegin)
    ));
    assert!(matches!(
        check_top(&e(ExprKind::Car(Box::new(num(1))))),
        Err(TypeError::NotAList)
    ));
    let cons = e(ExprKind::Cons(Box::new(num(1)), Box::new(e(ExprKind::Null(Type::Bool)))));
    assert!(matches!(check_top(&cons), Err(TypeError::ListElementMismatch)));
    let dup = record(vec![("a", num(1)), ("b", num(2)), ("a", num(3))]);
    match check_top(&dup) {
        Err(TypeError::DuplicateField(x)) => assert_eq!(x, "a"),
        other => panic!("unexpected {:?}", other),
    }
    let get = e(ExprKind::RecordGet(Box::new(record(vec![("a", num(1))])), String::from("z")));
    match check_top(&get) {
        Err(TypeError::UnknownField(x)) => assert_eq!(x, "z"),
        other => panic!("unexpected {:?}", other),
    }
    let get = e(ExprKind::RecordGet(Box::new(num(1)), String::from("a")));
    assert!(matches!(check_top(&get), Err(TypeError::NotARecord)));
    match check_top(&id("nowhere")) {
        Err(TypeError::UnboundVariable(x)) => assert_eq!(x, "nowhere"),
        other => panic!("unexpected {:?}", other),
    }
}

#[test]
fn sequencing_assignment_and_lists() {
    let env: TypeEnv = TypeEnv::new().add_binding((String::from("x"), Type::Int));
    let set = e(ExprKind::Assign(String::from("x"), Box::new(num(3))));
    assert_eq!(check(&set, &env).unwrap(), Type::Int);
    let bad = e(ExprKind::Assign(String::from("x"), Box::new(boolean(true))));
    assert!(matches!(check(&bad, &env), Err(TypeError::AssignTypeMismatch)));
    let begin = e(ExprKind::Begin(vec![num(1), string("s")]));
    assert_eq!(check(&begin, &env).unwrap(), Type::Str);
    let cons = e(ExprKind::Cons(Box::new(num(1)), Box::new(e(ExprKind::Null(Type::Int)))));
    assert_eq!(check_top(&cons).unwrap(), list_of(Type::Int));
    let cdr = e(ExprKind::Cdr(Box::new(e(ExprKind::Null(Type::Str)))));
    assert_eq!(check_top(&cdr).unwrap(), list_of(Type::Str));
    let is_null = e(ExprKind::IsNull(Box::new(e(ExprKind::Null(Type::Str)))));
    assert_eq!(check_top(&is_null).unwrap(), Type::Bool);
}

#[test]
fn records_keep_declaration_order() {
    let r = record(vec![("b", num(1)), ("a", string("s"))]);
    assert_eq!(
        check_top(&r).unwrap(),
        Type::Record(vec![(String::from("b"), Type::Int), (String::from("a"), Type::Str)])
    );
    let get = e(ExprKind::RecordGet(Box::new(r), String::from("a")));
    assert_eq!(check_top(&get).unwrap(), Type::Str);
}

#[test]
fn program_declarations_see_each_other() {
    // (define (even? (n : int)) : bool (if (= n 0) true (odd? (- n 1))))
    // (define (odd? (n : int)) : bool (if (= n 0) false (even? (- n 1))))
    let body = |other: &str, base: bool| {
        if_(
            bin(BinOp::EqualTo, id("n"), num(0)),
            boolean(base),
            app(id(other), vec![bin(BinOp::Subtract, id("n"), num(1))]),
        )
    };
    let decl = |name: &str, other: &str, base: bool| FnDecl {
        name: String::from(name),
        params: vec![(String::from("n"), Type::Int)],
        ret: Type::Bool,
        body: body(other, base),
    };
    let prog = Prog {
        fns: vec![decl("even?", "odd?", true), decl("odd?", "even?", false)],
        exp: app(id("even?"), vec![num(10)]),
    };
    assert_eq!(check_program(&prog).unwrap(), Type::Bool);
    let bad = Prog {
        fns: vec![FnDecl {
            name: String::from("f"),
            params: vec![],
            ret: Type::Int,
            body: boolean(true),
        }],
        exp: num(1),
    };
    assert!(matches!(check_program(&bad), Err(TypeError::ReturnTypeMismatch)));
}
