use typed_scheme::checker::check_top;
use typed_scheme::codegen::get_record_placeholder;
use typed_scheme::expr::{BinOp, ExprKind, TypeError};
use typed_scheme::reader::parse;
use typed_scheme::sexpr::SExpr;
use typed_scheme::types::Type;

fn sym(s: &str) -> SExpr {
    SExpr::Symbol(String::from(s))
}

fn list(items: Vec<SExpr>) -> SExpr {
    SExpr::List(items)
}

fn n(x: i64) -> SExpr {
    SExpr::Number(x)
}

#[test]
fn reads_and_checks_an_addition() {
    let e = parse(&list(vec![sym("+"), n(1), n(2)])).unwrap();
    match &e.kind {
        ExprKind::Binop(op, _, _) => assert_eq!(*op, BinOp::Add),
        other => panic!("unexpected {:?}", other),
    }
    assert_eq!(e.checked_type, Type::Unknown);
    assert_eq!(check_top(&e).unwrap(), Type::Int);
}

#[test]
fn reads_let_lambda_and_application() {
    // (let ((x 5)) (+ x 1))
    let exp = list(vec![
        sym("let"),
        list(vec![list(vec![sym("x"), n(5)])]),
        list(vec![sym("+"), sym("x"), n(1)]),
    ]);
    assert_eq!(check_top(&parse(&exp).unwrap()).unwrap(), Type::Int);
    // ((lambda ((x : int)) : bool (= x 0)) 3)
    let lam = list(vec![
        sym("lambda"),
        list(vec![list(vec![sym("x"), sym(":"), sym("int")])]),
        sym(":"),
        sym("bool"),
        list(vec![sym("="), sym("x"), n(0)]),
    ]);
    assert_eq!(
        check_top(&parse(&lam).unwrap()).unwrap(),
        Type::Func(vec![Type::Int], Box::new(Type::Bool))
    );
    let call = list(vec![lam, n(3)]);
    assert_eq!(check_top(&parse(&call).unwrap()).unwrap(), Type::Bool);
}

#[test]
fn reads_tuples_records_and_lists() {
    // (get-nth (make-tuple (1 "a") : (int string)) 1)
    let tup = list(vec![
        sym("make-tuple"),
        list(vec![n(1), SExpr::Str(String::from("a"))]),
        sym(":"),
        list(vec![sym("int"), sym("string")]),
    ]);
    let get = list(vec![sym("get-nth"), tup, n(1)]);
    assert_eq!(check_top(&parse(&get).unwrap()).unwrap(), Type::Str);
    // (env-ref (make-env (a 1) (b true)) b)
    let rec = list(vec![
        sym("make-env"),
        list(vec![sym("a"), n(1)]),
        list(vec![sym("b"), sym("true")]),
    ]);
    let field = list(vec![sym("env-ref"), rec, sym("b")]);
    assert_eq!(check_top(&parse(&field).unwrap()).unwrap(), Type::Bool);
    // (car (cons 1 (null int)))
    let l = list(vec![
        sym("car"),
        list(vec![sym("cons"), n(1), list(vec![sym("null"), sym("int")])]),
    ]);
    assert_eq!(check_top(&parse(&l).unwrap()).unwrap(), Type::Int);
    // (begin (set! x 1) (null? (null bool))) with x unbound
    let b = list(vec![
        sym("begin"),
        list(vec![sym("set!"), sym("x"), n(1)]),
        list(vec![sym("null?"), list(vec![sym("null"), sym("bool")])]),
    ]);
    assert!(matches!(
        check_top(&parse(&b).unwrap()),
        Err(TypeError::UnboundVariable(_))
    ));
}

#[test]
fn reads_pack() {
    // (pack (lambda ((x : int)) : bool (= x x)) int (exists T0 (-> T0 bool)))
    let lam = list(vec![
        sym("lambda"),
        list(vec![list(vec![sym("x"), sym(":"), sym("int")])]),
        sym(":"),
        sym("bool"),
        list(vec![sym("="), sym("x"), sym("x")]),
    ]);
    let ex = list(vec![sym("exists"), sym("T0"), list(vec![sym("->"), sym("T0"), sym("bool")])]);
    let p = list(vec![sym("pack"), lam, sym("int"), ex]);
    let t = check_top(&parse(&p).unwrap()).unwrap();
    assert_eq!(t.to_text(), "(exists T0 (-> T0 bool))");
}

#[test]
fn rejects_malformed_forms() {
    assert!(parse(&list(vec![])).is_err());
    assert!(parse(&list(vec![sym("if"), n(1)])).is_err());
    assert!(parse(&list(vec![sym("+"), n(1)])).is_err());
    assert!(parse(&list(vec![sym("let"), n(1), n(2)])).is_err());
    assert!(parse(&list(vec![sym("begin")])).is_err());
    assert!(parse(&list(vec![sym("null"), sym("nope")])).is_err());
    assert!(parse(&SExpr::Other).is_err());
}

#[test]
fn reads_atoms() {
    assert!(matches!(parse(&sym("true")).unwrap().kind, ExprKind::Bool(true)));
    assert!(matches!(parse(&sym("false")).unwrap().kind, ExprKind::Bool(false)));
    assert!(matches!(parse(&sym("y")).unwrap().kind, ExprKind::Id(ref x) if x == "y"));
    assert!(matches!(parse(&n(-4)).unwrap().kind, ExprKind::Num(-4)));
}

#[test]
fn types_render_in_annotation_syntax() {
    assert_eq!(Type::List(Box::new(Type::Int)).to_text(), "(list int)");
    let ex = Type::Exists(0, Box::new(Type::Func(vec![Type::TypeVar(0)], Box::new(Type::Bool))));
    assert_eq!(ex.to_text(), "(exists T0 (-> T0 bool))");
    assert_eq!(Type::Func(vec![], Box::new(Type::Int)).to_text(), "(-> int)");
    assert_eq!(Type::Tuple(vec![]).to_text(), "(tuple)");
    assert_eq!(
        Type::Tuple(vec![Type::Int, Type::Str]).to_text(),
        "(tuple int string)"
    );
    assert_eq!(
        Type::Record(vec![(String::from("a"), Type::Int)]).to_text(),
        "(record (a int))"
    );
    assert_eq!(Type::TypeVar(u64::MAX).to_text(), "T18446744073709551615");
    assert_eq!(Type::TypeVar(1234).to_text(), "T1234");
    assert_eq!(Type::Unknown.to_text(), "unknown");
}

#[test]
fn record_template_has_a_slot_per_field() {
    let names = vec![String::from("a"), String::from("bc")];
    assert_eq!(get_record_placeholder(&names), "(make-record (a {}) (bc {}))");
    assert_eq!(get_record_placeholder(&vec![]), "(make-record)");
}

#[test]
fn expressions_render_in_surface_syntax() {
    let exp = list(vec![
        sym("if"),
        list(vec![sym("="), n(1), n(1)]),
        n(3),
        n(-4),
    ]);
    assert_eq!(parse(&exp).unwrap().to_text(), "(if (= 1 1) 3 -4)");
    let lam = list(vec![
        sym("lambda"),
        list(vec![
            list(vec![sym("x"), sym(":"), sym("int")]),
            list(vec![sym("s"), sym(":"), sym("string")]),
        ]),
        sym(":"),
        sym("int"),
        list(vec![sym("f"), sym("x"), SExpr::Str(String::from("a"))]),
    ]);
    assert_eq!(
        parse(&lam).unwrap().to_text(),
        "(lambda ((x : int) (s : string)) : int (f x \"a\"))"
    );
    let l = list(vec![
        sym("let"),
        list(vec![list(vec![sym("x"), n(5)]), list(vec![sym("y"), sym("true")])]),
        list(vec![sym("begin"), sym("x"), sym("y")]),
    ]);
    assert_eq!(parse(&l).unwrap().to_text(), "(let ((x 5) (y true)) (begin x y))");
    let tup = list(vec![
        sym("make-tuple"),
        list(vec![n(1), n(2)]),
        sym(":"),
        list(vec![sym("int"), list(vec![sym("list"), sym("int")])]),
    ]);
    assert_eq!(
        parse(&tup).unwrap().to_text(),
        "(make-tuple (1 2) : (int (list int)))"
    );
    let rec = list(vec![sym("make-env"), list(vec![sym("a"), n(1)])]);
    assert_eq!(parse(&rec).unwrap().to_text(), "(make-env (a 1))");
    assert_eq!(parse(&n(i64::MIN)).unwrap().to_text(), "-9223372036854775808");
}

#[test]
fn operators_render_as_their_symbols() {
    assert_eq!(BinOp::Add.to_text(), "+");
    assert_eq!(BinOp::LessOrEqual.to_text(), "<=");
    assert_eq!(BinOp::Concat.to_text(), "concat");
    assert_eq!(BinOp::Or.to_text(), "or");
}
