use typed_scheme::parser::parse_type;
use typed_scheme::sexpr::SExpr;
use typed_scheme::types::Type;

fn sym(s: &str) -> SExpr {
    SExpr::Symbol(String::from(s))
}

fn list(items: Vec<SExpr>) -> SExpr {
    SExpr::List(items)
}

#[test]
fn test_parse_type() {
    let exp = sym("int");
    assert_eq!(parse_type(&exp).unwrap(), Type::Int);

    let exp = sym("bool");
    assert_eq!(parse_type(&exp).unwrap(), Type::Bool);

    let exp = sym("string");
    assert_eq!(parse_type(&exp).unwrap(), Type::Str);

    let exp = sym("T0");
    assert_eq!(parse_type(&exp).unwrap(), Type::TypeVar(0));

    let exp = sym("T42");
    assert_eq!(parse_type(&exp).unwrap(), Type::TypeVar(42));

    // (list int)
    let exp = list(vec![sym("list"), sym("int")]);
    assert_eq!(parse_type(&exp).unwrap(), Type::List(Box::from(Type::Int)));

    // (list (list int))
    let exp = list(vec![sym("list"), list(vec![sym("list"), sym("int")])]);
    assert_eq!(
        parse_type(&exp).unwrap(),
        Type::List(Box::from(Type::List(Box::from(Type::Int))))
    );

    // (tuple)
    let exp = list(vec![sym("tuple")]);
    assert_eq!(parse_type(&exp).unwrap(), Type::Tuple(vec![]));

    // (tuple int)
    let exp = list(vec![sym("tuple"), sym("int")]);
    assert_eq!(parse_type(&exp).unwrap(), Type::Tuple(vec![Type::Int]));

    // (tuple int string)
    let exp = list(vec![sym("tuple"), sym("int"), sym("string")]);
    assert_eq!(
        parse_type(&exp).unwrap(),
        Type::Tuple(vec![Type::Int, Type::Str])
    );

    // (-> int)
    let exp = list(vec![sym("->"), sym("int")]);
    assert_eq!(
        parse_type(&exp).unwrap(),
        Type::Func(vec![], Box::from(Type::Int))
    );

    // (-> int int)
    let exp = list(vec![sym("->"), sym("int"), sym("int")]);
    assert_eq!(
        parse_type(&exp).unwrap(),
        Type::Func(vec![Type::Int], Box::from(Type::Int))
    );

    // (-> string int bool)
    let exp = list(vec![sym("->"), sym("string"), sym("int"), sym("bool")]);
    assert_eq!(
        parse_type(&exp).unwrap(),
        Type::Func(vec![Type::Str, Type::Int], Box::from(Type::Bool))
    );

    // (-> (-> int int bool) int int bool)
    let exp = list(vec![
        sym("->"),
        list(vec![sym("->"), sym("int"), sym("int"), sym("bool")]),
        sym("int"),
        sym("int"),
        sym("bool"),
    ]);
    assert_eq!(
        parse_type(&exp).unwrap(),
        Type::Func(
            vec![
                Type::Func(vec![Type::Int, Type::Int], Box::from(Type::Bool)),
                Type::Int,
                Type::Int
            ],
            Box::from(Type::Bool)
        )
    );

    // (exists T0 (-> T0 bool))
    let exp = list(vec![
        sym("exists"),
        sym("T0"),
        list(vec![sym("->"), sym("T0"), sym("bool")]),
    ]);
    assert_eq!(
        parse_type(&exp).unwrap(),
        Type::Exists(
            0,
            Box::from(Type::Func(vec![Type::TypeVar(0)], Box::from(Type::Bool)))
        )
    );
}

#[test]
fn parse_type_rejects_malformed_annotations() {
    assert!(parse_type(&sym("float")).is_err());
    assert!(parse_type(&sym("T")).is_err());
    assert!(parse_type(&sym("Tx")).is_err());
    assert!(parse_type(&sym("T18446744073709551616")).is_err());
    assert!(parse_type(&list(vec![])).is_err());
    assert!(parse_type(&list(vec![sym("->")])).is_err());
    assert!(parse_type(&list(vec![sym("list")])).is_err());
    assert!(parse_type(&list(vec![sym("list"), sym("int"), sym("int")])).is_err());
    assert!(parse_type(&list(vec![sym("exists"), sym("x"), sym("int")])).is_err());
    assert!(parse_type(&list(vec![sym("tuple"), sym("int"), sym("nope")])).is_err());
    assert!(parse_type(&SExpr::Number(3)).is_err());
}

#[test]
fn parse_type_reads_large_and_signed_variable_ids() {
    assert_eq!(
        parse_type(&sym("T18446744073709551615")).unwrap(),
        Type::TypeVar(u64::MAX)
    );
    assert_eq!(parse_type(&sym("T+7")).unwrap(), Type::TypeVar(7));
    assert_eq!(parse_type(&sym("unknown")).unwrap(), Type::Unknown);
}
