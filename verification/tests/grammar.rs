use subxt_gen::types::RuntimeType;

fn parse(s: &str) -> RuntimeType {
    RuntimeType::from_str(s).expect("the grammar is total")
}

#[test]
fn parses_every_primitive() {
    for name in [
        "bool", "usize", "u8", "u16", "u32", "u64", "u128", "isize", "i8", "i16", "i32", "i64",
        "i128",
    ] {
        assert_eq!(parse(name), RuntimeType::Primitive(name.to_string()));
    }
}

#[test]
fn strips_scope_and_whitespace() {
    assert_eq!(parse("  bool "), RuntimeType::Primitive("bool".to_string()));
    assert_eq!(parse("T::u32"), RuntimeType::Primitive("u32".to_string()));
    assert_eq!(parse("T::Balance"), RuntimeType::Complex("Balance".to_string()));
    assert_eq!(parse("::Foo"), RuntimeType::Complex("Foo".to_string()));
}

#[test]
fn parses_nested_wrappers() {
    // Vec<Option<(u32,T::Hash)>> parses to the nested algebra value and
    // renders back to the very same string.
    let t = parse("Vec<Option<(u32,T::Hash)>>");
    let expected = RuntimeType::Vec(Box::new(RuntimeType::Option(Box::new(RuntimeType::Tuple(
        vec![
            RuntimeType::Primitive("u32".to_string()),
            RuntimeType::Complex("Hash".to_string()),
        ],
    )))));
    assert_eq!(t, expected);
    assert_eq!(t.render(), "Vec<Option<(u32,T::Hash)>>");
}

#[test]
fn strips_generic_parameters_from_named_types() {
    assert_eq!(parse("BalanceOf<T>"), RuntimeType::Complex("BalanceOf".to_string()));
    assert_eq!(parse("Vec"), RuntimeType::Complex("Vec".to_string()));
}

#[test]
fn empty_parentheses_are_the_zero_arity_tuple() {
    assert_eq!(parse("()"), RuntimeType::Tuple(vec![]));
    assert_eq!(parse("()").render(), "()");
}

#[test]
fn renders_each_constructor() {
    assert_eq!(RuntimeType::Primitive("u8".to_string()).render(), "u8");
    assert_eq!(RuntimeType::Complex("Hash".to_string()).render(), "T::Hash");
    assert_eq!(
        RuntimeType::Option(Box::new(RuntimeType::Primitive("u8".to_string()))).render(),
        "Option<u8>"
    );
    assert_eq!(
        RuntimeType::Vec(Box::new(RuntimeType::Complex("Moment".to_string()))).render(),
        "Vec<T::Moment>"
    );
    assert_eq!(
        RuntimeType::Tuple(vec![
            RuntimeType::Primitive("u8".to_string()),
            RuntimeType::Primitive("u16".to_string()),
        ])
        .render(),
        "(u8,u16)"
    );
}

#[test]
fn round_trips_a_sample_of_values() {
    let samples = vec![
        RuntimeType::Primitive("u128".to_string()),
        RuntimeType::Complex("AccountData".to_string()),
        RuntimeType::Option(Box::new(RuntimeType::Vec(Box::new(RuntimeType::Complex(
            "Hash".to_string(),
        ))))),
        RuntimeType::Tuple(vec![]),
        RuntimeType::Tuple(vec![RuntimeType::Tuple(vec![])]),
        RuntimeType::Tuple(vec![
            RuntimeType::Complex("AccountId".to_string()),
            RuntimeType::Vec(Box::new(RuntimeType::Option(Box::new(
                RuntimeType::Primitive("bool".to_string()),
            )))),
        ]),
    ];
    for t in samples {
        assert_eq!(parse(&t.render()), t);
    }
}

#[test]
fn flatten_complex_collects_named_types() {
    // A scalar references nothing.
    let flat = RuntimeType::Primitive("u32".to_string()).flatten_complex();
    assert!(flat.is_empty());

    // A tuple of a named type and a wrapped named type references both.
    let t = RuntimeType::Tuple(vec![
        RuntimeType::Complex("Foo".to_string()),
        RuntimeType::Vec(Box::new(RuntimeType::Option(Box::new(RuntimeType::Complex(
            "Bar".to_string(),
        ))))),
    ]);
    let mut flat = t.flatten_complex();
    flat.sort();
    assert_eq!(flat, vec!["Bar".to_string(), "Foo".to_string()]);
}

#[test]
fn option_parse_uses_the_last_closing_bracket() {
    let t = parse("Option<Vec<u8>>");
    assert_eq!(
        t,
        RuntimeType::Option(Box::new(RuntimeType::Vec(Box::new(RuntimeType::Primitive(
            "u8".to_string()
        )))))
    );
}
