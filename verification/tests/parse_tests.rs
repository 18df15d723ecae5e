use case_expand::errors::ExpandError;
use case_expand::fixture::{
    ArgumentValue, Attribute, Fixture, FixtureData, FixtureInfo, FixtureItem, FixtureModifiers,
};

fn s(v: &str) -> String {
    v.to_string()
}

fn ss(vs: &[&str]) -> Vec<String> {
    vs.iter().map(|v| v.to_string()).collect()
}

fn fixture(name: &str, positional: &[&str]) -> FixtureItem {
    FixtureItem::Fixture(Fixture::new(s(name), ss(positional)))
}

fn arg_value(name: &str, expr: &str) -> FixtureItem {
    FixtureItem::ArgumentValue(ArgumentValue::new(s(name), s(expr)))
}

fn info(items: Vec<FixtureItem>, attributes: Vec<Attribute>) -> FixtureInfo {
    FixtureInfo {
        data: FixtureData { items },
        attributes: FixtureModifiers { attributes },
    }
}

#[test]
fn happy_path() {
    let data = FixtureInfo::parse(
        r#"my_fixture(42, "other"), other(vec![42]), value=42, other_value=vec![1.0]
                    :: trace :: no_trace(some)"#,
    )
    .unwrap();

    let expected = info(
        vec![
            fixture("my_fixture", &["42", r#""other""#]),
            fixture("other", &["vec![42]"]),
            arg_value("value", "42"),
            arg_value("other_value", "vec![1.0]"),
        ],
        vec![
            Attribute::Attr(s("trace")),
            Attribute::Tagged(s("no_trace"), ss(&["some"])),
        ],
    );

    assert_eq!(expected, data);
}

#[test]
fn some_literals() {
    let args_expressions: Vec<&str> = vec![
        "42",
        "42isize",
        "1.0",
        "-1",
        "-1.0",
        "true",
        "1_000_000u64",
        "0b10100101u8",
        r#""42""#,
        "b'B'",
    ];
    let body = format!("my_fixture({})", args_expressions.join(", "));
    let parsed = FixtureInfo::parse(&body).unwrap();
    let args = parsed.data.fixtures()[0].positional.clone();

    assert_eq!(ss(&args_expressions), args);
}

#[test]
fn empty_fixtures() {
    let data = FixtureInfo::parse(r#"::trace::no_trace(some)"#).unwrap();

    let expected = info(
        vec![],
        vec![
            Attribute::Attr(s("trace")),
            Attribute::Tagged(s("no_trace"), ss(&["some"])),
        ],
    );

    assert_eq!(expected, data);
}

#[test]
fn empty_attributes() {
    let data = FixtureInfo::parse(r#"my_fixture(42, "other")"#).unwrap();

    let expected = info(vec![fixture("my_fixture", &["42", r#""other""#])], vec![]);

    assert_eq!(expected, data);
}

#[test]
fn empty_input_is_empty_parse() {
    let data = FixtureInfo::parse("").unwrap();
    assert_eq!(info(vec![], vec![]), data);
}

#[test]
fn trailing_comma_single_fixture() {
    let parsed = FixtureInfo::parse("first(42),").unwrap();
    assert_eq!(
        1,
        parsed.data.fixtures().len() + parsed.data.values().len()
    );
}

#[test]
fn trailing_comma_fixture_and_value() {
    let parsed = FixtureInfo::parse("first(42), second=42,").unwrap();
    assert_eq!(
        2,
        parsed.data.fixtures().len() + parsed.data.values().len()
    );
}

#[test]
fn trailing_comma_before_modifiers() {
    let parsed = FixtureInfo::parse(r#"fixture(42, "other"), :: trace"#).unwrap();
    assert_eq!(
        1,
        parsed.data.fixtures().len() + parsed.data.values().len()
    );
}

#[test]
fn trailing_comma_value_then_fixture_before_modifiers() {
    let parsed = FixtureInfo::parse(r#"second=42, fixture(42, "other"), :: trace"#).unwrap();
    assert_eq!(
        2,
        parsed.data.fixtures().len() + parsed.data.values().len()
    );
}

#[test]
fn unclosed_call_is_structural_error() {
    let errors = FixtureInfo::parse("my_fixture(42").unwrap_err();
    assert_eq!(1, errors.len());
    assert!(matches!(
        &errors[0],
        ExpandError::MalformedAnnotationExpression(_)
    ));
}

#[test]
fn malformed_expressions_fail_their_item_only() {
    let errors = FixtureInfo::parse("good(1), bad(use), value=2, worse=use").unwrap_err();
    assert_eq!(2, errors.len());
    match &errors[0] {
        ExpandError::MalformedAnnotationExpression(text) => assert_eq!("use", text),
        other => panic!("unexpected error {:?}", other),
    }
    match &errors[1] {
        ExpandError::MalformedAnnotationExpression(text) => assert_eq!("use", text),
        other => panic!("unexpected error {:?}", other),
    }
}

#[test]
fn fixtures_and_values_are_ordered_projections() {
    let parsed = FixtureInfo::parse("a(1), x=2, b(3), y=4").unwrap();
    let fixtures = parsed.data.fixtures();
    let values = parsed.data.values();
    assert_eq!(2, fixtures.len());
    assert_eq!("a", fixtures[0].name);
    assert_eq!("b", fixtures[1].name);
    assert_eq!(2, values.len());
    assert_eq!("x", values[0].name);
    assert_eq!("y", values[1].name);
    assert_eq!("4", values[1].expr);
}

#[test]
fn paths_allowed_inside_call_arguments() {
    let parsed = FixtureInfo::parse("make(Vec::new(), 1)").unwrap();
    let fixtures = parsed.data.fixtures();
    assert_eq!(vec![s("Vec::new()"), s("1")], fixtures[0].positional);
}

#[test]
fn extract_default_type_finds_declared_type() {
    let mods = FixtureModifiers {
        attributes: vec![
            Attribute::Attr(s("trace")),
            Attribute::Type(s("default"), s("impl Iterator<Item=u32>")),
        ],
    };
    assert_eq!(
        Some(s("impl Iterator<Item=u32>")),
        mods.extract_default_type()
    );
    assert_eq!(None, mods.extract_partial_type(1));
}

#[test]
fn extract_partial_type_uses_position() {
    let mods = FixtureModifiers {
        attributes: vec![
            Attribute::Type(s("partial_1"), s("u32")),
            Attribute::Type(s("partial_2"), s("i64")),
        ],
    };
    assert_eq!(Some(s("u32")), mods.extract_partial_type(1));
    assert_eq!(Some(s("i64")), mods.extract_partial_type(2));
    assert_eq!(None, mods.extract_default_type());
}
