use case_expand::errors::ExpandError;
use case_expand::fixture::{
    ArgumentValue, Fixture, FixtureData, FixtureInfo, FixtureItem, FixtureModifiers,
};
use case_expand::resolve::{Param, RawAttr};

fn s(v: &str) -> String {
    v.to_string()
}

fn ss(vs: &[&str]) -> Vec<String> {
    vs.iter().map(|v| v.to_string()).collect()
}

fn fixture(name: &str, positional: &[&str]) -> FixtureItem {
    FixtureItem::Fixture(Fixture::new(s(name), ss(positional)))
}

fn arg_value(name: &str, expr: &str) -> FixtureItem {
    FixtureItem::ArgumentValue(ArgumentValue::new(s(name), s(expr)))
}

fn param(name: &str, attrs: Vec<RawAttr>) -> Param {
    Param { name: s(name), attrs }
}

fn raw(name: &str, tokens: &str) -> RawAttr {
    RawAttr { name: s(name), tokens: s(tokens) }
}

fn expected_info(items: Vec<FixtureItem>) -> FixtureInfo {
    FixtureInfo {
        data: FixtureData { items },
        attributes: FixtureModifiers { attributes: vec![] },
    }
}

#[test]
fn use_with_attributes() {
    let mut params = vec![
        param("f1", vec![raw("with", "(2)")]),
        param("f2", vec![raw("with", r#"(vec![1,2], "s")"#)]),
    ];
    let mut info = FixtureInfo::empty();

    info.extend(&mut params).unwrap();

    let expected = expected_info(vec![
        fixture("f1", &["2"]),
        fixture("f2", &["vec![1,2]", r#""s""#]),
    ]);

    assert!(params.iter().all(|p| p.attrs.is_empty()));
    assert_eq!(expected, info);
}

#[test]
fn use_default_attributes() {
    let mut params = vec![
        param("f1", vec![raw("default", "= 2")]),
        param("f2", vec![raw("default", r#"= (vec![1,2], "s")"#)]),
    ];
    let mut info = FixtureInfo::empty();

    info.extend(&mut params).unwrap();

    let expected = expected_info(vec![
        arg_value("f1", "2"),
        arg_value("f2", r#"(vec![1,2], "s")"#),
    ]);

    assert!(params.iter().all(|p| p.attrs.is_empty()));
    assert_eq!(expected, info);
}

#[test]
fn raise_error_for_invalid_expressions() {
    let mut params = vec![
        param("f1", vec![raw("with", "(valid)")]),
        param("f2", vec![raw("with", "(with(,.,))")]),
        param("f3", vec![raw("with", "(with(use))")]),
    ];

    let errors = FixtureInfo::empty().extend(&mut params).unwrap_err();

    assert_eq!(2, errors.len());
}

#[test]
fn two_parameters_two_errors() {
    let mut params = vec![
        param("f1", vec![raw("with", "(use)")]),
        param("f2", vec![raw("default", "= use")]),
    ];

    let errors = FixtureInfo::empty().extend(&mut params).unwrap_err();

    assert_eq!(2, errors.len());
    assert!(errors
        .iter()
        .all(|e| matches!(e, ExpandError::MalformedAnnotationExpression(_))));
}

#[test]
fn unrelated_attributes_stay_on_the_parameter() {
    let mut params = vec![param(
        "f1",
        vec![
            raw("cfg", "(test)"),
            raw("with", "(1)"),
            raw("allow", "(unused)"),
        ],
    )];
    let mut info = FixtureInfo::empty();

    info.extend(&mut params).unwrap();

    assert_eq!(2, params[0].attrs.len());
    assert_eq!("cfg", params[0].attrs[0].name);
    assert_eq!("allow", params[0].attrs[1].name);
    assert_eq!(expected_info(vec![fixture("f1", &["1"])]), info);
}

#[test]
fn bindings_come_before_overrides_per_parameter() {
    let mut params = vec![param(
        "f1",
        vec![raw("default", "= 7"), raw("with", "(1)")],
    )];
    let mut info = FixtureInfo::empty();

    info.extend(&mut params).unwrap();

    let expected = expected_info(vec![fixture("f1", &["1"]), arg_value("f1", "7")]);
    assert_eq!(expected, info);
}

#[test]
fn failures_do_not_stop_other_parameters() {
    let mut params = vec![
        param("f1", vec![raw("with", "(use)")]),
        param("f2", vec![raw("with", "(2)")]),
    ];
    let mut info = FixtureInfo::empty();

    let errors = info.extend(&mut params).unwrap_err();

    assert_eq!(1, errors.len());
    assert_eq!(expected_info(vec![fixture("f2", &["2"])]), info);
}

#[test]
fn extend_appends_after_parsed_items() {
    let mut info = FixtureInfo::parse("value=1").unwrap();
    let mut params = vec![param("f1", vec![raw("with", "(2)")])];

    info.extend(&mut params).unwrap();

    let expected = expected_info(vec![arg_value("value", "1"), fixture("f1", &["2"])]);
    assert_eq!(expected, info);
}
