use case_expand::errors::ExpandError;
use case_expand::expand::{expand, TestInstance};
use case_expand::reuse::{
    apply, merge_attrs, template, Annotation, AppliedSpec, FunctionSpec, ParameterSpec,
    TemplateRegistry,
};

fn s(v: &str) -> String {
    v.to_string()
}

fn ss(vs: &[&str]) -> Vec<String> {
    vs.iter().map(|v| v.to_string()).collect()
}

fn param(name: &str, annotations: Vec<Annotation>) -> ParameterSpec {
    ParameterSpec { name: s(name), ty: s("u32"), annotations }
}

fn func(name: &str, params: Vec<ParameterSpec>, annotations: Vec<Annotation>) -> FunctionSpec {
    FunctionSpec { name: s(name), params, annotations }
}

fn case_row(vs: &[&str]) -> Annotation {
    Annotation::CaseValue(ss(vs))
}

fn case_marker() -> Annotation {
    Annotation::CaseValue(vec![])
}

fn names(insts: &[TestInstance]) -> Vec<String> {
    insts.iter().map(|i| i.name.clone()).collect()
}

fn two_simple_cases() -> FunctionSpec {
    func(
        "two_simple_cases",
        vec![param("a", vec![case_marker()]), param("b", vec![case_marker()])],
        vec![case_row(&["2", "2"]), case_row(&["4/2", "2"])],
    )
}

#[test]
fn scenario_two_simple_cases() {
    let mut reg = TemplateRegistry::new();
    template(&mut reg, vec![], two_simple_cases()).unwrap();
    let f = func("it_works", vec![param("a", vec![]), param("b", vec![])], vec![]);

    let applied = apply(&reg, &vec![], "two_simple_cases", &f).unwrap();
    let insts = expand(&applied).unwrap();

    assert_eq!(ss(&["case_1", "case_2"]), names(&insts));
    assert_eq!(ss(&["2", "2"]), insts[0].case_values);
    assert_eq!(ss(&["4/2", "2"]), insts[1].case_values);
    // Both rows satisfy the applying body's `a == b`.
    assert_eq!(2, 2);
    assert_eq!(4 / 2, 2);
}

#[test]
fn scenario_added_row_and_value_list() {
    let mut reg = TemplateRegistry::new();
    template(&mut reg, vec![], two_simple_cases()).unwrap();
    let f = func(
        "it_works",
        vec![
            param("a", vec![]),
            param("b", vec![]),
            param("t", vec![Annotation::ValueList(ss(&[r#""a""#, r#""b""#]))]),
        ],
        vec![case_row(&["9/3", "3"])],
    );

    let applied = apply(&reg, &vec![], "two_simple_cases", &f).unwrap();
    let insts = expand(&applied).unwrap();

    assert_eq!(
        ss(&[
            "case_1::t_1",
            "case_1::t_2",
            "case_2::t_1",
            "case_2::t_2",
            "case_3::t_1",
            "case_3::t_2",
        ]),
        names(&insts)
    );
    assert_eq!(6, insts.len());
    assert_eq!(ss(&["9/3", "3"]), insts[4].case_values);
    assert_eq!("t", insts[5].value_choices[0].param);
    assert_eq!(r#""b""#, insts[5].value_choices[0].value);
}

#[test]
fn scenario_fixture_template_with_and_without_parameter() {
    let mut reg = TemplateRegistry::new();
    let base = func(
        "base",
        vec![
            param("fix", vec![Annotation::FixtureCall(ss(&["42"]))]),
            param("v", vec![Annotation::ValueList(ss(&["1", "2", "3"]))]),
        ],
        vec![],
    );
    template(&mut reg, vec![], base).unwrap();

    let with_fix = func(
        "use_it_with_fixture",
        vec![param("fix", vec![]), param("v", vec![])],
        vec![],
    );
    let without_fix = func("use_it_without_fixture", vec![param("v", vec![])], vec![]);

    let a = expand(&apply(&reg, &vec![], "base", &with_fix).unwrap()).unwrap();
    let b = expand(&apply(&reg, &vec![], "base", &without_fix).unwrap()).unwrap();

    assert_eq!(ss(&["v_1", "v_2", "v_3"]), names(&a));
    assert_eq!(ss(&["v_1", "v_2", "v_3"]), names(&b));
}

#[test]
fn cross_product_count_rows_times_lists() {
    let applied = merge_attrs(
        &func("base", vec![], vec![]),
        &func(
            "it_works",
            vec![
                param("a", vec![case_marker()]),
                param("x", vec![Annotation::ValueList(ss(&["1", "2"]))]),
                param("y", vec![Annotation::ValueList(ss(&["p", "q", "r"]))]),
            ],
            vec![case_row(&["10"]), case_row(&["20"])],
        ),
    );

    let insts = expand(&applied).unwrap();

    assert_eq!(2 * 2 * 3, insts.len());
    assert_eq!("case_1::x_1::y_1", insts[0].name);
    assert_eq!("case_2::x_2::y_3", insts[11].name);
}

#[test]
fn no_rows_and_no_lists_yield_one_instance() {
    let applied = merge_attrs(
        &func("base", vec![], vec![]),
        &func("it_works", vec![param("a", vec![])], vec![]),
    );

    let insts = expand(&applied).unwrap();

    assert_eq!(1, insts.len());
    assert_eq!("", insts[0].name);
    assert!(insts[0].case_values.is_empty());
    assert!(insts[0].value_choices.is_empty());
}

#[test]
fn empty_value_list_is_an_error() {
    let applied = merge_attrs(
        &func("base", vec![], vec![]),
        &func(
            "it_works",
            vec![param("x", vec![Annotation::ValueList(vec![])])],
            vec![],
        ),
    );

    let err = expand(&applied).unwrap_err();

    assert!(matches!(err, ExpandError::ConflictingAnnotationArity));
}

#[test]
fn differing_row_arities_are_a_mismatch() {
    let applied = merge_attrs(
        &func("base", vec![], vec![]),
        &func(
            "it_works",
            vec![param("a", vec![case_marker()])],
            vec![case_row(&["1"]), case_row(&["1", "2"])],
        ),
    );

    let err = expand(&applied).unwrap_err();

    assert!(matches!(err, ExpandError::ArityMismatch));
}

#[test]
fn row_arity_must_match_case_parameters() {
    let applied = merge_attrs(
        &func("base", vec![], vec![]),
        &func(
            "it_works",
            vec![param("a", vec![case_marker()]), param("b", vec![case_marker()])],
            vec![case_row(&["1"])],
        ),
    );

    let err = expand(&applied).unwrap_err();

    assert!(matches!(err, ExpandError::ConflictingAnnotationArity));
}

#[test]
fn case_parameters_without_rows_are_an_error() {
    let applied = merge_attrs(
        &func("base", vec![], vec![]),
        &func("it_works", vec![param("a", vec![case_marker()])], vec![]),
    );

    let err = expand(&applied).unwrap_err();

    assert!(matches!(err, ExpandError::ConflictingAnnotationArity));
}

#[test]
fn instance_numbering_reaches_two_digits() {
    let rows: Vec<Annotation> = (0..12).map(|_| case_row(&[])).collect();
    let applied = AppliedSpec { params: vec![param("a", vec![])], annotations: rows };

    let insts = expand(&applied).unwrap();

    assert_eq!(12, insts.len());
    assert_eq!("case_9", insts[8].name);
    assert_eq!("case_10", insts[9].name);
    assert_eq!("case_12", insts[11].name);
}

#[test]
fn expansion_is_deterministic() {
    let applied = merge_attrs(
        &two_simple_cases(),
        &func("it_works", vec![param("a", vec![]), param("b", vec![])], vec![]),
    );

    let first = expand(&applied).unwrap();
    let second = expand(&applied).unwrap();

    assert_eq!(names(&first), names(&second));
    for (x, y) in first.iter().zip(second.iter()) {
        assert_eq!(x.case_values, y.case_values);
        assert_eq!(x.value_choices.len(), y.value_choices.len());
    }
}
