use case_expand::errors::ExpandError;
use case_expand::reuse::{
    apply, get_export, is_should_panic, merge_arg_attributes, merge_attrs, resolve_template_arg,
    sanitize_should_panic_duplication_bug, template, Annotation, FunctionSpec, ParameterSpec,
    TemplateRegistry,
};

fn s(v: &str) -> String {
    v.to_string()
}

fn ss(vs: &[&str]) -> Vec<String> {
    vs.iter().map(|v| v.to_string()).collect()
}

fn param(name: &str, annotations: Vec<Annotation>) -> ParameterSpec {
    ParameterSpec { name: s(name), ty: s("u32"), annotations }
}

fn func(name: &str, params: Vec<ParameterSpec>, annotations: Vec<Annotation>) -> FunctionSpec {
    FunctionSpec { name: s(name), params, annotations }
}

fn case_row(vs: &[&str]) -> Annotation {
    Annotation::CaseValue(ss(vs))
}

#[test]
fn merge_attrs_puts_template_annotations_first() {
    let t = func("base", vec![], vec![case_row(&["1", "1"]), case_row(&["2", "2"])]);
    let f = func("it_works", vec![], vec![case_row(&["3", "3"])]);

    let applied = merge_attrs(&t, &f);

    assert_eq!(3, applied.annotations.len());
    assert!(matches!(&applied.annotations[0], Annotation::CaseValue(v) if v == &ss(&["1", "1"])));
    assert!(matches!(&applied.annotations[1], Annotation::CaseValue(v) if v == &ss(&["2", "2"])));
    assert!(matches!(&applied.annotations[2], Annotation::CaseValue(v) if v == &ss(&["3", "3"])));
}

#[test]
fn merge_attrs_keeps_repeated_case_rows() {
    let t = func("base", vec![], vec![case_row(&["1"])]);
    let f = func("it_works", vec![], vec![case_row(&["1"])]);

    let applied = merge_attrs(&t, &f);

    // Function-level rows are never de-duplicated: repetition means more
    // instances.
    assert_eq!(2, applied.annotations.len());
}

#[test]
fn parameter_merge_skips_structurally_equal_annotations() {
    let t = func(
        "base",
        vec![param(
            "a",
            vec![
                Annotation::ValueList(ss(&["1"])),
                Annotation::ValueList(ss(&["2"])),
            ],
        )],
        vec![],
    );
    let f = func(
        "it_works",
        vec![param("a", vec![Annotation::ValueList(ss(&["1"]))])],
        vec![],
    );

    let applied = merge_attrs(&t, &f);

    assert_eq!(2, applied.params[0].annotations.len());
    assert!(
        matches!(&applied.params[0].annotations[0], Annotation::ValueList(v) if v == &ss(&["1"]))
    );
    assert!(
        matches!(&applied.params[0].annotations[1], Annotation::ValueList(v) if v == &ss(&["2"]))
    );
}

#[test]
fn extra_parameters_pass_through_untouched() {
    let t = func("base", vec![param("a", vec![case_row(&[])])], vec![]);
    let f = func(
        "it_works",
        vec![param("a", vec![]), param("extra", vec![])],
        vec![],
    );

    let applied = merge_attrs(&t, &f);

    assert_eq!(2, applied.params.len());
    assert_eq!(1, applied.params[0].annotations.len());
    assert_eq!(0, applied.params[1].annotations.len());
}

#[test]
fn template_only_parameters_are_dropped() {
    let t = func(
        "base",
        vec![param("a", vec![case_row(&[])]), param("b", vec![case_row(&[])])],
        vec![],
    );
    let f = func("it_works", vec![param("a", vec![])], vec![]);

    let applied = merge_attrs(&t, &f);

    assert_eq!(1, applied.params.len());
    assert_eq!("a", applied.params[0].name);
}

#[test]
fn ignore_prefix_resolves_against_template_name() {
    let tpl_params = vec![param("b", vec![])];
    assert_eq!(Some(0), resolve_template_arg(&tpl_params, "_b"));
    assert_eq!(Some(0), resolve_template_arg(&tpl_params, "b"));
    assert_eq!(None, resolve_template_arg(&tpl_params, "_c"));
}

#[test]
fn ignored_parameter_receives_template_annotations() {
    let t = func("base", vec![param("b", vec![case_row(&[])])], vec![]);
    let f = func("it_works", vec![param("_b", vec![])], vec![]);

    let applied = merge_attrs(&t, &f);

    assert_eq!("_b", applied.params[0].name);
    assert_eq!(1, applied.params[0].annotations.len());
}

#[test]
fn apply_is_deterministic() {
    let mut reg = TemplateRegistry::new();
    let t = func(
        "base",
        vec![param("a", vec![Annotation::ValueList(ss(&["1", "2"]))])],
        vec![case_row(&["5"])],
    );
    template(&mut reg, vec![], t).unwrap();
    let f = func("it_works", vec![param("a", vec![])], vec![]);

    let once = apply(&reg, &vec![], "base", &f).unwrap();
    let twice = apply(&reg, &vec![], "base", &f).unwrap();

    assert_eq!(once.params.len(), twice.params.len());
    assert_eq!(once.annotations.len(), twice.annotations.len());
    for (p, q) in once.params.iter().zip(twice.params.iter()) {
        assert_eq!(p.name, q.name);
        assert_eq!(p.annotations.len(), q.annotations.len());
        for (x, y) in p.annotations.iter().zip(q.annotations.iter()) {
            assert!(x == y);
        }
    }
    for (x, y) in once.annotations.iter().zip(twice.annotations.iter()) {
        assert!(x == y);
    }
}

#[test]
fn apply_unknown_template_is_fatal() {
    let reg = TemplateRegistry::new();
    let f = func("it_works", vec![], vec![]);

    let err = apply(&reg, &vec![], "missing", &f).unwrap_err();

    assert!(matches!(err, ExpandError::UndefinedTemplate(name) if name == "missing"));
}

#[test]
fn duplicate_template_name_in_scope_is_refused() {
    let mut reg = TemplateRegistry::new();
    template(&mut reg, vec![], func("base", vec![], vec![])).unwrap();

    let err = template(&mut reg, vec![], func("base", vec![], vec![])).unwrap_err();

    assert!(matches!(err, ExpandError::DuplicateTemplateName(name) if name == "base"));
}

#[test]
fn same_name_in_another_scope_is_allowed() {
    let mut reg = TemplateRegistry::new();
    template(&mut reg, vec![s("a")], func("base", vec![], vec![])).unwrap();
    template(&mut reg, vec![s("b")], func("base", vec![], vec![])).unwrap();
}

#[test]
fn visibility_follows_scope_nesting() {
    let mut reg = TemplateRegistry::new();
    template(&mut reg, vec![s("outer")], func("base", vec![], vec![])).unwrap();
    let f = func("it_works", vec![], vec![]);

    assert!(apply(&reg, &vec![s("outer"), s("inner")], "base", &f).is_ok());
    assert!(apply(&reg, &vec![s("elsewhere")], "base", &f).is_err());
}

#[test]
fn export_widens_visibility_and_is_stripped() {
    let mut reg = TemplateRegistry::new();
    let t = func(
        "base",
        vec![],
        vec![Annotation::Modifier(s("export"), vec![]), case_row(&["1"])],
    );
    assert_eq!(Some(0), get_export(&t.annotations));
    template(&mut reg, vec![s("deep"), s("scope")], t).unwrap();
    let f = func("it_works", vec![], vec![]);

    let applied = apply(&reg, &vec![s("elsewhere")], "base", &f).unwrap();

    assert_eq!(1, applied.annotations.len());
    assert!(matches!(&applied.annotations[0], Annotation::CaseValue(_)));
}

#[test]
fn merge_arg_attributes_appends_only_new() {
    let mut dest = vec![Annotation::DefaultValue(s("1"))];
    let source = vec![
        Annotation::DefaultValue(s("1")),
        Annotation::DefaultValue(s("2")),
    ];

    merge_arg_attributes(&mut dest, &source);

    assert_eq!(2, dest.len());
    assert!(matches!(&dest[0], Annotation::DefaultValue(v) if v == "1"));
    assert!(matches!(&dest[1], Annotation::DefaultValue(v) if v == "2"));
}

#[test]
fn sanitize_collapses_doubled_expected_failure_flag() {
    let doubled = vec![
        Annotation::Modifier(s("should_panic"), vec![]),
        Annotation::Modifier(s("should_panic"), vec![]),
    ];
    assert!(is_should_panic(&doubled[0]));

    let out = sanitize_should_panic_duplication_bug(doubled);

    assert_eq!(1, out.len());
}

#[test]
fn sanitize_leaves_other_lists_alone() {
    let different = vec![
        Annotation::Modifier(s("should_panic"), vec![]),
        Annotation::Modifier(s("trace"), vec![]),
    ];
    let out = sanitize_should_panic_duplication_bug(different);
    assert_eq!(2, out.len());

    let tripled = vec![
        Annotation::Modifier(s("should_panic"), vec![]),
        Annotation::Modifier(s("should_panic"), vec![]),
        Annotation::Modifier(s("should_panic"), vec![]),
    ];
    let out = sanitize_should_panic_duplication_bug(tripled);
    assert_eq!(3, out.len());
}
