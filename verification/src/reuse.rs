//! The template registry and the merge engine.
//!
//! A template is a named capture of a function's whole annotation surface.
//! Applying a template merges that surface into another function: its
//! function-level annotations are prepended before the applying function's
//! own, and each of its parameters feeds its annotations to the applying
//! function's parameter of the same name (an `_`-prefixed name matches the
//! name with the prefix stripped), skipping annotations already present.

use crate::errors::{ExpandError, ExpandErrorView};
use crate::strutil::{clone_strings, str_equal, string_vecs_equal};
use vstd::prelude::*;
use vstd::string::StrSliceExecFns;

verus! {

broadcast use vstd::string::group_string_axioms;

/// One parsed annotation, attached to a function or to a parameter.
/// Argument expressions are opaque fragments.
#[derive(Debug)]
pub enum Annotation {
    /// A case marker: a row of positional values on a function, or the bare
    /// marker on a parameter.
    CaseValue(Vec<String>),
    /// An enumerated domain for one parameter.
    ValueList(Vec<String>),
    /// Positional arguments for a parameter's fixture.
    FixtureCall(Vec<String>),
    /// An explicit default value for one parameter.
    DefaultValue(String),
    /// A named flag with identifier arguments.
    Modifier(String, Vec<String>),
}

/// The mathematical value of an [`Annotation`].
#[verifier::ext_equal]
pub enum AnnotationView {
    CaseValue(Seq<Seq<char>>),
    ValueList(Seq<Seq<char>>),
    FixtureCall(Seq<Seq<char>>),
    DefaultValue(Seq<char>),
    Modifier(Seq<char>, Seq<Seq<char>>),
}

impl View for Annotation {
    type V = AnnotationView;

    open spec fn view(&self) -> AnnotationView {
        match self {
            Annotation::CaseValue(es) => AnnotationView::CaseValue(es.deep_view()),
            Annotation::ValueList(es) => AnnotationView::ValueList(es.deep_view()),
            Annotation::FixtureCall(es) => AnnotationView::FixtureCall(es.deep_view()),
            Annotation::DefaultValue(e) => AnnotationView::DefaultValue(e@),
            Annotation::Modifier(n, es) => AnnotationView::Modifier(n@, es.deep_view()),
        }
    }
}

impl DeepView for Annotation {
    type V = AnnotationView;

    open spec fn deep_view(&self) -> AnnotationView {
        self.view()
    }
}

impl Clone for Annotation {
    fn clone(&self) -> (r: Self)
        ensures
            r@ == self@,
    {
        match self {
            Annotation::CaseValue(es) => Annotation::CaseValue(clone_strings(es)),
            Annotation::ValueList(es) => Annotation::ValueList(clone_strings(es)),
            Annotation::FixtureCall(es) => Annotation::FixtureCall(clone_strings(es)),
            Annotation::DefaultValue(e) => Annotation::DefaultValue(e.clone()),
            Annotation::Modifier(n, es) => Annotation::Modifier(n.clone(), clone_strings(es)),
        }
    }
}

impl PartialEq for Annotation {
    fn eq(&self, other: &Annotation) -> (r: bool)
        ensures
            r == (self@ == other@),
    {
        match (self, other) {
            (Annotation::CaseValue(a), Annotation::CaseValue(b)) => string_vecs_equal(a, b),
            (Annotation::ValueList(a), Annotation::ValueList(b)) => string_vecs_equal(a, b),
            (Annotation::FixtureCall(a), Annotation::FixtureCall(b)) => string_vecs_equal(a, b),
            (Annotation::DefaultValue(a), Annotation::DefaultValue(b)) => {
                str_equal(a.as_str(), b.as_str())
            },
            (Annotation::Modifier(n, a), Annotation::Modifier(m, b)) => {
                str_equal(n.as_str(), m.as_str()) && string_vecs_equal(a, b)
            },
            _ => false,
        }
    }
}

impl vstd::std_specs::cmp::PartialEqSpecImpl for Annotation {
    open spec fn obeys_eq_spec() -> bool {
        true
    }

    open spec fn eq_spec(&self, other: &Annotation) -> bool {
        self@ == other@
    }
}

/// Clones an annotation list, keeping its view.
pub fn clone_annotations(v: &Vec<Annotation>) -> (r: Vec<Annotation>)
    ensures
        r.deep_view() == v.deep_view(),
{
    let mut r: Vec<Annotation> = Vec::new();
    let mut i: usize = 0;
    while i < v.len()
        invariant
            i <= v.len(),
            r.deep_view().len() == i,
            forall|k: int| 0 <= k < i ==> r.deep_view()[k] == v.deep_view()[k],
        decreases v.len() - i,
    {
        r.push(v[i].clone());
        i = i + 1;
    }
    proof {
        assert(r.deep_view() =~= v.deep_view());
    }
    r
}

/// One function parameter: name, declared type (opaque text) and its
/// ordered annotations.
#[derive(Debug)]
pub struct ParameterSpec {
    pub name: String,
    pub ty: String,
    pub annotations: Vec<Annotation>,
}

/// The mathematical value of a [`ParameterSpec`].
#[verifier::ext_equal]
pub struct ParameterSpecView {
    pub name: Seq<char>,
    pub ty: Seq<char>,
    pub annotations: Seq<AnnotationView>,
}

impl View for ParameterSpec {
    type V = ParameterSpecView;

    open spec fn view(&self) -> ParameterSpecView {
        ParameterSpecView {
            name: self.name@,
            ty: self.ty@,
            annotations: self.annotations.deep_view(),
        }
    }
}

impl DeepView for ParameterSpec {
    type V = ParameterSpecView;

    open spec fn deep_view(&self) -> ParameterSpecView {
        self.view()
    }
}

impl Clone for ParameterSpec {
    fn clone(&self) -> (r: Self)
        ensures
            r@ == self@,
    {
        let r = ParameterSpec {
            name: self.name.clone(),
            ty: self.ty.clone(),
            annotations: clone_annotations(&self.annotations),
        };
        proof {
            assert(r@ =~= self@);
        }
        r
    }
}

/// A function declaration as the engine sees it: name, ordered parameters,
/// and function-level annotations.  Parameter order is significant and
/// preserved through every transform.
#[derive(Debug)]
pub struct FunctionSpec {
    pub name: String,
    pub params: Vec<ParameterSpec>,
    pub annotations: Vec<Annotation>,
}

/// The mathematical value of a [`FunctionSpec`].
#[verifier::ext_equal]
pub struct FunctionSpecView {
    pub name: Seq<char>,
    pub params: Seq<ParameterSpecView>,
    pub annotations: Seq<AnnotationView>,
}

impl View for FunctionSpec {
    type V = FunctionSpecView;

    open spec fn view(&self) -> FunctionSpecView {
        FunctionSpecView {
            name: self.name@,
            params: self.params.deep_view(),
            annotations: self.annotations.deep_view(),
        }
    }
}

impl DeepView for FunctionSpec {
    type V = FunctionSpecView;

    open spec fn deep_view(&self) -> FunctionSpecView {
        self.view()
    }
}

/// The result of applying a template to a function: the merged parameter
/// list, in the applying function's order, and the merged function-level
/// annotation list.
#[derive(Debug)]
pub struct AppliedSpec {
    pub params: Vec<ParameterSpec>,
    pub annotations: Vec<Annotation>,
}

/// The mathematical value of an [`AppliedSpec`].
#[verifier::ext_equal]
pub struct AppliedSpecView {
    pub params: Seq<ParameterSpecView>,
    pub annotations: Seq<AnnotationView>,
}

impl View for AppliedSpec {
    type V = AppliedSpecView;

    open spec fn view(&self) -> AppliedSpecView {
        AppliedSpecView { params: self.params.deep_view(), annotations: self.annotations.deep_view() }
    }
}

impl DeepView for AppliedSpec {
    type V = AppliedSpecView;

    open spec fn deep_view(&self) -> AppliedSpecView {
        self.view()
    }
}

/// A registered template: its name, the scope path it was defined in, its
/// export flag, and the captured annotation surface.
#[derive(Debug)]
pub struct Template {
    pub name: String,
    pub scope: Vec<String>,
    pub export: bool,
    pub captured: FunctionSpec,
}

/// The mathematical value of a [`Template`].
#[verifier::ext_equal]
pub struct TemplateView {
    pub name: Seq<char>,
    pub scope: Seq<Seq<char>>,
    pub export: bool,
    pub captured: FunctionSpecView,
}

impl View for Template {
    type V = TemplateView;

    open spec fn view(&self) -> TemplateView {
        TemplateView {
            name: self.name@,
            scope: self.scope.deep_view(),
            export: self.export,
            captured: self.captured@,
        }
    }
}

impl DeepView for Template {
    type V = TemplateView;

    open spec fn deep_view(&self) -> TemplateView {
        self.view()
    }
}

/// The ordered store of templates for one compilation unit: populated during
/// a single forward pass and read-only to every application, so a template
/// can only ever resolve to a registration completed before it.
#[derive(Debug)]
pub struct TemplateRegistry {
    pub templates: Vec<Template>,
}

impl View for TemplateRegistry {
    type V = Seq<TemplateView>;

    open spec fn view(&self) -> Seq<TemplateView> {
        self.templates.deep_view()
    }
}

impl TemplateRegistry {
    /// The empty registry.
    pub fn new() -> (r: TemplateRegistry)
        ensures
            r@.len() == 0,
    {
        TemplateRegistry { templates: Vec::new() }
    }
}

/// First parameter with the given name, if any.
pub open spec fn find_param(ps: Seq<ParameterSpecView>, name: Seq<char>) -> Option<int>
    decreases ps.len(),
{
    if ps.len() == 0 {
        None
    } else if ps[0].name == name {
        Some(0)
    } else {
        match find_param(ps.drop_first(), name) {
            None => None,
            Some(i) => Some(i + 1),
        }
    }
}

/// Name resolution against a template's parameters: an exact match wins;
/// otherwise a name that begins with the ignore marker `_` is retried with
/// the marker stripped; otherwise there is no match.
pub open spec fn resolve_template_param(ps: Seq<ParameterSpecView>, name: Seq<char>) -> Option<
    int,
> {
    match find_param(ps, name) {
        Some(i) => Some(i),
        None => {
            if name.len() > 0 && name[0] == '_' {
                find_param(ps, name.drop_first())
            } else {
                None
            }
        },
    }
}

proof fn lemma_find_param_hit(ps: Seq<ParameterSpecView>, name: Seq<char>, i: int)
    requires
        0 <= i < ps.len(),
        ps[i].name == name,
        forall|k: int| 0 <= k < i ==> (#[trigger] ps[k]).name != name,
    ensures
        find_param(ps, name) == Some(i),
    decreases i,
{
    if i == 0 {
    } else {
        assert(ps[0].name != name);
        lemma_find_param_hit(ps.drop_first(), name, i - 1);
    }
}

proof fn lemma_find_param_miss(ps: Seq<ParameterSpecView>, name: Seq<char>)
    requires
        forall|k: int| 0 <= k < ps.len() ==> (#[trigger] ps[k]).name != name,
    ensures
        find_param(ps, name) is None,
    decreases ps.len(),
{
    if ps.len() > 0 {
        lemma_find_param_miss(ps.drop_first(), name);
    }
}

/// First parameter with the given name, by scan.
fn find_param_exec(params: &Vec<ParameterSpec>, name: &str) -> (r: Option<usize>)
    ensures
        ({
            let fp = find_param(params.deep_view(), name@);
            match r {
                None => fp is None,
                Some(i) => i < params.len() && fp == Some(i as int),
            }
        }),
{
    let n = params.len();
    let mut i: usize = 0;
    while i < n
        invariant
            i <= n,
            n == params.len(),
            params.deep_view().len() == n,
            forall|k: int| 0 <= k < i ==> (#[trigger] params.deep_view()[k]).name != name@,
        decreases n - i,
    {
        if str_equal(params[i].name.as_str(), name) {
            proof {
                lemma_find_param_hit(params.deep_view(), name@, i as int);
            }
            return Some(i);
        }
        i = i + 1;
    }
    proof {
        lemma_find_param_miss(params.deep_view(), name@);
    }
    None
}

/// Resolves an applying function's parameter name against a template's
/// parameters (see [`resolve_template_param`]).
pub fn resolve_template_arg(params: &Vec<ParameterSpec>, name: &str) -> (r: Option<usize>)
    ensures
        ({
            let rp = resolve_template_param(params.deep_view(), name@);
            match r {
                None => rp is None,
                Some(i) => i < params.len() && rp == Some(i as int),
            }
        }),
{
    match find_param_exec(params, name) {
        Some(i) => Some(i),
        None => {
            let n = name.unicode_len();
            if n > 0 && name.get_char(0) == '_' {
                let stripped = name.substring_char(1, n);
                proof {
                    assert(stripped@ =~= name@.drop_first());
                }
                find_param_exec(params, stripped)
            } else {
                None
            }
        },
    }
}

/// The order-preserving, de-duplicating merge: each source annotation is
/// appended unless an equal one is already present.
pub open spec fn merge_annotations(dest: Seq<AnnotationView>, source: Seq<AnnotationView>) -> Seq<
    AnnotationView,
>
    decreases source.len(),
{
    if source.len() == 0 {
        dest
    } else {
        let d2 = if dest.contains(source[0]) {
            dest
        } else {
            dest.push(source[0])
        };
        merge_annotations(d2, source.drop_first())
    }
}

/// Whether an annotation equal to `a` occurs in `v`.
fn contains_annotation(v: &Vec<Annotation>, a: &Annotation) -> (r: bool)
    ensures
        r == v.deep_view().contains(a@),
{
    let n = v.len();
    let mut i: usize = 0;
    while i < n
        invariant
            i <= n,
            n == v.len(),
            v.deep_view().len() == n,
            forall|k: int| 0 <= k < i ==> v.deep_view()[k] != a@,
        decreases n - i,
    {
        if v[i].eq(a) {
            proof {
                assert(v.deep_view()[i as int] == a@);
            }
            return true;
        }
        i = i + 1;
    }
    proof {
        assert(!v.deep_view().contains(a@));
    }
    false
}

/// Appends to `dest` every source annotation that is not already present,
/// in source order; the existing annotations stay in place.
pub fn merge_arg_attributes(dest: &mut Vec<Annotation>, source: &Vec<Annotation>)
    ensures
        final(dest).deep_view() == merge_annotations(
            old(dest).deep_view(),
            source.deep_view(),
        ),
{
    let ghost d0 = dest.deep_view();
    let ghost sg = source.deep_view();
    let n = source.len();
    let mut i: usize = 0;
    proof {
        assert(sg.skip(0) =~= sg);
    }
    while i < n
        invariant
            i <= n,
            n == source.len(),
            sg == source.deep_view(),
            sg.len() == n,
            merge_annotations(d0, sg) == merge_annotations(dest.deep_view(), sg.skip(i as int)),
        decreases n - i,
    {
        proof {
            assert(sg.skip(i as int).drop_first() =~= sg.skip(i as int + 1));
            assert(sg.skip(i as int)[0] == sg[i as int]);
        }
        let ghost dnow = dest.deep_view();
        if !contains_annotation(dest, &source[i]) {
            let c = source[i].clone();
            dest.push(c);
            proof {
                assert(dest.deep_view() =~= dnow.push(sg[i as int]));
            }
        }
        i = i + 1;
    }
    proof {
        assert(sg.skip(n as int) =~= Seq::<AnnotationView>::empty());
    }
}

/// One parameter after the merge: unchanged when the template has no
/// matching parameter, otherwise with the template's annotations appended
/// (duplicates skipped).
pub open spec fn merged_param(p: ParameterSpecView, tps: Seq<ParameterSpecView>)
    -> ParameterSpecView {
    match resolve_template_param(tps, p.name) {
        Some(i) => ParameterSpecView {
            name: p.name,
            ty: p.ty,
            annotations: merge_annotations(p.annotations, tps[i].annotations),
        },
        None => p,
    }
}

/// The applying function's parameters after the merge, in declared order.
pub open spec fn merged_params(ps: Seq<ParameterSpecView>, tps: Seq<ParameterSpecView>) -> Seq<
    ParameterSpecView,
> {
    Seq::new(ps.len(), |i: int| merged_param(ps[i], tps))
}

/// Feeds each template parameter's annotations to the matching parameter of
/// `dest`; parameters without a match pass through untouched.
pub fn expand_function_arguments(dest: &mut FunctionSpec, source: &FunctionSpec)
    ensures
        final(dest)@.params == merged_params(old(dest)@.params, source@.params),
        final(dest)@.name == old(dest)@.name,
        final(dest)@.annotations == old(dest)@.annotations,
{
    let ghost p0 = dest@.params;
    let ghost tpsg = source@.params;
    let mut newp: Vec<ParameterSpec> = Vec::new();
    let n = dest.params.len();
    let mut i: usize = 0;
    while i < n
        invariant
            i <= n,
            n == dest.params.len(),
            p0 == dest@.params,
            tpsg == source@.params,
            p0.len() == n,
            newp.deep_view().len() == i,
            forall|k: int| 0 <= k < i ==> newp.deep_view()[k] == merged_param(p0[k], tpsg),
        decreases n - i,
    {
        let mut c = dest.params[i].clone();
        let ghost cg = c@;
        match resolve_template_arg(&source.params, c.name.as_str()) {
            Some(ti) => {
                merge_arg_attributes(&mut c.annotations, &source.params[ti].annotations);
                proof {
                    assert(c@ =~= merged_param(p0[i as int], tpsg));
                }
            },
            None => {
                proof {
                    assert(c@ =~= merged_param(p0[i as int], tpsg));
                }
            },
        }
        let ghost npg = newp.deep_view();
        let ghost cg2 = c@;
        newp.push(c);
        proof {
            assert(newp.deep_view() =~= npg.push(cg2));
        }
        i = i + 1;
    }
    dest.params = newp;
    proof {
        assert(dest@.params =~= merged_params(p0, tpsg));
    }
}

/// The merge of a template's surface into an applying function: parameters
/// per [`merged_params`], function-level annotations template-first.
pub open spec fn spec_merge_attrs(t: FunctionSpecView, f: FunctionSpecView) -> AppliedSpecView {
    AppliedSpecView {
        params: merged_params(f.params, t.params),
        annotations: t.annotations + f.annotations,
    }
}

/// Merges a template function's annotation surface into an applying
/// function.  The template's function-level annotations come first, in their
/// declared order, then the applying function's own; nothing is
/// de-duplicated at this level, since repeated case rows mean more
/// instances.
pub fn merge_attrs(template: &FunctionSpec, function: &FunctionSpec) -> (r: AppliedSpec)
    ensures
        r@ == spec_merge_attrs(template@, function@),
{
    let mut work = FunctionSpec {
        name: function.name.clone(),
        params: {
            let mut ps: Vec<ParameterSpec> = Vec::new();
            let n = function.params.len();
            let mut i: usize = 0;
            while i < n
                invariant
                    i <= n,
                    n == function.params.len(),
                    ps.deep_view().len() == i,
                    forall|k: int| 0 <= k < i
                        ==> ps.deep_view()[k] == function@.params[k],
                decreases n - i,
            {
                let c = function.params[i].clone();
                let ghost psg = ps.deep_view();
                let ghost cg = c@;
                ps.push(c);
                proof {
                    assert(ps.deep_view() =~= psg.push(cg));
                }
                i = i + 1;
            }
            proof {
                assert(ps.deep_view() =~= function@.params);
            }
            ps
        },
        annotations: clone_annotations(&function.annotations),
    };
    expand_function_arguments(&mut work, template);
    let mut annots = clone_annotations(&template.annotations);
    let ghost tg = annots.deep_view();
    let mut fann = work.annotations;
    let ghost fg = fann.deep_view();
    annots.append(&mut fann);
    proof {
        assert(annots.deep_view() =~= tg + fg);
    }
    let r = AppliedSpec { params: work.params, annotations: annots };
    proof {
        assert(r@ =~= spec_merge_attrs(template@, function@));
    }
    r
}

/// Whether an annotation is the export marker.
pub open spec fn is_export_annotation(a: AnnotationView) -> bool {
    a matches AnnotationView::Modifier(n, _) && n == "export"@
}

/// First export marker among the annotations, if any.
pub open spec fn find_export(s: Seq<AnnotationView>) -> Option<int>
    decreases s.len(),
{
    if s.len() == 0 {
        None
    } else if is_export_annotation(s[0]) {
        Some(0)
    } else {
        match find_export(s.drop_first()) {
            None => None,
            Some(i) => Some(i + 1),
        }
    }
}

/// The annotations without the export markers, in order.
pub open spec fn strip_export(s: Seq<AnnotationView>) -> Seq<AnnotationView>
    decreases s.len(),
{
    if s.len() == 0 {
        Seq::empty()
    } else {
        let prev = strip_export(s.drop_last());
        if is_export_annotation(s.last()) {
            prev
        } else {
            prev.push(s.last())
        }
    }
}

proof fn lemma_find_export_hit(s: Seq<AnnotationView>, i: int)
    requires
        0 <= i < s.len(),
        is_export_annotation(s[i]),
        forall|k: int| 0 <= k < i ==> !is_export_annotation(#[trigger] s[k]),
    ensures
        find_export(s) == Some(i),
    decreases i,
{
    if i > 0 {
        lemma_find_export_hit(s.drop_first(), i - 1);
    }
}

proof fn lemma_find_export_miss(s: Seq<AnnotationView>)
    requires
        forall|k: int| 0 <= k < s.len() ==> !is_export_annotation(#[trigger] s[k]),
    ensures
        find_export(s) is None,
    decreases s.len(),
{
    if s.len() > 0 {
        lemma_find_export_miss(s.drop_first());
    }
}

/// Whether an annotation is the export marker, by inspection.
fn is_export_exec(a: &Annotation) -> (r: bool)
    ensures
        r == is_export_annotation(a@),
{
    match a {
        Annotation::Modifier(n, _) => str_equal(n.as_str(), "export"),
        _ => false,
    }
}

/// The first export marker among a function's annotations, if any: a
/// template annotated with it is visible beyond its defining scope.
pub fn get_export(annotations: &Vec<Annotation>) -> (r: Option<usize>)
    ensures
        ({
            let fe = find_export(annotations.deep_view());
            match r {
                None => fe is None,
                Some(i) => i < annotations.len() && fe == Some(i as int),
            }
        }),
{
    let n = annotations.len();
    let mut i: usize = 0;
    while i < n
        invariant
            i <= n,
            n == annotations.len(),
            annotations.deep_view().len() == n,
            forall|k: int| 0 <= k < i
                ==> !is_export_annotation(#[trigger] annotations.deep_view()[k]),
        decreases n - i,
    {
        if is_export_exec(&annotations[i]) {
            proof {
                lemma_find_export_hit(annotations.deep_view(), i as int);
            }
            return Some(i);
        }
        i = i + 1;
    }
    proof {
        lemma_find_export_miss(annotations.deep_view());
    }
    None
}

/// Whether a template name is already taken in exactly this scope.
pub open spec fn name_taken(ts: Seq<TemplateView>, scope: Seq<Seq<char>>, name: Seq<char>)
    -> bool {
    exists|j: int| 0 <= j < ts.len() && (#[trigger] ts[j]).name == name && ts[j].scope == scope
}

/// The registration that [`template`] adds for `func` in `scope`.
pub open spec fn spec_registration(scope: Seq<Seq<char>>, f: FunctionSpecView) -> TemplateView {
    TemplateView {
        name: f.name,
        scope: scope,
        export: find_export(f.annotations) is Some,
        captured: FunctionSpecView {
            name: f.name,
            params: f.params,
            annotations: strip_export(f.annotations),
        },
    }
}

/// Defines a template: captures the function's whole annotation surface —
/// function-level and per-parameter — under the function's own name, in the
/// given scope.  An export marker widens its visibility and is itself
/// removed from the captured surface.  Fails, leaving the registry
/// unchanged, if the name is already defined in the same scope.
pub fn template(registry: &mut TemplateRegistry, scope: Vec<String>, func: FunctionSpec) -> (r:
    Result<(), ExpandError>)
    ensures
        ({
            if name_taken(old(registry)@, scope.deep_view(), func@.name) {
                &&& final(registry)@ == old(registry)@
                &&& r matches Err(e) && e@ == ExpandErrorView::DuplicateTemplateName(func@.name)
            } else {
                &&& final(registry)@ == old(registry)@.push(
                    spec_registration(scope.deep_view(), func@),
                )
                &&& r is Ok
            }
        }),
{
    let n = registry.templates.len();
    let mut j: usize = 0;
    while j < n
        invariant
            j <= n,
            n == registry.templates.len(),
            registry@.len() == n,
            forall|k: int| 0 <= k < j
                ==> !((#[trigger] registry@[k]).name == func@.name && registry@[k].scope
                == scope.deep_view()),
        decreases n - j,
    {
        let t = &registry.templates[j];
        if str_equal(t.name.as_str(), func.name.as_str()) && string_vecs_equal(&t.scope, &scope) {
            proof {
                assert(registry@[j as int].name == func@.name && registry@[j as int].scope
                    == scope.deep_view());
                assert(name_taken(registry@, scope.deep_view(), func@.name));
            }
            return Err(ExpandError::DuplicateTemplateName(func.name));
        }
        j = j + 1;
    }
    proof {
        assert(!name_taken(registry@, scope.deep_view(), func@.name));
    }
    let export = get_export(&func.annotations).is_some();
    let ghost fg = func@;
    let FunctionSpec { name, params, annotations } = func;
    let na = annotations.len();
    let mut kept: Vec<Annotation> = Vec::new();
    let mut i: usize = 0;
    proof {
        assert(fg.annotations.take(0) =~= Seq::<AnnotationView>::empty());
        assert(kept.deep_view() =~= strip_export(fg.annotations.take(0)));
    }
    while i < na
        invariant
            i <= na,
            na == annotations.len(),
            annotations.deep_view() == fg.annotations,
            fg.annotations.len() == na,
            kept.deep_view() == strip_export(fg.annotations.take(i as int)),
        decreases na - i,
    {
        proof {
            assert(fg.annotations.take(i as int + 1).drop_last() =~= fg.annotations.take(
                i as int,
            ));
            assert(fg.annotations.take(i as int + 1).last() == fg.annotations[i as int]);
        }
        let ghost keptg = kept.deep_view();
        if !is_export_exec(&annotations[i]) {
            let c = annotations[i].clone();
            let ghost cg = c@;
            kept.push(c);
            proof {
                assert(kept.deep_view() =~= keptg.push(cg));
            }
        }
        i = i + 1;
    }
    proof {
        assert(fg.annotations.take(na as int) =~= fg.annotations);
    }
    let ghost regg = registry@;
    let captured_name = name.clone();
    let t = Template {
        name,
        scope,
        export,
        captured: FunctionSpec { name: captured_name, params, annotations: kept },
    };
    let ghost tg = t@;
    registry.templates.push(t);
    proof {
        assert(tg =~= spec_registration(tg.scope, fg));
        assert(registry@ =~= regg.push(tg));
    }
    Ok(())
}

/// Whether `a` is a prefix of `b`, element for element.
pub open spec fn is_scope_prefix(a: Seq<Seq<char>>, b: Seq<Seq<char>>) -> bool {
    a.len() <= b.len() && forall|k: int| 0 <= k < a.len() ==> a[k] == b[k]
}

/// Whether a template is visible from a scope: exported templates are
/// visible everywhere a path can reach them; the others only in their
/// defining scope and its nested scopes.
pub open spec fn template_visible(t: TemplateView, scope: Seq<Seq<char>>) -> bool {
    t.export || is_scope_prefix(t.scope, scope)
}

/// First visible template with the given name, if any.
pub open spec fn lookup_template(ts: Seq<TemplateView>, scope: Seq<Seq<char>>, name: Seq<char>)
    -> Option<int>
    decreases ts.len(),
{
    if ts.len() == 0 {
        None
    } else if ts[0].name == name && template_visible(ts[0], scope) {
        Some(0)
    } else {
        match lookup_template(ts.drop_first(), scope, name) {
            None => None,
            Some(i) => Some(i + 1),
        }
    }
}

proof fn lemma_lookup_hit(ts: Seq<TemplateView>, scope: Seq<Seq<char>>, name: Seq<char>, i: int)
    requires
        0 <= i < ts.len(),
        ts[i].name == name && template_visible(ts[i], scope),
        forall|k: int| 0 <= k < i
            ==> !((#[trigger] ts[k]).name == name && template_visible(ts[k], scope)),
    ensures
        lookup_template(ts, scope, name) == Some(i),
    decreases i,
{
    if i > 0 {
        lemma_lookup_hit(ts.drop_first(), scope, name, i - 1);
    }
}

proof fn lemma_lookup_miss(ts: Seq<TemplateView>, scope: Seq<Seq<char>>, name: Seq<char>)
    requires
        forall|k: int| 0 <= k < ts.len()
            ==> !((#[trigger] ts[k]).name == name && template_visible(ts[k], scope)),
    ensures
        lookup_template(ts, scope, name) is None,
    decreases ts.len(),
{
    if ts.len() > 0 {
        lemma_lookup_miss(ts.drop_first(), scope, name);
    }
}

/// Whether `a` is a prefix of `b`, by scan.
fn scope_prefix_exec(a: &Vec<String>, b: &Vec<String>) -> (r: bool)
    ensures
        r == is_scope_prefix(a.deep_view(), b.deep_view()),
{
    if a.len() > b.len() {
        return false;
    }
    let n = a.len();
    let mut i: usize = 0;
    while i < n
        invariant
            i <= n,
            n == a.len() <= b.len(),
            a.deep_view().len() == n,
            b.deep_view().len() == b.len(),
            forall|k: int| 0 <= k < i ==> a.deep_view()[k] == b.deep_view()[k],
        decreases n - i,
    {
        if !str_equal(a[i].as_str(), b[i].as_str()) {
            assert(a.deep_view()[i as int] != b.deep_view()[i as int]);
            return false;
        }
        i = i + 1;
    }
    true
}

/// Applies the template named `name`, as seen from `scope`, to `function`.
///
/// The name must resolve to a prior, completed registration that is visible
/// from `scope`; otherwise the application fails with `UndefinedTemplate`,
/// a fatal error, since no meaningful expansion is possible without the
/// template.
pub fn apply(registry: &TemplateRegistry, scope: &Vec<String>, name: &str, function: &FunctionSpec)
    -> (r: Result<AppliedSpec, ExpandError>)
    ensures
        ({
            match lookup_template(registry@, scope.deep_view(), name@) {
                None => r matches Err(e) && e@ == ExpandErrorView::UndefinedTemplate(name@),
                Some(i) => r matches Ok(a) && a@ == spec_merge_attrs(
                    registry@[i].captured,
                    function@,
                ),
            }
        }),
{
    let n = registry.templates.len();
    let mut j: usize = 0;
    while j < n
        invariant
            j <= n,
            n == registry.templates.len(),
            registry@.len() == n,
            forall|k: int| 0 <= k < j
                ==> !((#[trigger] registry@[k]).name == name@ && template_visible(
                registry@[k],
                scope.deep_view(),
            )),
        decreases n - j,
    {
        let t = &registry.templates[j];
        if str_equal(t.name.as_str(), name) && (t.export || scope_prefix_exec(&t.scope, scope)) {
            proof {
                lemma_lookup_hit(registry@, scope.deep_view(), name@, j as int);
            }
            return Ok(merge_attrs(&t.captured, function));
        }
        j = j + 1;
    }
    proof {
        lemma_lookup_miss(registry@, scope.deep_view(), name@);
    }
    Err(ExpandError::UndefinedTemplate(name.to_owned()))
}

/// Whether an annotation is an expected-failure flag.
pub open spec fn spec_is_should_panic(a: AnnotationView) -> bool {
    a matches AnnotationView::Modifier(n, _) && n == "should_panic"@
}

/// Whether an annotation is an expected-failure flag, by inspection.
pub fn is_should_panic(attr: &Annotation) -> (r: bool)
    ensures
        r == spec_is_should_panic(attr@),
{
    match attr {
        Annotation::Modifier(n, _) => str_equal(n.as_str(), "should_panic"),
        _ => false,
    }
}

/// Collapses the one doubled annotation that the host flags twice: a list
/// that is exactly two equal expected-failure flags keeps one of them.  Any
/// other list passes through unchanged — a deliberately narrow workaround,
/// not a general rule.
pub fn sanitize_should_panic_duplication_bug(attributes: Vec<Annotation>) -> (r: Vec<Annotation>)
    ensures
        ({
            let s = attributes.deep_view();
            if s.len() == 2 && s[0] == s[1] && spec_is_should_panic(s[0]) {
                r.deep_view() == s.take(1)
            } else {
                r.deep_view() == s
            }
        }),
{
    let ghost s = attributes.deep_view();
    if attributes.len() == 2 && attributes[0].eq(&attributes[1]) && is_should_panic(
        &attributes[0],
    ) {
        let mut out = attributes;
        out.pop();
        proof {
            assert(out.deep_view() =~= s.take(1));
        }
        out
    } else {
        attributes
    }
}

/// No two structurally equal annotations occur in the list.
pub open spec fn no_duplicate_annotations(s: Seq<AnnotationView>) -> bool {
    forall|i: int, j: int| 0 <= i < j < s.len() ==> s[i] != s[j]
}

/// Law: the merge is deterministic.  [`merge_attrs`] pins its result to
/// [`spec_merge_attrs`] of its inputs, so two applications of one template
/// to one function produce one and the same structure.
pub proof fn lemma_apply_deterministic(
    t: FunctionSpecView,
    f: FunctionSpecView,
    a: AppliedSpecView,
    b: AppliedSpecView,
)
    requires
        a == spec_merge_attrs(t, f),
        b == spec_merge_attrs(t, f),
    ensures
        a == b,
{
}

/// Law: merging never doubles an annotation.  When a parameter's own list
/// holds no two equal annotations, the merged list holds no two equal
/// annotations either.  (A list that already holds duplicates keeps them:
/// the merge only refuses to add more.)
pub proof fn lemma_merge_no_duplicates(dest: Seq<AnnotationView>, source: Seq<AnnotationView>)
    requires
        no_duplicate_annotations(dest),
    ensures
        no_duplicate_annotations(merge_annotations(dest, source)),
    decreases source.len(),
{
    if source.len() > 0 {
        if dest.contains(source[0]) {
            lemma_merge_no_duplicates(dest, source.drop_first());
        } else {
            let d2 = dest.push(source[0]);
            assert forall|i: int, j: int| 0 <= i < j < d2.len() implies d2[i] != d2[j] by {
                if j == d2.len() - 1 {
                    if d2[i] == d2[j] {
                        assert(dest[i] == source[0]);
                        assert(dest.contains(source[0]));
                    }
                }
            }
            lemma_merge_no_duplicates(d2, source.drop_first());
        }
    }
}

/// Law: the merge appends and never replaces.  What stood in the parameter's
/// own list stays, in place, before everything the template adds.
pub proof fn lemma_merge_keeps_own(dest: Seq<AnnotationView>, source: Seq<AnnotationView>)
    ensures
        merge_annotations(dest, source).len() >= dest.len(),
        forall|k: int| 0 <= k < dest.len() ==> merge_annotations(dest, source)[k] == dest[k],
    decreases source.len(),
{
    if source.len() > 0 {
        if dest.contains(source[0]) {
            lemma_merge_keeps_own(dest, source.drop_first());
        } else {
            let d2 = dest.push(source[0]);
            lemma_merge_keeps_own(d2, source.drop_first());
            let m = merge_annotations(dest, source);
            assert(m == merge_annotations(d2, source.drop_first()));
            assert forall|k: int| 0 <= k < dest.len() implies m[k] == dest[k] by {
                assert(m[k] == d2[k]);
                assert(d2[k] == dest[k]);
            }
        }
    }
}

/// Law: merged function-level annotations place every template-originated
/// entry before every applying-function-originated entry, each side in its
/// own declared order.
pub proof fn lemma_function_annotations_order(t: FunctionSpecView, f: FunctionSpecView)
    ensures
        spec_merge_attrs(t, f).annotations.len() == t.annotations.len() + f.annotations.len(),
        forall|k: int| 0 <= k < t.annotations.len()
            ==> spec_merge_attrs(t, f).annotations[k] == t.annotations[k],
        forall|k: int| 0 <= k < f.annotations.len()
            ==> spec_merge_attrs(t, f).annotations[t.annotations.len() + k] == f.annotations[k],
{
}

/// Law: a parameter named with the ignore marker before `b` resolves
/// against a template parameter named `b`, when no template parameter
/// carries the marked name itself.
pub proof fn lemma_ignore_prefix_resolution(
    tps: Seq<ParameterSpecView>,
    b: Seq<char>,
    i: int,
)
    requires
        0 <= i < tps.len(),
        tps[i].name == b,
        forall|k: int| 0 <= k < i ==> (#[trigger] tps[k]).name != b,
        forall|k: int| 0 <= k < tps.len() ==> (#[trigger] tps[k]).name != seq!['_'] + b,
    ensures
        resolve_template_param(tps, seq!['_'] + b) == Some(i),
{
    let marked = seq!['_'] + b;
    lemma_find_param_miss(tps, marked);
    assert(marked.drop_first() =~= b);
    lemma_find_param_hit(tps, b, i);
    assert(marked[0] == '_');
}

/// Law: de-duplication holds parameter-wise through a whole application.
/// For any parameter of the applying function whose own list holds no two
/// structurally equal annotations, the merged list in the applied
/// specification holds no two structurally equal annotations either.
pub proof fn lemma_applied_no_duplicate_annotations(
    t: FunctionSpecView,
    f: FunctionSpecView,
    i: int,
)
    requires
        0 <= i < f.params.len(),
        no_duplicate_annotations(f.params[i].annotations),
    ensures
        no_duplicate_annotations(spec_merge_attrs(t, f).params[i].annotations),
{
    let p = f.params[i];
    assert(spec_merge_attrs(t, f).params[i] == merged_param(p, t.params));
    match resolve_template_param(t.params, p.name) {
        Some(j) => {
            lemma_merge_no_duplicates(p.annotations, t.params[j].annotations);
        },
        None => {},
    }
}

} // verus!
