//! The expansion generator.
//!
//! From an applied specification's case rows and value lists it computes the
//! cartesian product of {case rows} × {each value list}, one axis per value
//! list, combined left to right in the order the value-list-bearing
//! parameters are declared, and assigns each instance its deterministic name
//! (see [`crate::names`]).

use crate::errors::{ExpandError, ExpandErrorView};
use crate::names::{axis_seg, axis_segment, case_seg, case_segment, join_segments, join_segs};
use crate::reuse::{AnnotationView, AppliedSpec, AppliedSpecView, ParameterSpecView};
use crate::strutil::clone_strings;
use vstd::prelude::*;

verus! {

/// One chosen value of one value-list axis.
#[derive(Debug)]
pub struct ChosenValue {
    pub param: String,
    pub value: String,
}

/// The mathematical value of a [`ChosenValue`].
#[verifier::ext_equal]
pub struct ChosenValueView {
    pub param: Seq<char>,
    pub value: Seq<char>,
}

impl View for ChosenValue {
    type V = ChosenValueView;

    open spec fn view(&self) -> ChosenValueView {
        ChosenValueView { param: self.param@, value: self.value@ }
    }
}

impl DeepView for ChosenValue {
    type V = ChosenValueView;

    open spec fn deep_view(&self) -> ChosenValueView {
        self.view()
    }
}

impl Clone for ChosenValue {
    fn clone(&self) -> (r: Self)
        ensures
            r@ == self@,
    {
        ChosenValue { param: self.param.clone(), value: self.value.clone() }
    }
}

/// One emitted test instance: its name, the case-row expressions it
/// receives, and the value chosen from each value-list axis.
#[derive(Debug)]
pub struct TestInstance {
    pub name: String,
    pub case_values: Vec<String>,
    pub value_choices: Vec<ChosenValue>,
}

/// The mathematical value of a [`TestInstance`].
#[verifier::ext_equal]
pub struct TestInstanceView {
    pub name: Seq<char>,
    pub case_values: Seq<Seq<char>>,
    pub choices: Seq<ChosenValueView>,
}

impl View for TestInstance {
    type V = TestInstanceView;

    open spec fn view(&self) -> TestInstanceView {
        TestInstanceView {
            name: self.name@,
            case_values: self.case_values.deep_view(),
            choices: self.value_choices.deep_view(),
        }
    }
}

impl DeepView for TestInstance {
    type V = TestInstanceView;

    open spec fn deep_view(&self) -> TestInstanceView {
        self.view()
    }
}

/// One value-list axis: the bearing parameter's name and its values.
#[verifier::ext_equal]
pub struct AxisView {
    pub name: Seq<char>,
    pub values: Seq<Seq<char>>,
}

/// The case rows among function-level annotations, in order.
pub open spec fn case_rows_of(annots: Seq<AnnotationView>) -> Seq<Seq<Seq<char>>>
    decreases annots.len(),
{
    if annots.len() == 0 {
        Seq::empty()
    } else {
        let prev = case_rows_of(annots.drop_last());
        match annots.last() {
            AnnotationView::CaseValue(es) => prev.push(es),
            _ => prev,
        }
    }
}

/// Whether a parameter carries a case marker.
pub open spec fn is_case_param(p: ParameterSpecView) -> bool {
    exists|k: int| 0 <= k < p.annotations.len() && (#[trigger] p.annotations[k]) matches
        AnnotationView::CaseValue(_)
}

/// How many parameters carry a case marker.
pub open spec fn case_param_count(params: Seq<ParameterSpecView>) -> nat
    decreases params.len(),
{
    if params.len() == 0 {
        0
    } else {
        case_param_count(params.drop_last()) + if is_case_param(params.last()) {
            1nat
        } else {
            0nat
        }
    }
}

/// The value-list axes one parameter contributes, in annotation order.
pub open spec fn axes_of_param(p: ParameterSpecView) -> Seq<AxisView>
    decreases p.annotations.len(),
{
    axes_of_param_upto(p, p.annotations.len() as int)
}

/// The axes from the first `k` annotations of one parameter.
pub open spec fn axes_of_param_upto(p: ParameterSpecView, k: int) -> Seq<AxisView>
    decreases k,
{
    if k <= 0 {
        Seq::empty()
    } else {
        let prev = axes_of_param_upto(p, k - 1);
        match p.annotations[k - 1] {
            AnnotationView::ValueList(vs) => prev.push(AxisView { name: p.name, values: vs }),
            _ => prev,
        }
    }
}

/// Every axis, in parameter order then annotation order.
pub open spec fn axes_of(params: Seq<ParameterSpecView>) -> Seq<AxisView>
    decreases params.len(),
{
    if params.len() == 0 {
        Seq::empty()
    } else {
        axes_of(params.drop_last()) + axes_of_param(params.last())
    }
}

/// All case rows have one arity.
pub open spec fn rows_uniform(rows: Seq<Seq<Seq<char>>>) -> bool {
    forall|i: int| 0 <= i < rows.len() ==> (#[trigger] rows[i]).len() == rows[0].len()
}

/// No axis has an empty domain.
pub open spec fn axes_nonempty(axes: Seq<AxisView>) -> bool {
    forall|k: int| 0 <= k < axes.len() ==> (#[trigger] axes[k]).values.len() > 0
}

/// The product of the axis sizes; the empty product is 1.
pub open spec fn axes_product(axes: Seq<AxisView>) -> nat
    decreases axes.len(),
{
    if axes.len() == 0 {
        1
    } else {
        axes_product(axes.drop_last()) * axes.last().values.len()
    }
}

/// A partially built instance: the name segments and the chosen values of
/// the axes combined so far.
#[verifier::ext_equal]
pub struct PartialView {
    pub segs: Seq<Seq<char>>,
    pub choices: Seq<ChosenValueView>,
}

/// The `ax.values.len()` extensions of one partial instance by one axis.
pub open spec fn one_partial(p: PartialView, ax: AxisView) -> Seq<PartialView> {
    Seq::new(
        ax.values.len(),
        |v: int| PartialView {
            segs: p.segs.push(axis_seg(ax.name, v)),
            choices: p.choices.push(ChosenValueView { param: ax.name, value: ax.values[v] }),
        },
    )
}

/// Extends every partial instance by one axis, keeping their order.
pub open spec fn extend_partials(ps: Seq<PartialView>, ax: AxisView) -> Seq<PartialView>
    decreases ps.len(),
{
    if ps.len() == 0 {
        Seq::empty()
    } else {
        extend_partials(ps.drop_last(), ax) + one_partial(ps.last(), ax)
    }
}

/// The cross product of the axes, leftmost axis slowest.
pub open spec fn axis_insts(axes: Seq<AxisView>) -> Seq<PartialView>
    decreases axes.len(),
{
    if axes.len() == 0 {
        seq![PartialView { segs: Seq::empty(), choices: Seq::empty() }]
    } else {
        extend_partials(axis_insts(axes.drop_last()), axes.last())
    }
}

proof fn lemma_extend_partials_len(ps: Seq<PartialView>, ax: AxisView)
    ensures
        extend_partials(ps, ax).len() == ps.len() * ax.values.len(),
    decreases ps.len(),
{
    if ps.len() > 0 {
        lemma_extend_partials_len(ps.drop_last(), ax);
        assert((ps.len() - 1) * ax.values.len() + ax.values.len() == ps.len() * ax.values.len())
            by (nonlinear_arith);
    }
}

/// The cross product has exactly the product of the axis sizes.
pub proof fn lemma_axis_insts_len(axes: Seq<AxisView>)
    ensures
        axis_insts(axes).len() == axes_product(axes),
    decreases axes.len(),
{
    if axes.len() > 0 {
        lemma_axis_insts_len(axes.drop_last());
        lemma_extend_partials_len(axis_insts(axes.drop_last()), axes.last());
    }
}

/// The case rows to expand: exactly one implicit empty row when none is
/// declared.
pub open spec fn rows_or_implicit(rows: Seq<Seq<Seq<char>>>) -> Seq<Seq<Seq<char>>> {
    if rows.len() == 0 {
        seq![Seq::<Seq<char>>::empty()]
    } else {
        rows
    }
}

/// The finished instance for row `r` and one combination of axis values.
pub open spec fn mk_inst(has_rows: bool, row: Seq<Seq<char>>, r: int, p: PartialView)
    -> TestInstanceView {
    let prefix: Seq<Seq<char>> = if has_rows {
        seq![case_seg(r)]
    } else {
        Seq::empty()
    };
    TestInstanceView { name: join_segs(prefix + p.segs), case_values: row, choices: p.choices }
}

/// Every instance of one case row, in axis-combination order.
pub open spec fn row_insts(has_rows: bool, row: Seq<Seq<char>>, r: int, axes: Seq<AxisView>)
    -> Seq<TestInstanceView> {
    Seq::new(axis_insts(axes).len(), |c: int| mk_inst(has_rows, row, r, axis_insts(axes)[c]))
}

/// The instances of the first `r` rows, in row order.
pub open spec fn insts_upto(
    has_rows: bool,
    rows0: Seq<Seq<Seq<char>>>,
    axes: Seq<AxisView>,
    r: int,
) -> Seq<TestInstanceView>
    decreases r,
{
    if r <= 0 {
        Seq::empty()
    } else {
        insts_upto(has_rows, rows0, axes, r - 1) + row_insts(has_rows, rows0[r - 1], r - 1, axes)
    }
}

proof fn lemma_insts_upto_len(
    has_rows: bool,
    rows0: Seq<Seq<Seq<char>>>,
    axes: Seq<AxisView>,
    r: int,
)
    requires
        r >= 0,
    ensures
        insts_upto(has_rows, rows0, axes, r).len() == r * axis_insts(axes).len(),
    decreases r,
{
    if r == 0 {
        assert(insts_upto(has_rows, rows0, axes, 0).len() == 0);
    } else {
        lemma_insts_upto_len(has_rows, rows0, axes, r - 1);
        assert(insts_upto(has_rows, rows0, axes, r) == insts_upto(has_rows, rows0, axes, r - 1)
            + row_insts(has_rows, rows0[r - 1], r - 1, axes));
        assert(row_insts(has_rows, rows0[r - 1], r - 1, axes).len() == axis_insts(axes).len());
        assert(insts_upto(has_rows, rows0, axes, r).len() == (r - 1) * axis_insts(axes).len()
            + axis_insts(axes).len());
        assert((r - 1) * axis_insts(axes).len() + axis_insts(axes).len() == r * axis_insts(
            axes,
        ).len()) by (nonlinear_arith);
    }
}

/// What expansion yields for an applied specification: its instances, or
/// the error that forbids them.
///
/// Case rows of differing arity are an arity mismatch.  A row arity that
/// does not equal the number of case-marked parameters, case-marked
/// parameters without any row, and an empty value list are conflicts
/// between annotations and declarations.
pub open spec fn expand_spec(a: AppliedSpecView) -> Result<Seq<TestInstanceView>, ExpandErrorView> {
    let rows = case_rows_of(a.annotations);
    let axes = axes_of(a.params);
    let ncase = case_param_count(a.params);
    if !rows_uniform(rows) {
        Err(ExpandErrorView::ArityMismatch)
    } else if rows.len() > 0 && rows[0].len() != ncase {
        Err(ExpandErrorView::ConflictingAnnotationArity)
    } else if rows.len() == 0 && ncase > 0 {
        Err(ExpandErrorView::ConflictingAnnotationArity)
    } else if !axes_nonempty(axes) {
        Err(ExpandErrorView::ConflictingAnnotationArity)
    } else {
        Ok(
            insts_upto(
                rows.len() > 0,
                rows_or_implicit(rows),
                axes,
                rows_or_implicit(rows).len() as int,
            ),
        )
    }
}

/// The instance count an expansion owes: max(1, number of case rows) times
/// the product of the value-list sizes.
pub open spec fn instance_count(a: AppliedSpecView) -> nat {
    rows_or_implicit(case_rows_of(a.annotations)).len() * axes_product(axes_of(a.params))
}

/// Law: the cross product is total.  A successful expansion emits exactly
/// max(1, #case rows) × (product of all value-list sizes) instances; an
/// empty value list is an error, never a zero-instance result.
pub proof fn lemma_cross_product_size(a: AppliedSpecView, insts: Seq<TestInstanceView>)
    requires
        expand_spec(a) == Ok::<Seq<TestInstanceView>, ExpandErrorView>(insts),
    ensures
        insts.len() == instance_count(a),
        instance_count(a) > 0,
{
    let rows = case_rows_of(a.annotations);
    let axes = axes_of(a.params);
    let rows0 = rows_or_implicit(rows);
    lemma_insts_upto_len(rows.len() > 0, rows0, axes, rows0.len() as int);
    lemma_axis_insts_len(axes);
    lemma_axes_product_positive(axes);
    assert(rows0.len() * axes_product(axes) > 0) by (nonlinear_arith)
        requires
            rows0.len() > 0,
            axes_product(axes) > 0,
    ;
}

/// A product of positive sizes is positive.
proof fn lemma_axes_product_positive(axes: Seq<AxisView>)
    requires
        axes_nonempty(axes),
    ensures
        axes_product(axes) > 0,
    decreases axes.len(),
{
    if axes.len() > 0 {
        assert(axes_nonempty(axes.drop_last())) by {
            assert(forall|k: int| 0 <= k < axes.len() - 1
                ==> axes.drop_last()[k] == axes[k]);
        }
        lemma_axes_product_positive(axes.drop_last());
        assert(axes.last().values.len() > 0);
        assert(axes_product(axes.drop_last()) * axes.last().values.len() > 0)
            by (nonlinear_arith)
            requires
                axes_product(axes.drop_last()) > 0,
                axes.last().values.len() > 0,
        ;
    }
}

/// Clones a vector of chosen values, keeping its view.
fn clone_chosen(v: &Vec<ChosenValue>) -> (r: Vec<ChosenValue>)
    ensures
        r.deep_view() == v.deep_view(),
{
    let mut r: Vec<ChosenValue> = Vec::new();
    let mut i: usize = 0;
    while i < v.len()
        invariant
            i <= v.len(),
            r.deep_view().len() == i,
            forall|k: int| 0 <= k < i ==> r.deep_view()[k] == v.deep_view()[k],
        decreases v.len() - i,
    {
        r.push(v[i].clone());
        i = i + 1;
    }
    proof {
        assert(r.deep_view() =~= v.deep_view());
    }
    r
}

/// One value-list axis, as collected from the parameters.
struct Axis {
    name: String,
    values: Vec<String>,
}

impl View for Axis {
    type V = AxisView;

    closed spec fn view(&self) -> AxisView {
        AxisView { name: self.name@, values: self.values.deep_view() }
    }
}

impl DeepView for Axis {
    type V = AxisView;

    closed spec fn deep_view(&self) -> AxisView {
        self.view()
    }
}

/// A partially built instance (see [`PartialView`]).
struct Partial {
    segs: Vec<String>,
    choices: Vec<ChosenValue>,
}

impl View for Partial {
    type V = PartialView;

    closed spec fn view(&self) -> PartialView {
        PartialView { segs: self.segs.deep_view(), choices: self.choices.deep_view() }
    }
}

impl DeepView for Partial {
    type V = PartialView;

    closed spec fn deep_view(&self) -> PartialView {
        self.view()
    }
}

/// The case rows among the function-level annotations.
fn collect_rows(annots: &Vec<crate::reuse::Annotation>) -> (r: Vec<Vec<String>>)
    ensures
        r.deep_view() == case_rows_of(annots.deep_view()),
{
    let ghost ag = annots.deep_view();
    let mut r: Vec<Vec<String>> = Vec::new();
    let n = annots.len();
    let mut i: usize = 0;
    proof {
        assert(ag.take(0) =~= Seq::<AnnotationView>::empty());
        assert(r.deep_view() =~= case_rows_of(ag.take(0)));
    }
    while i < n
        invariant
            i <= n,
            n == annots.len(),
            ag == annots.deep_view(),
            ag.len() == n,
            r.deep_view() == case_rows_of(ag.take(i as int)),
        decreases n - i,
    {
        proof {
            assert(ag.take(i as int + 1).drop_last() =~= ag.take(i as int));
            assert(ag.take(i as int + 1).last() == ag[i as int]);
        }
        let ghost rg = r.deep_view();
        match &annots[i] {
            crate::reuse::Annotation::CaseValue(es) => {
                let c = clone_strings(es);
                let ghost cg = c.deep_view();
                r.push(c);
                proof {
                    assert(r.deep_view() =~= rg.push(cg));
                }
            },
            _ => {},
        }
        i = i + 1;
    }
    proof {
        assert(ag.take(n as int) =~= ag);
    }
    r
}

/// Whether a parameter carries a case marker, by scan.
fn is_case_param_exec(p: &crate::reuse::ParameterSpec) -> (r: bool)
    ensures
        r == is_case_param(p@),
{
    let n = p.annotations.len();
    let mut i: usize = 0;
    while i < n
        invariant
            i <= n,
            n == p.annotations.len(),
            p@.annotations.len() == n,
            forall|k: int| 0 <= k < i
                ==> !((#[trigger] p@.annotations[k]) matches AnnotationView::CaseValue(_)),
        decreases n - i,
    {
        match &p.annotations[i] {
            crate::reuse::Annotation::CaseValue(_) => {
                proof {
                    assert(p@.annotations[i as int] matches AnnotationView::CaseValue(_));
                }
                return true;
            },
            _ => {},
        }
        i = i + 1;
    }
    false
}

/// How many parameters carry a case marker, by scan.
fn count_case_params(params: &Vec<crate::reuse::ParameterSpec>) -> (r: usize)
    ensures
        r as nat == case_param_count(params.deep_view()),
{
    let ghost pg = params.deep_view();
    let n = params.len();
    let mut count: usize = 0;
    let mut i: usize = 0;
    proof {
        assert(pg.take(0) =~= Seq::<ParameterSpecView>::empty());
    }
    while i < n
        invariant
            i <= n,
            n == params.len(),
            pg == params.deep_view(),
            pg.len() == n,
            count <= i,
            count as nat == case_param_count(pg.take(i as int)),
        decreases n - i,
    {
        proof {
            assert(pg.take(i as int + 1).drop_last() =~= pg.take(i as int));
            assert(pg.take(i as int + 1).last() == pg[i as int]);
        }
        if is_case_param_exec(&params[i]) {
            count = count + 1;
        }
        i = i + 1;
    }
    proof {
        assert(pg.take(n as int) =~= pg);
    }
    count
}

/// Every value-list axis, in parameter order then annotation order.
fn collect_axes(params: &Vec<crate::reuse::ParameterSpec>) -> (r: Vec<Axis>)
    ensures
        r.deep_view() == axes_of(params.deep_view()),
{
    let ghost pg = params.deep_view();
    let mut r: Vec<Axis> = Vec::new();
    let n = params.len();
    let mut i: usize = 0;
    proof {
        assert(pg.take(0) =~= Seq::<ParameterSpecView>::empty());
        assert(r.deep_view() =~= axes_of(pg.take(0)));
    }
    while i < n
        invariant
            i <= n,
            n == params.len(),
            pg == params.deep_view(),
            pg.len() == n,
            r.deep_view() == axes_of(pg.take(i as int)),
        decreases n - i,
    {
        proof {
            assert(pg.take(i as int + 1).drop_last() =~= pg.take(i as int));
            assert(pg.take(i as int + 1).last() == pg[i as int]);
        }
        let ghost base = r.deep_view();
        let p = &params[i];
        let na = p.annotations.len();
        let mut k: usize = 0;
        proof {
            assert(r.deep_view() =~= base + axes_of_param_upto(pg[i as int], 0));
        }
        while k < na
            invariant
                k <= na,
                i < n,
                n == params.len(),
                pg == params.deep_view(),
                na == params[i as int].annotations.len(),
                pg[i as int] == params.deep_view()[i as int],
                pg[i as int].annotations.len() == na,
                r.deep_view() == base + axes_of_param_upto(pg[i as int], k as int),
            decreases na - k,
        {
            let ghost rg = r.deep_view();
            match &params[i].annotations[k] {
                crate::reuse::Annotation::ValueList(vs) => {
                    let ax = Axis {
                        name: params[i].name.clone(),
                        values: clone_strings(vs),
                    };
                    let ghost axg = ax@;
                    r.push(ax);
                    proof {
                        assert(axg =~= AxisView {
                            name: pg[i as int].name,
                            values: pg[i as int].annotations[k as int]->ValueList_0,
                        });
                        assert(r.deep_view() =~= rg.push(axg));
                        assert(r.deep_view() =~= base + axes_of_param_upto(
                            pg[i as int],
                            k as int + 1,
                        ));
                    }
                },
                _ => {
                    proof {
                        assert(r.deep_view() =~= base + axes_of_param_upto(
                            pg[i as int],
                            k as int + 1,
                        ));
                    }
                },
            }
            k = k + 1;
        }
        proof {
            assert(axes_of_param(pg[i as int]) == axes_of_param_upto(pg[i as int], na as int));
            assert(r.deep_view() =~= axes_of(pg.take(i as int)) + axes_of_param(pg[i as int]));
            assert(r.deep_view() =~= axes_of(pg.take(i as int + 1)));
        }
        i = i + 1;
    }
    proof {
        assert(pg.take(n as int) =~= pg);
    }
    r
}

/// Expands an applied specification into its named test instances.
///
/// The instance set is the cartesian product of {case rows} × {each value
/// list}; with no case row exactly one implicit row is synthesized, and the
/// instance count is always max(1, #case rows) × the product of the
/// value-list sizes.  Rows of differing arity, rows that do not match the
/// case-marked parameters, and empty value lists are errors (see
/// [`expand_spec`]).
pub fn expand(applied: &AppliedSpec) -> (r: Result<Vec<TestInstance>, ExpandError>)
    ensures
        ({
            let eo = expand_spec(applied@);
            match r {
                Ok(v) => eo matches Ok(is_) && v.deep_view() == is_ && v.deep_view().len()
                    == instance_count(applied@),
                Err(x) => eo matches Err(e) && x@ == e,
            }
        }),
{
    let ghost rowsg = case_rows_of(applied@.annotations);
    let ghost axesg = axes_of(applied@.params);
    let rows = collect_rows(&applied.annotations);
    let axes = collect_axes(&applied.params);
    let ncase = count_case_params(&applied.params);

    // Case rows must share one arity.
    if rows.len() > 0 {
        let a0 = rows[0].len();
        let mut i: usize = 1;
        while i < rows.len()
            invariant
                1 <= i,
                rowsg == case_rows_of(applied@.annotations),
                rows.deep_view() == rowsg,
                rows.deep_view().len() == rows.len(),
                i <= rows.len(),
                rows.len() > 0,
                rowsg.len() > 0,
                a0 == rows[0].len(),
                a0 == rowsg[0].len(),
                forall|k: int| 0 <= k < i ==> (#[trigger] rowsg[k]).len() == rowsg[0].len(),
            decreases rows.len() - i,
        {
            if rows[i].len() != a0 {
                proof {
                    assert(rowsg[i as int].len() != rowsg[0].len());
                }
                return Err(ExpandError::ArityMismatch);
            }
            i = i + 1;
        }
        proof {
            assert(rows_uniform(rowsg));
        }
        // The common arity must match the case-marked parameters.
        if a0 != ncase {
            return Err(ExpandError::ConflictingAnnotationArity);
        }
    } else {
        proof {
            assert(rows_uniform(rowsg));
        }
        // Case-marked parameters without any row have nothing to bind.
        if ncase > 0 {
            return Err(ExpandError::ConflictingAnnotationArity);
        }
    }

    // No axis may be empty: an empty value list is an error, not a
    // zero-instance result.
    proof {
        assert(!(rowsg.len() > 0 && rowsg[0].len() != case_param_count(applied@.params)));
        assert(!(rowsg.len() == 0 && case_param_count(applied@.params) > 0));
    }
    let mut i: usize = 0;
    while i < axes.len()
        invariant
            i <= axes.len(),
            rowsg == case_rows_of(applied@.annotations),
            axesg == axes_of(applied@.params),
            rows_uniform(rowsg),
            !(rowsg.len() > 0 && rowsg[0].len() != case_param_count(applied@.params)),
            !(rowsg.len() == 0 && case_param_count(applied@.params) > 0),
            axes.deep_view() == axesg,
            axes.deep_view().len() == axes.len(),
            forall|k: int| 0 <= k < i ==> (#[trigger] axesg[k]).values.len() > 0,
        decreases axes.len() - i,
    {
        if axes[i].values.len() == 0 {
            proof {
                assert(axesg[i as int].values.len() == 0);
            }
            return Err(ExpandError::ConflictingAnnotationArity);
        }
        i = i + 1;
    }
    proof {
        assert(axes_nonempty(axesg));
    }

    // The cross product of the axes, leftmost slowest.
    let mut parts: Vec<Partial> = Vec::new();
    parts.push(Partial { segs: Vec::new(), choices: Vec::new() });
    proof {
        assert(axesg.take(0) =~= Seq::<AxisView>::empty());
        assert(parts.deep_view()[0] =~= PartialView {
            segs: Seq::empty(),
            choices: Seq::empty(),
        });
        assert(parts.deep_view() =~= axis_insts(axesg.take(0)));
    }
    let mut j: usize = 0;
    while j < axes.len()
        invariant
            j <= axes.len(),
            axes.deep_view() == axesg,
            axes.deep_view().len() == axes.len(),
            parts.deep_view() == axis_insts(axesg.take(j as int)),
        decreases axes.len() - j,
    {
        let ghost psg = parts.deep_view();
        let ghost axg = axesg[j as int];
        let ax = &axes[j];
        let mut newp: Vec<Partial> = Vec::new();
        let mut ci: usize = 0;
        proof {
            assert(psg.take(0) =~= Seq::<PartialView>::empty());
            assert(newp.deep_view() =~= extend_partials(psg.take(0), axg));
        }
        while ci < parts.len()
            invariant
                ci <= parts.len(),
                j < axes.len(),
                axes.deep_view() == axesg,
                axes.deep_view().len() == axes.len(),
                axg == axesg[j as int],
                axg == axes[j as int]@,
                parts.deep_view() == psg,
                parts.deep_view().len() == parts.len(),
                newp.deep_view() == extend_partials(psg.take(ci as int), axg),
            decreases parts.len() - ci,
        {
            let nv = axes[j].values.len();
            let mut v: usize = 0;
            proof {
                assert(one_partial(psg[ci as int], axg).take(0) =~= Seq::<PartialView>::empty());
                assert(newp.deep_view() =~= extend_partials(psg.take(ci as int), axg)
                    + one_partial(psg[ci as int], axg).take(0));
            }
            while v < nv
                invariant
                    v <= nv,
                    ci < parts.len(),
                    j < axes.len(),
                    axes.deep_view() == axesg,
                    axes.deep_view().len() == axes.len(),
                    nv == axes[j as int].values.len(),
                    axg == axesg[j as int],
                    axg == axes[j as int]@,
                    axg.values.len() == nv,
                    parts.deep_view() == psg,
                    parts.deep_view().len() == parts.len(),
                    newp.deep_view() == extend_partials(psg.take(ci as int), axg) + one_partial(
                        psg[ci as int],
                        axg,
                    ).take(v as int),
                decreases nv - v,
            {
                let ghost npg = newp.deep_view();
                let seg = axis_segment(axes[j].name.as_str(), v);
                let mut segs2 = clone_strings(&parts[ci].segs);
                segs2.push(seg);
                let mut ch2 = clone_chosen(&parts[ci].choices);
                ch2.push(
                    ChosenValue { param: axes[j].name.clone(), value: axes[j].values[v].clone() },
                );
                let np = Partial { segs: segs2, choices: ch2 };
                let ghost npv = np@;
                newp.push(np);
                proof {
                    assert(npv =~= one_partial(psg[ci as int], axg)[v as int]);
                    assert(newp.deep_view() =~= npg.push(npv));
                    assert(one_partial(psg[ci as int], axg).take(v as int + 1) =~= one_partial(
                        psg[ci as int],
                        axg,
                    ).take(v as int).push(one_partial(psg[ci as int], axg)[v as int]));
                    assert(newp.deep_view() =~= extend_partials(psg.take(ci as int), axg)
                        + one_partial(psg[ci as int], axg).take(v as int + 1));
                }
                v = v + 1;
            }
            proof {
                assert(one_partial(psg[ci as int], axg).take(nv as int) =~= one_partial(
                    psg[ci as int],
                    axg,
                ));
                assert(psg.take(ci as int + 1).drop_last() =~= psg.take(ci as int));
                assert(psg.take(ci as int + 1).last() == psg[ci as int]);
                assert(newp.deep_view() =~= extend_partials(psg.take(ci as int + 1), axg));
            }
            ci = ci + 1;
        }
        proof {
            assert(psg.take(parts.len() as int) =~= psg);
            assert(axesg.take(j as int + 1).drop_last() =~= axesg.take(j as int));
            assert(axesg.take(j as int + 1).last() == axesg[j as int]);
            assert(newp.deep_view() =~= axis_insts(axesg.take(j as int + 1)));
        }
        parts = newp;
        j = j + 1;
    }
    proof {
        assert(axesg.take(axes.len() as int) =~= axesg);
    }

    // One implicit row when none is declared.
    let has_rows = rows.len() > 0;
    let ghost rows0g = rows_or_implicit(rowsg);
    let mut rows_use = rows;
    if !has_rows {
        rows_use.push(Vec::new());
        proof {
            assert(rows_use.deep_view()[0] =~= Seq::<Seq<char>>::empty());
            assert(rows_use.deep_view() =~= rows0g);
        }
    }
    proof {
        assert(rows_use.deep_view() == rows0g);
    }

    // Emit the instances, row by row, axis combination by combination.
    let mut out: Vec<TestInstance> = Vec::new();
    let nr = rows_use.len();
    let mut r: usize = 0;
    proof {
        assert(out.deep_view() =~= insts_upto(has_rows, rows0g, axesg, 0));
    }
    while r < nr
        invariant
            r <= nr,
            nr == rows_use.len(),
            rows_use.deep_view() == rows0g,
            rows0g.len() == nr,
            parts.deep_view() == axis_insts(axesg),
            parts.deep_view().len() == parts.len(),
            out.deep_view() == insts_upto(has_rows, rows0g, axesg, r as int),
        decreases nr - r,
    {
        let np = parts.len();
        let mut ci: usize = 0;
        proof {
            assert(row_insts(has_rows, rows0g[r as int], r as int, axesg).take(0) =~= Seq::<
                TestInstanceView,
            >::empty());
            assert(out.deep_view() =~= insts_upto(has_rows, rows0g, axesg, r as int) + row_insts(
                has_rows,
                rows0g[r as int],
                r as int,
                axesg,
            ).take(0));
        }
        while ci < np
            invariant
                ci <= np,
                r < nr,
                nr == rows_use.len(),
                rows_use.deep_view() == rows0g,
                rows0g.len() == nr,
                np == parts.len(),
                parts.deep_view() == axis_insts(axesg),
                parts.deep_view().len() == np,
                out.deep_view() == insts_upto(has_rows, rows0g, axesg, r as int) + row_insts(
                    has_rows,
                    rows0g[r as int],
                    r as int,
                    axesg,
                ).take(ci as int),
            decreases np - ci,
        {
            let ghost outg = out.deep_view();
            let mut segs: Vec<String> = Vec::new();
            if has_rows {
                segs.push(case_segment(r));
            }
            let mut pclone = clone_strings(&parts[ci].segs);
            let ghost psegs = pclone.deep_view();
            segs.append(&mut pclone);
            proof {
                if has_rows {
                    assert(segs.deep_view() =~= seq![case_seg(r as int)] + parts.deep_view()[
                        ci as int
                    ].segs);
                } else {
                    assert(segs.deep_view() =~= Seq::<Seq<char>>::empty() + parts.deep_view()[
                        ci as int
                    ].segs);
                }
            }
            let name = join_segments(&segs);
            let inst = TestInstance {
                name,
                case_values: clone_strings(&rows_use[r]),
                value_choices: clone_chosen(&parts[ci].choices),
            };
            let ghost instg = inst@;
            out.push(inst);
            proof {
                assert(instg =~= mk_inst(
                    has_rows,
                    rows0g[r as int],
                    r as int,
                    parts.deep_view()[ci as int],
                ));
                assert(instg == row_insts(has_rows, rows0g[r as int], r as int, axesg)[ci as int]);
                assert(out.deep_view() =~= outg.push(instg));
                assert(row_insts(has_rows, rows0g[r as int], r as int, axesg).take(ci as int + 1)
                    =~= row_insts(has_rows, rows0g[r as int], r as int, axesg).take(
                    ci as int,
                ).push(row_insts(has_rows, rows0g[r as int], r as int, axesg)[ci as int]));
                assert(out.deep_view() =~= insts_upto(has_rows, rows0g, axesg, r as int)
                    + row_insts(has_rows, rows0g[r as int], r as int, axesg).take(ci as int + 1));
            }
            ci = ci + 1;
        }
        proof {
            assert(row_insts(has_rows, rows0g[r as int], r as int, axesg).take(np as int)
                =~= row_insts(has_rows, rows0g[r as int], r as int, axesg));
            assert(out.deep_view() =~= insts_upto(has_rows, rows0g, axesg, r as int + 1));
        }
        r = r + 1;
    }
    proof {
        lemma_cross_product_size(applied@, out.deep_view());
    }
    Ok(out)
}

} // verus!
