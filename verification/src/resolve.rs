//! The fixture/value resolver.
//!
//! It walks a function's parameter list, parses each parameter's `with(...)`
//! and `default = expr` annotations into fixture bindings and value
//! overrides, strips those markers from the parameter, and leaves every other
//! annotation attached.  Every independent parse attempt runs to completion;
//! the failures are aggregated and reported together.

use crate::errors::{ExpandError, ExpandErrorView};
use crate::exprs::{check_expr, is_valid_expr};
use crate::fixture::{
    ArgumentValue, ArgumentValueView, Fixture, FixtureInfo, FixtureItem, FixtureItemView,
    FixtureView,
};
use crate::parse::{all_frags_valid, find_invalid, first_invalid_frag, parse_expr_list, within};
use crate::strutil::str_equal;
use crate::text::{frag_end, rtrim_end, scan_fragment, skip_spaces, space_end, trim_trailing,
    ScanMode};
use vstd::prelude::*;
use vstd::string::StrSliceExecFns;

verus! {

broadcast use vstd::string::group_string_axioms;

/// One surface annotation of a parameter: a marker name and its raw
/// argument text, e.g. `with` and `(vec![1,2], "s")`, or `default` and `= 2`.
#[derive(Debug)]
pub struct RawAttr {
    pub name: String,
    pub tokens: String,
}

/// The mathematical value of a [`RawAttr`].
#[verifier::ext_equal]
pub struct RawAttrView {
    pub name: Seq<char>,
    pub tokens: Seq<char>,
}

impl View for RawAttr {
    type V = RawAttrView;

    open spec fn view(&self) -> RawAttrView {
        RawAttrView { name: self.name@, tokens: self.tokens@ }
    }
}

impl DeepView for RawAttr {
    type V = RawAttrView;

    open spec fn deep_view(&self) -> RawAttrView {
        self.view()
    }
}

impl Clone for RawAttr {
    fn clone(&self) -> (r: Self)
        ensures
            r@ == self@,
    {
        RawAttr { name: self.name.clone(), tokens: self.tokens.clone() }
    }
}

/// One function parameter as the resolver sees it: its name and its surface
/// annotations.
#[derive(Debug)]
pub struct Param {
    pub name: String,
    pub attrs: Vec<RawAttr>,
}

/// The mathematical value of a [`Param`].
#[verifier::ext_equal]
pub struct ParamView {
    pub name: Seq<char>,
    pub attrs: Seq<RawAttrView>,
}

impl View for Param {
    type V = ParamView;

    open spec fn view(&self) -> ParamView {
        ParamView { name: self.name@, attrs: self.attrs.deep_view() }
    }
}

impl DeepView for Param {
    type V = ParamView;

    open spec fn deep_view(&self) -> ParamView {
        self.view()
    }
}

/// Whether an annotation is a fixture binding marker.
pub open spec fn is_with_attr(a: RawAttrView) -> bool {
    a.name == "with"@
}

/// Whether an annotation is a default-override marker.
pub open spec fn is_default_attr(a: RawAttrView) -> bool {
    a.name == "default"@
}

/// The annotations that stay on the parameter: neither binding nor override.
pub open spec fn kept_attrs(attrs: Seq<RawAttrView>) -> Seq<RawAttrView>
    decreases attrs.len(),
{
    if attrs.len() == 0 {
        Seq::empty()
    } else {
        let prev = kept_attrs(attrs.drop_last());
        let a = attrs.last();
        if !is_with_attr(a) && !is_default_attr(a) {
            prev.push(a)
        } else {
            prev
        }
    }
}

/// The fixture binding markers, in order.
pub open spec fn with_attrs(attrs: Seq<RawAttrView>) -> Seq<RawAttrView>
    decreases attrs.len(),
{
    if attrs.len() == 0 {
        Seq::empty()
    } else {
        let prev = with_attrs(attrs.drop_last());
        let a = attrs.last();
        if is_with_attr(a) {
            prev.push(a)
        } else {
            prev
        }
    }
}

/// The default-override markers, in order.
pub open spec fn default_attrs(attrs: Seq<RawAttrView>) -> Seq<RawAttrView>
    decreases attrs.len(),
{
    if attrs.len() == 0 {
        Seq::empty()
    } else {
        let prev = default_attrs(attrs.drop_last());
        let a = attrs.last();
        if is_default_attr(a) {
            prev.push(a)
        } else {
            prev
        }
    }
}

/// Parses the raw argument text of a binding marker: `'(' exprList ')'` and
/// nothing else.
pub open spec fn parse_with_tokens(t: Seq<char>) -> Option<Seq<Seq<char>>> {
    let len = t.len() as int;
    let k = within(0, space_end(t, 0), len);
    if k >= len || t[k] != '(' {
        None
    } else {
        match parse_expr_list(t, k + 1) {
            None => None,
            Some(fl) => {
                let p = within(k + 1, fl.next, len);
                let q = within(p, space_end(t, p), len);
                if q >= len {
                    Some(fl.frags)
                } else {
                    None
                }
            },
        }
    }
}

/// Parses the raw argument text of a default override: `'=' expr` where the
/// whole remainder is one fragment.
pub open spec fn parse_default_tokens(t: Seq<char>) -> Option<Seq<char>> {
    let len = t.len() as int;
    let k = within(0, space_end(t, 0), len);
    if k >= len || t[k] != '=' {
        None
    } else {
        let fs = within(k + 1, space_end(t, k + 1), len);
        let fe = within(fs, frag_end(t, fs, 0, false, ScanMode::Norm), len);
        let ft = within(fs, rtrim_end(t, fs, fe), fe);
        if ft == fs {
            None
        } else if fe < len {
            None
        } else {
            Some(t.subrange(fs, ft))
        }
    }
}

/// Resolution of the binding markers of one parameter: the fixture items it
/// yields and the failures it records, in marker order.
pub open spec fn resolve_withs(name: Seq<char>, ws: Seq<RawAttrView>) -> (Seq<FixtureItemView>,
    Seq<Seq<char>>)
    decreases ws.len(),
{
    if ws.len() == 0 {
        (Seq::empty(), Seq::empty())
    } else {
        let prev = resolve_withs(name, ws.drop_last());
        let w = ws.last();
        match parse_with_tokens(w.tokens) {
            None => (prev.0, prev.1.push(w.tokens)),
            Some(frags) => {
                if all_frags_valid(frags) {
                    (
                        prev.0.push(
                            FixtureItemView::Fixture(FixtureView { name: name, positional: frags }),
                        ),
                        prev.1,
                    )
                } else {
                    (prev.0, prev.1.push(first_invalid_frag(frags)))
                }
            },
        }
    }
}

/// Resolution of the default overrides of one parameter.
pub open spec fn resolve_defaults(name: Seq<char>, ds: Seq<RawAttrView>) -> (Seq<
    FixtureItemView,
>, Seq<Seq<char>>)
    decreases ds.len(),
{
    if ds.len() == 0 {
        (Seq::empty(), Seq::empty())
    } else {
        let prev = resolve_defaults(name, ds.drop_last());
        let d = ds.last();
        match parse_default_tokens(d.tokens) {
            None => (prev.0, prev.1.push(d.tokens)),
            Some(expr) => {
                if is_valid_expr(expr) {
                    (
                        prev.0.push(
                            FixtureItemView::ArgumentValue(
                                ArgumentValueView { name: name, expr: expr },
                            ),
                        ),
                        prev.1,
                    )
                } else {
                    (prev.0, prev.1.push(expr))
                }
            },
        }
    }
}

/// The complete resolution of one parameter: the annotations it keeps, the
/// items it contributes (bindings first, then overrides), and its failures.
pub struct ParamResolve {
    pub kept: Seq<RawAttrView>,
    pub items: Seq<FixtureItemView>,
    pub errs: Seq<Seq<char>>,
}

/// Resolves one parameter (see [`ParamResolve`]).
pub open spec fn resolve_param(p: ParamView) -> ParamResolve {
    let w = resolve_withs(p.name, with_attrs(p.attrs));
    let d = resolve_defaults(p.name, default_attrs(p.attrs));
    ParamResolve { kept: kept_attrs(p.attrs), items: w.0 + d.0, errs: w.1 + d.1 }
}

/// The complete resolution of a parameter list, in declaration order.
pub struct ParamsResolve {
    pub new_params: Seq<ParamView>,
    pub items: Seq<FixtureItemView>,
    pub errs: Seq<Seq<char>>,
}

/// Resolves every parameter; failures of one never stop the others.
pub open spec fn resolve_params(ps: Seq<ParamView>) -> ParamsResolve
    decreases ps.len(),
{
    if ps.len() == 0 {
        ParamsResolve { new_params: Seq::empty(), items: Seq::empty(), errs: Seq::empty() }
    } else {
        let prev = resolve_params(ps.drop_last());
        let r = resolve_param(ps.last());
        ParamsResolve {
            new_params: prev.new_params.push(ParamView { name: ps.last().name, attrs: r.kept }),
            items: prev.items + r.items,
            errs: prev.errs + r.errs,
        }
    }
}

/// Parses `'(' exprList ')'`, mirroring [`parse_with_tokens`].
fn parse_with_tokens_exec(t: &str) -> (r: Option<Vec<String>>)
    ensures
        ({
            let po = parse_with_tokens(t@);
            match r {
                None => po is None,
                Some(frags) => po matches Some(fs) && frags.deep_view() == fs,
            }
        }),
{
    let len = t.unicode_len();
    let k = skip_spaces(t, len, 0);
    if k >= len {
        return None;
    }
    if t.get_char(k) != '(' {
        return None;
    }
    match crate::parse::parse_expr_list_exec(t, len, k + 1) {
        None => None,
        Some((frags, p)) => {
            let q = skip_spaces(t, len, p);
            if q >= len {
                Some(frags)
            } else {
                None
            }
        },
    }
}

/// Parses `'=' expr`, mirroring [`parse_default_tokens`].
fn parse_default_tokens_exec(t: &str) -> (r: Option<String>)
    ensures
        ({
            let po = parse_default_tokens(t@);
            match r {
                None => po is None,
                Some(expr) => po matches Some(e) && expr@ == e,
            }
        }),
{
    let len = t.unicode_len();
    let k = skip_spaces(t, len, 0);
    if k >= len {
        return None;
    }
    if t.get_char(k) != '=' {
        return None;
    }
    let fs = skip_spaces(t, len, k + 1);
    let fe = scan_fragment(t, len, fs, false);
    let ft = trim_trailing(t, fs, fe);
    if ft == fs {
        None
    } else if fe < len {
        None
    } else {
        Some(t.substring_char(fs, ft).to_owned())
    }
}

impl FixtureInfo {
    /// Resolves the binding and override markers of every parameter into
    /// this store.
    ///
    /// Bindings and overrides join the item list (bindings first within each
    /// parameter), the markers are stripped from the parameter, and every
    /// other annotation stays.  Every parse attempt runs to completion; the
    /// failures are aggregated into one error list.
    pub fn extend(&mut self, params: &mut Vec<Param>) -> (r: Result<(), Vec<ExpandError>>)
        ensures
            ({
                let rr = resolve_params(old(params).deep_view());
                &&& final(self)@.data == old(self)@.data + rr.items
                &&& final(self)@.modifiers == old(self)@.modifiers
                &&& final(params).deep_view() == rr.new_params
                &&& if rr.errs.len() == 0 {
                    r is Ok
                } else {
                    r matches Err(es) && es.deep_view() == rr.errs.map_values(
                        |e: Seq<char>| ExpandErrorView::MalformedAnnotationExpression(e),
                    )
                }
            }),
    {
        let ghost ps0 = params.deep_view();
        let ghost data0 = self@.data;
        let ghost mods0 = self@.modifiers;
        let mut errs: Vec<String> = Vec::new();
        let n = params.len();
        let mut i: usize = 0;
        proof {
            assert(ps0.take(0) =~= Seq::<ParamView>::empty());
            assert(self@.data =~= data0 + resolve_params(ps0.take(0)).items);
            assert(errs.deep_view() =~= resolve_params(ps0.take(0)).errs);
            assert(params.deep_view().take(0) =~= resolve_params(ps0.take(0)).new_params);
        }
        while i < n
            invariant
                i <= n,
                n == params.len(),
                ps0.len() == n,
                forall|k: int| i <= k < n ==> params.deep_view()[k] == ps0[k],
                params.deep_view().take(i as int) == resolve_params(
                    ps0.take(i as int),
                ).new_params,
                self@.data == data0 + resolve_params(ps0.take(i as int)).items,
                self@.modifiers == mods0,
                errs.deep_view() == resolve_params(ps0.take(i as int)).errs,
            decreases n - i,
        {
            let ghost pg = ps0[i as int];
            let name = params[i].name.clone();
            proof {
                assert(params.deep_view()[i as int] == pg);
                assert(name@ == pg.name);
            }

            // Partition the surface annotations into bindings, overrides and
            // the annotations that stay.
            let mut kept: Vec<RawAttr> = Vec::new();
            let mut withs: Vec<RawAttr> = Vec::new();
            let mut defaults: Vec<RawAttr> = Vec::new();
            let na = params[i].attrs.len();
            let mut j: usize = 0;
            proof {
                reveal_strlit("with");
                reveal_strlit("default");
                assert(pg.attrs.take(0) =~= Seq::<RawAttrView>::empty());
                assert(kept.deep_view() =~= kept_attrs(pg.attrs.take(0)));
                assert(withs.deep_view() =~= with_attrs(pg.attrs.take(0)));
                assert(defaults.deep_view() =~= default_attrs(pg.attrs.take(0)));
            }
            while j < na
                invariant
                    j <= na,
                    i < n,
                    n == params.len(),
                    na == params[i as int].attrs.len(),
                    params.deep_view()[i as int] == pg,
                    pg.attrs.len() == na,
                    kept.deep_view() == kept_attrs(pg.attrs.take(j as int)),
                    withs.deep_view() == with_attrs(pg.attrs.take(j as int)),
                    defaults.deep_view() == default_attrs(pg.attrs.take(j as int)),
                decreases na - j,
            {
                let a = params[i].attrs[j].clone();
                proof {
                    reveal_strlit("with");
                    reveal_strlit("default");
                    assert("with"@.len() == 4);
                    assert("default"@.len() == 7);
                    assert("with"@ != "default"@);
                    assert(a@ == pg.attrs[j as int]);
                    assert(pg.attrs.take(j as int + 1).drop_last() =~= pg.attrs.take(j as int));
                    assert(pg.attrs.take(j as int + 1).last() == pg.attrs[j as int]);
                }
                let ghost keptg = kept.deep_view();
                let ghost withsg = withs.deep_view();
                let ghost defaultsg = defaults.deep_view();
                if str_equal(a.name.as_str(), "with") {
                    withs.push(a);
                    proof {
                        assert(withs.deep_view() =~= withsg.push(pg.attrs[j as int]));
                    }
                } else if str_equal(a.name.as_str(), "default") {
                    defaults.push(a);
                    proof {
                        assert(defaults.deep_view() =~= defaultsg.push(pg.attrs[j as int]));
                    }
                } else {
                    kept.push(a);
                    proof {
                        assert(kept.deep_view() =~= keptg.push(pg.attrs[j as int]));
                    }
                }
                j = j + 1;
            }
            proof {
                assert(pg.attrs.take(na as int) =~= pg.attrs);
            }

            // Resolve the bindings, aggregating failures.
            let mut items_here: Vec<FixtureItem> = Vec::new();
            let mut errs_here: Vec<String> = Vec::new();
            let nw = withs.len();
            let ghost withsg = withs.deep_view();
            let mut j: usize = 0;
            proof {
                assert(withsg.take(0) =~= Seq::<RawAttrView>::empty());
                assert(items_here.deep_view() =~= resolve_withs(pg.name, withsg.take(0)).0);
                assert(errs_here.deep_view() =~= resolve_withs(pg.name, withsg.take(0)).1);
            }
            while j < nw
                invariant
                    j <= nw,
                    nw == withs.len(),
                    withsg == withs.deep_view(),
                    withsg.len() == nw,
                    name@ == pg.name,
                    items_here.deep_view() == resolve_withs(pg.name, withsg.take(j as int)).0,
                    errs_here.deep_view() == resolve_withs(pg.name, withsg.take(j as int)).1,
                decreases nw - j,
            {
                proof {
                    assert(withsg.take(j as int + 1).drop_last() =~= withsg.take(j as int));
                    assert(withsg.take(j as int + 1).last() == withsg[j as int]);
                }
                let ghost itemsg = items_here.deep_view();
                let ghost errsg = errs_here.deep_view();
                match parse_with_tokens_exec(withs[j].tokens.as_str()) {
                    None => {
                        errs_here.push(withs[j].tokens.clone());
                        proof {
                            assert(errs_here.deep_view() =~= errsg.push(
                                withsg[j as int].tokens,
                            ));
                        }
                    },
                    Some(frags) => {
                        match find_invalid(&frags) {
                            None => {
                                let ghost fragsg = frags.deep_view();
                                let item = FixtureItem::Fixture(Fixture::new(name.clone(), frags));
                                proof {
                                    assert(item@ =~= FixtureItemView::Fixture(
                                        FixtureView { name: pg.name, positional: fragsg },
                                    ));
                                }
                                let ghost itemg = item@;
                                items_here.push(item);
                                proof {
                                    assert(items_here.deep_view() =~= itemsg.push(itemg));
                                }
                            },
                            Some(bad) => {
                                errs_here.push(frags[bad].clone());
                                proof {
                                    assert(errs_here.deep_view() =~= errsg.push(
                                        first_invalid_frag(frags.deep_view()),
                                    ));
                                }
                            },
                        }
                    },
                }
                j = j + 1;
            }
            proof {
                assert(withsg.take(nw as int) =~= withsg);
            }

            // Resolve the overrides, aggregating failures.
            let nd = defaults.len();
            let ghost defaultsg = defaults.deep_view();
            let ghost witemsg = items_here.deep_view();
            let ghost werrsg = errs_here.deep_view();
            let mut ditems: Vec<FixtureItem> = Vec::new();
            let mut derrs: Vec<String> = Vec::new();
            let mut j: usize = 0;
            proof {
                assert(defaultsg.take(0) =~= Seq::<RawAttrView>::empty());
                assert(ditems.deep_view() =~= resolve_defaults(pg.name, defaultsg.take(0)).0);
                assert(derrs.deep_view() =~= resolve_defaults(pg.name, defaultsg.take(0)).1);
            }
            while j < nd
                invariant
                    j <= nd,
                    nd == defaults.len(),
                    defaultsg == defaults.deep_view(),
                    defaultsg.len() == nd,
                    name@ == pg.name,
                    ditems.deep_view() == resolve_defaults(pg.name, defaultsg.take(j as int)).0,
                    derrs.deep_view() == resolve_defaults(pg.name, defaultsg.take(j as int)).1,
                decreases nd - j,
            {
                proof {
                    assert(defaultsg.take(j as int + 1).drop_last() =~= defaultsg.take(j as int));
                    assert(defaultsg.take(j as int + 1).last() == defaultsg[j as int]);
                }
                let ghost itemsg = ditems.deep_view();
                let ghost errsg = derrs.deep_view();
                match parse_default_tokens_exec(defaults[j].tokens.as_str()) {
                    None => {
                        derrs.push(defaults[j].tokens.clone());
                        proof {
                            assert(derrs.deep_view() =~= errsg.push(defaultsg[j as int].tokens));
                        }
                    },
                    Some(expr) => {
                        if check_expr(expr.as_str()) {
                            let ghost exprg = expr@;
                            let item = FixtureItem::ArgumentValue(
                                ArgumentValue::new(name.clone(), expr),
                            );
                            proof {
                                assert(item@ =~= FixtureItemView::ArgumentValue(
                                    ArgumentValueView { name: pg.name, expr: exprg },
                                ));
                            }
                            let ghost itemg = item@;
                            ditems.push(item);
                            proof {
                                assert(ditems.deep_view() =~= itemsg.push(itemg));
                            }
                        } else {
                            let ghost exprg = expr@;
                            derrs.push(expr);
                            proof {
                                assert(derrs.deep_view() =~= errsg.push(exprg));
                            }
                        }
                    },
                }
                j = j + 1;
            }
            proof {
                assert(defaultsg.take(nd as int) =~= defaultsg);
            }

            // Commit this parameter's contribution.
            let ghost selfdatag = self@.data;
            let ghost errsallg = errs.deep_view();
            let ghost ditemsg = ditems.deep_view();
            let ghost derrsg = derrs.deep_view();
            let mut items_move = items_here;
            self.data.items.append(&mut items_move);
            let mut ditems_move = ditems;
            self.data.items.append(&mut ditems_move);
            let mut errs_move = errs_here;
            errs.append(&mut errs_move);
            let mut derrs_move = derrs;
            errs.append(&mut derrs_move);
            let ghost oldparams = params.deep_view();
            params.set(i, Param { name, attrs: kept });
            proof {
                let pr = resolve_param(pg);
                assert(pr.items =~= witemsg + ditemsg);
                assert(pr.errs =~= werrsg + derrsg);
                assert(self@.data =~= selfdatag + pr.items);
                assert(errs.deep_view() =~= errsallg + pr.errs);
                assert(ps0.take(i as int + 1).drop_last() =~= ps0.take(i as int));
                assert(ps0.take(i as int + 1).last() == pg);
                let prev = resolve_params(ps0.take(i as int));
                let cur = resolve_params(ps0.take(i as int + 1));
                assert(cur.items =~= prev.items + pr.items);
                assert(cur.errs =~= prev.errs + pr.errs);
                assert(self@.data =~= data0 + cur.items);
                assert(errs.deep_view() =~= prev.errs + pr.errs);
                assert(params.deep_view()[i as int] =~= ParamView {
                    name: pg.name,
                    attrs: pr.kept,
                });
                assert(forall|k: int|
                    0 <= k < n && k != i ==> params.deep_view()[k] == oldparams[k]);
                assert(params.deep_view().take(i as int + 1) =~= oldparams.take(i as int).push(
                    params.deep_view()[i as int],
                ));
                assert(params.deep_view().take(i as int + 1) =~= cur.new_params);
            }
            i = i + 1;
        }
        proof {
            assert(ps0.take(n as int) =~= ps0);
            assert(params.deep_view().take(n as int) =~= params.deep_view());
        }
        if errs.len() == 0 {
            proof {
                assert(errs.deep_view() =~= Seq::<Seq<char>>::empty());
            }
            Ok(())
        } else {
            let ghost errsg = errs.deep_view();
            let mut es: Vec<ExpandError> = Vec::new();
            let nerr = errs.len();
            let mut j: usize = 0;
            while j < nerr
                invariant
                    j <= nerr,
                    nerr == errs.len(),
                    errsg == errs.deep_view(),
                    errsg.len() == nerr,
                    es.deep_view().len() == j,
                    forall|t: int| 0 <= t < j
                        ==> es.deep_view()[t] == ExpandErrorView::MalformedAnnotationExpression(
                        #[trigger] errsg[t],
                    ),
                decreases nerr - j,
            {
                es.push(ExpandError::MalformedAnnotationExpression(errs[j].clone()));
                j = j + 1;
            }
            proof {
                assert(es.deep_view() =~= errsg.map_values(
                    |e: Seq<char>| ExpandErrorView::MalformedAnnotationExpression(e),
                ));
            }
            Err(es)
        }
    }
}

/// The fixture calls among the items, in item order.
pub open spec fn fixtures_of(items: Seq<FixtureItemView>) -> Seq<FixtureView>
    decreases items.len(),
{
    if items.len() == 0 {
        Seq::empty()
    } else {
        let prev = fixtures_of(items.drop_last());
        match items.last() {
            FixtureItemView::Fixture(f) => prev.push(f),
            FixtureItemView::ArgumentValue(_) => prev,
        }
    }
}

/// The argument values among the items, in item order.
pub open spec fn values_of(items: Seq<FixtureItemView>) -> Seq<ArgumentValueView>
    decreases items.len(),
{
    if items.len() == 0 {
        Seq::empty()
    } else {
        let prev = values_of(items.drop_last());
        match items.last() {
            FixtureItemView::Fixture(_) => prev,
            FixtureItemView::ArgumentValue(v) => prev.push(v),
        }
    }
}

impl crate::fixture::FixtureData {
    /// The fixture-call view over the one ordered store: the items that are
    /// fixture calls, in insertion order.
    pub fn fixtures(&self) -> (r: Vec<Fixture>)
        ensures
            r.deep_view() == fixtures_of(self@),
    {
        let ghost itemsg = self@;
        let mut r: Vec<Fixture> = Vec::new();
        let n = self.items.len();
        let mut i: usize = 0;
        proof {
            assert(itemsg.take(0) =~= Seq::<FixtureItemView>::empty());
            assert(r.deep_view() =~= fixtures_of(itemsg.take(0)));
        }
        while i < n
            invariant
                i <= n,
                n == self.items.len(),
                itemsg == self@,
                itemsg.len() == n,
                r.deep_view() == fixtures_of(itemsg.take(i as int)),
            decreases n - i,
        {
            proof {
                assert(itemsg.take(i as int + 1).drop_last() =~= itemsg.take(i as int));
                assert(itemsg.take(i as int + 1).last() == itemsg[i as int]);
            }
            let ghost rg = r.deep_view();
            match &self.items[i] {
                FixtureItem::Fixture(f) => {
                    let c = f.clone();
                    let ghost cg = c@;
                    r.push(c);
                    proof {
                        assert(r.deep_view() =~= rg.push(cg));
                    }
                },
                FixtureItem::ArgumentValue(_) => {},
            }
            i = i + 1;
        }
        proof {
            assert(itemsg.take(n as int) =~= itemsg);
        }
        r
    }

    /// The argument-value view over the one ordered store: the items that
    /// are explicit values, in insertion order.
    pub fn values(&self) -> (r: Vec<ArgumentValue>)
        ensures
            r.deep_view() == values_of(self@),
    {
        let ghost itemsg = self@;
        let mut r: Vec<ArgumentValue> = Vec::new();
        let n = self.items.len();
        let mut i: usize = 0;
        proof {
            assert(itemsg.take(0) =~= Seq::<FixtureItemView>::empty());
            assert(r.deep_view() =~= values_of(itemsg.take(0)));
        }
        while i < n
            invariant
                i <= n,
                n == self.items.len(),
                itemsg == self@,
                itemsg.len() == n,
                r.deep_view() == values_of(itemsg.take(i as int)),
            decreases n - i,
        {
            proof {
                assert(itemsg.take(i as int + 1).drop_last() =~= itemsg.take(i as int));
                assert(itemsg.take(i as int + 1).last() == itemsg[i as int]);
            }
            let ghost rg = r.deep_view();
            match &self.items[i] {
                FixtureItem::Fixture(_) => {},
                FixtureItem::ArgumentValue(v) => {
                    let c = v.clone();
                    let ghost cg = c@;
                    r.push(c);
                    proof {
                        assert(r.deep_view() =~= rg.push(cg));
                    }
                },
            }
            i = i + 1;
        }
        proof {
            assert(itemsg.take(n as int) =~= itemsg);
        }
        r
    }
}

/// How many failures the parameters hold between them.
pub open spec fn total_errors(ps: Seq<ParamView>) -> nat
    decreases ps.len(),
{
    if ps.len() == 0 {
        0
    } else {
        total_errors(ps.drop_last()) + resolve_param(ps.last()).errs.len()
    }
}

/// Law: resolution is exhaustive, never fail-fast.  The aggregated error
/// list holds every parameter's failures: its length is the sum over all
/// parameters, so no failure hides an earlier or later one.
pub proof fn lemma_resolver_exhausts(ps: Seq<ParamView>)
    ensures
        resolve_params(ps).errs.len() == total_errors(ps),
    decreases ps.len(),
{
    if ps.len() > 0 {
        lemma_resolver_exhausts(ps.drop_last());
    }
}

/// Law: two parameters, each with one malformed expression, yield exactly
/// two reported errors.
pub proof fn lemma_error_aggregation(ps: Seq<ParamView>)
    requires
        ps.len() == 2,
        resolve_param(ps[0]).errs.len() == 1,
        resolve_param(ps[1]).errs.len() == 1,
    ensures
        resolve_params(ps).errs.len() == 2,
{
    lemma_resolver_exhausts(ps);
    assert(ps.drop_last().drop_last() =~= Seq::<ParamView>::empty());
    assert(ps.drop_last().last() == ps[0]);
    assert(ps.last() == ps[1]);
    assert(total_errors(Seq::<ParamView>::empty()) == 0);
    assert(total_errors(ps.drop_last()) == total_errors(ps.drop_last().drop_last())
        + resolve_param(ps.drop_last().last()).errs.len());
    assert(total_errors(ps) == total_errors(ps.drop_last()) + resolve_param(ps.last()).errs.len());
}

} // verus!
