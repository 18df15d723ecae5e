//! The parser for the annotation mini-language.
//!
//! Grammar:
//! ```text
//! body        := itemList ( '::' modifierList )?
//! itemList    := item (',' item)* ','?
//! item        := fixtureCall | argumentAssignment
//! fixtureCall := identifier '(' exprList ')'
//! argumentAssignment := identifier '=' expr
//! modifierList := modifier ('::' modifier)*
//! modifier    := identifier | identifier '(' identList ')'
//! ```
//! Expressions are opaque fragments (see [`crate::text`]).  An empty body is
//! the empty parse, not an error.  A malformed expression fails its item
//! only: the parser runs to the end and aggregates those failures, while a
//! malformed structure (an unclosed bracket, a missing identifier) fails the
//! whole body.

use crate::errors::{ExpandError, ExpandErrorView};
use crate::exprs::{check_expr, is_valid_expr};
use crate::fixture::{
    ArgumentValue, ArgumentValueView, Attribute, AttributeView, Fixture, FixtureData, FixtureInfo,
    FixtureItem, FixtureItemView, FixtureModifiers, FixtureView,
};
use crate::text::{
    frag_end, ident_end, is_ident_start, is_ident_start_char, rtrim_end, scan_fragment, scan_ident,
    skip_spaces, space_end, trim_trailing, ScanMode,
};
use vstd::prelude::*;
use vstd::string::StrSliceExecFns;

verus! {

/// `x` clamped into `[lo, hi]`; the parsing equations use it so that every
/// position they pass on is visibly in range.
pub open spec fn within(lo: int, x: int, hi: int) -> int {
    if x < lo {
        lo
    } else if x > hi {
        hi
    } else {
        x
    }
}

/// Outcome of parsing a parenthesised expression list: the fragments and the
/// position just past the closing parenthesis.
pub struct FragsOut {
    pub frags: Seq<Seq<char>>,
    pub next: int,
}

/// Outcome of parsing a parenthesised identifier list.
pub struct IdentsOut {
    pub idents: Seq<Seq<char>>,
    pub next: int,
}

/// Outcome of parsing the item list: the well-formed items, the malformed
/// fragments in input order, the position where parsing stopped, and whether
/// it stopped at a `::` that introduces the modifier section.
pub struct ItemsOut {
    pub items: Seq<FixtureItemView>,
    pub errs: Seq<Seq<char>>,
    pub next: int,
    pub has_mods: bool,
}

/// Outcome of parsing a whole annotation body.
pub struct InfoOut {
    pub items: Seq<FixtureItemView>,
    pub errs: Seq<Seq<char>>,
    pub mods: Seq<AttributeView>,
}

/// Parses `exprList ')'` from `i` (just past the opening parenthesis).
/// `None` is a structural failure: an empty fragment or a missing `)`.
pub open spec fn parse_expr_list(s: Seq<char>, i: int) -> Option<FragsOut>
    decreases s.len() - i,
{
    let len = s.len() as int;
    let k = within(i, space_end(s, i), len);
    if k >= len {
        None
    } else if s[k] == ')' {
        Some(FragsOut { frags: Seq::empty(), next: k + 1 })
    } else {
        let e = within(k, frag_end(s, k, 0, false, ScanMode::Norm), len);
        let t = within(k, rtrim_end(s, k, e), e);
        if t == k {
            None
        } else {
            let frag = s.subrange(k, t);
            if e < len && s[e] == ',' {
                match parse_expr_list(s, e + 1) {
                    None => None,
                    Some(rest) => Some(
                        FragsOut { frags: seq![frag] + rest.frags, next: rest.next },
                    ),
                }
            } else if e < len && s[e] == ')' {
                Some(FragsOut { frags: seq![frag], next: e + 1 })
            } else {
                None
            }
        }
    }
}

/// Parses `identList ')'` from `i` (just past the opening parenthesis).
pub open spec fn parse_ident_list(s: Seq<char>, i: int) -> Option<IdentsOut>
    decreases s.len() - i,
{
    let len = s.len() as int;
    let k = within(i, space_end(s, i), len);
    if k >= len {
        None
    } else if s[k] == ')' {
        Some(IdentsOut { idents: Seq::empty(), next: k + 1 })
    } else if !is_ident_start_char(s[k]) {
        None
    } else {
        let ie = within(k, ident_end(s, k), len);
        let name = s.subrange(k, ie);
        let m = within(ie, space_end(s, ie), len);
        if m < len && s[m] == ',' {
            match parse_ident_list(s, m + 1) {
                None => None,
                Some(rest) => Some(
                    IdentsOut { idents: seq![name] + rest.idents, next: rest.next },
                ),
            }
        } else if m < len && s[m] == ')' {
            Some(IdentsOut { idents: seq![name], next: m + 1 })
        } else {
            None
        }
    }
}

/// Parses `modifier ('::' modifier)*` from `i` to the end of the input.
/// Nothing after the introducing `::` is the empty modifier list.
pub open spec fn parse_modifiers(s: Seq<char>, i: int) -> Option<Seq<AttributeView>>
    decreases s.len() - i,
{
    let len = s.len() as int;
    let k = within(i, space_end(s, i), len);
    if k >= len {
        Some(Seq::empty())
    } else if !is_ident_start_char(s[k]) {
        None
    } else {
        let ie = within(k, ident_end(s, k), len);
        let name = s.subrange(k, ie);
        let m = within(ie, space_end(s, ie), len);
        if m < len && s[m] == '(' {
            match parse_ident_list(s, m + 1) {
                None => None,
                Some(il) => {
                    let p = within(m + 1, il.next, len);
                    let q = within(p, space_end(s, p), len);
                    if q >= len {
                        Some(seq![AttributeView::Tagged(name, il.idents)])
                    } else if s[q] == ':' && q + 1 < len && s[q + 1] == ':' {
                        match parse_modifiers(s, q + 2) {
                            None => None,
                            Some(rest) => Some(
                                seq![AttributeView::Tagged(name, il.idents)] + rest,
                            ),
                        }
                    } else {
                        None
                    }
                },
            }
        } else {
            if m >= len {
                Some(seq![AttributeView::Attr(name)])
            } else if s[m] == ':' && m + 1 < len && s[m + 1] == ':' {
                match parse_modifiers(s, m + 2) {
                    None => None,
                    Some(rest) => Some(seq![AttributeView::Attr(name)] + rest),
                }
            } else {
                None
            }
        }
    }
}

/// Whether every fragment is a well-formed expression.
pub open spec fn all_frags_valid(frags: Seq<Seq<char>>) -> bool {
    forall|j: int| 0 <= j < frags.len() ==> is_valid_expr(#[trigger] frags[j])
}

/// The first fragment that is not a well-formed expression.
pub open spec fn first_invalid_frag(frags: Seq<Seq<char>>) -> Seq<char>
    decreases frags.len(),
{
    if frags.len() == 0 {
        Seq::empty()
    } else if !is_valid_expr(frags[0]) {
        frags[0]
    } else {
        first_invalid_frag(frags.drop_first())
    }
}

/// Parses the item list from `i`.  A malformed expression drops its item and
/// records the offending fragment; a malformed structure yields `None`.
pub open spec fn parse_items(s: Seq<char>, i: int) -> Option<ItemsOut>
    decreases s.len() - i, 1int,
{
    let len = s.len() as int;
    let k = within(i, space_end(s, i), len);
    if k >= len {
        Some(ItemsOut { items: Seq::empty(), errs: Seq::empty(), next: len, has_mods: false })
    } else if s[k] == ':' && k + 1 < len && s[k + 1] == ':' {
        Some(ItemsOut { items: Seq::empty(), errs: Seq::empty(), next: k + 2, has_mods: true })
    } else if !is_ident_start_char(s[k]) {
        None
    } else {
        let ie = within(k, ident_end(s, k), len);
        let name = s.subrange(k, ie);
        let m = within(ie, space_end(s, ie), len);
        if m < len && s[m] == '(' {
            match parse_expr_list(s, m + 1) {
                None => None,
                Some(fl) => {
                    let p = within(m + 1, fl.next, len);
                    match parse_after_item(s, p) {
                        None => None,
                        Some(rest) => {
                            if all_frags_valid(fl.frags) {
                                Some(
                                    ItemsOut {
                                        items: seq![
                                            FixtureItemView::Fixture(
                                                FixtureView { name: name, positional: fl.frags },
                                            ),
                                        ] + rest.items,
                                        errs: rest.errs,
                                        next: rest.next,
                                        has_mods: rest.has_mods,
                                    },
                                )
                            } else {
                                Some(
                                    ItemsOut {
                                        items: rest.items,
                                        errs: seq![first_invalid_frag(fl.frags)] + rest.errs,
                                        next: rest.next,
                                        has_mods: rest.has_mods,
                                    },
                                )
                            }
                        },
                    }
                },
            }
        } else if m < len && s[m] == '=' {
            let fs = within(m + 1, space_end(s, m + 1), len);
            let fe = within(fs, frag_end(s, fs, 0, true, ScanMode::Norm), len);
            let ft = within(fs, rtrim_end(s, fs, fe), fe);
            if ft == fs {
                None
            } else {
                let frag = s.subrange(fs, ft);
                match parse_after_item(s, fe) {
                    None => None,
                    Some(rest) => {
                        if is_valid_expr(frag) {
                            Some(
                                ItemsOut {
                                    items: seq![
                                        FixtureItemView::ArgumentValue(
                                            ArgumentValueView { name: name, expr: frag },
                                        ),
                                    ] + rest.items,
                                    errs: rest.errs,
                                    next: rest.next,
                                    has_mods: rest.has_mods,
                                },
                            )
                        } else {
                            Some(
                                ItemsOut {
                                    items: rest.items,
                                    errs: seq![frag] + rest.errs,
                                    next: rest.next,
                                    has_mods: rest.has_mods,
                                },
                            )
                        }
                    },
                }
            }
        } else {
            None
        }
    }
}

/// After one item: a `,` continues the list, a `::` opens the modifier
/// section, the end of the input closes the list.
pub open spec fn parse_after_item(s: Seq<char>, p: int) -> Option<ItemsOut>
    decreases s.len() - p, 0int,
{
    let len = s.len() as int;
    let q = within(p, space_end(s, p), len);
    if q >= len {
        Some(ItemsOut { items: Seq::empty(), errs: Seq::empty(), next: len, has_mods: false })
    } else if s[q] == ',' {
        parse_items(s, q + 1)
    } else if s[q] == ':' && q + 1 < len && s[q + 1] == ':' {
        Some(ItemsOut { items: Seq::empty(), errs: Seq::empty(), next: q + 2, has_mods: true })
    } else {
        None
    }
}

/// Parses a whole annotation body.  `None` is a structural failure.
pub open spec fn parse_fixture_info(s: Seq<char>) -> Option<InfoOut> {
    match parse_items(s, 0) {
        None => None,
        Some(io) => {
            if io.has_mods {
                let nb = within(0, io.next, s.len() as int);
                match parse_modifiers(s, nb) {
                    None => None,
                    Some(mods) => Some(InfoOut { items: io.items, errs: io.errs, mods: mods }),
                }
            } else {
                Some(InfoOut { items: io.items, errs: io.errs, mods: Seq::empty() })
            }
        },
    }
}

proof fn lemma_first_invalid(frags: Seq<Seq<char>>, i: int)
    requires
        0 <= i < frags.len(),
        forall|k: int| 0 <= k < i ==> is_valid_expr(#[trigger] frags[k]),
        !is_valid_expr(frags[i]),
    ensures
        first_invalid_frag(frags) == frags[i],
    decreases i,
{
    if i == 0 {
    } else {
        lemma_first_invalid(frags.drop_first(), i - 1);
    }
}

/// Index of the first fragment that is not a well-formed expression.
pub(crate) fn find_invalid(frags: &Vec<String>) -> (r: Option<usize>)
    ensures
        match r {
            None => all_frags_valid(frags.deep_view()),
            Some(i) => i < frags.len() && !is_valid_expr(frags.deep_view()[i as int])
                && frags.deep_view()[i as int] == first_invalid_frag(frags.deep_view()),
        },
{
    let mut i: usize = 0;
    while i < frags.len()
        invariant
            i <= frags.len(),
            frags.deep_view().len() == frags.len(),
            forall|k: int| 0 <= k < i ==> is_valid_expr(#[trigger] frags.deep_view()[k]),
        decreases frags.len() - i,
    {
        if !check_expr(frags[i].as_str()) {
            proof {
                lemma_first_invalid(frags.deep_view(), i as int);
            }
            return Some(i);
        }
        i = i + 1;
    }
    None
}

/// Parses `exprList ')'`, mirroring [`parse_expr_list`].
pub(crate) fn parse_expr_list_exec(s: &str, n: usize, i: usize) -> (r: Option<(Vec<String>, usize)>)
    requires
        n == s@.len(),
        i <= n,
    ensures
        ({
            let po = parse_expr_list(s@, i as int);
            match r {
                None => po is None,
                Some((frags, next)) => po matches Some(fl) && frags.deep_view() == fl.frags
                    && next as int == fl.next && i < next && next <= n,
            }
        }),
    decreases n - i,
{
    let k = skip_spaces(s, n, i);
    if k >= n {
        return None;
    }
    if s.get_char(k) == ')' {
        let out: Vec<String> = Vec::new();
        proof {
            assert(out.deep_view() =~= Seq::<Seq<char>>::empty());
        }
        return Some((out, k + 1));
    }
    let e = scan_fragment(s, n, k, false);
    let t = trim_trailing(s, k, e);
    if t == k {
        return None;
    }
    let frag = s.substring_char(k, t).to_owned();
    if e < n && s.get_char(e) == ',' {
        match parse_expr_list_exec(s, n, e + 1) {
            None => None,
            Some((rest, next)) => {
                let mut out: Vec<String> = Vec::new();
                out.push(frag);
                let mut restv = rest;
                let ghost restg = restv.deep_view();
                out.append(&mut restv);
                proof {
                    assert(out.deep_view() =~= seq![s@.subrange(k as int, t as int)] + restg);
                }
                Some((out, next))
            },
        }
    } else if e < n && s.get_char(e) == ')' {
        let mut out: Vec<String> = Vec::new();
        out.push(frag);
        proof {
            assert(out.deep_view() =~= seq![s@.subrange(k as int, t as int)]);
        }
        Some((out, e + 1))
    } else {
        None
    }
}

/// Parses `identList ')'`, mirroring [`parse_ident_list`].
fn parse_ident_list_exec(s: &str, n: usize, i: usize) -> (r: Option<(Vec<String>, usize)>)
    requires
        n == s@.len(),
        i <= n,
    ensures
        ({
            let po = parse_ident_list(s@, i as int);
            match r {
                None => po is None,
                Some((idents, next)) => po matches Some(il) && idents.deep_view() == il.idents
                    && next as int == il.next && i < next && next <= n,
            }
        }),
    decreases n - i,
{
    let k = skip_spaces(s, n, i);
    if k >= n {
        return None;
    }
    if s.get_char(k) == ')' {
        let out: Vec<String> = Vec::new();
        proof {
            assert(out.deep_view() =~= Seq::<Seq<char>>::empty());
        }
        return Some((out, k + 1));
    }
    if !is_ident_start(s.get_char(k)) {
        return None;
    }
    let ie = scan_ident(s, n, k);
    let name = s.substring_char(k, ie).to_owned();
    let m = skip_spaces(s, n, ie);
    if m < n && s.get_char(m) == ',' {
        match parse_ident_list_exec(s, n, m + 1) {
            None => None,
            Some((rest, next)) => {
                let mut out: Vec<String> = Vec::new();
                out.push(name);
                let mut restv = rest;
                let ghost restg = restv.deep_view();
                out.append(&mut restv);
                proof {
                    assert(out.deep_view() =~= seq![s@.subrange(k as int, ie as int)] + restg);
                }
                Some((out, next))
            },
        }
    } else if m < n && s.get_char(m) == ')' {
        let mut out: Vec<String> = Vec::new();
        out.push(name);
        proof {
            assert(out.deep_view() =~= seq![s@.subrange(k as int, ie as int)]);
        }
        Some((out, m + 1))
    } else {
        None
    }
}

/// Parses the modifier list, mirroring [`parse_modifiers`].
fn parse_modifiers_exec(s: &str, n: usize, i: usize) -> (r: Option<Vec<Attribute>>)
    requires
        n == s@.len(),
        i <= n,
    ensures
        ({
            let po = parse_modifiers(s@, i as int);
            match r {
                None => po is None,
                Some(mods) => po matches Some(ms) && mods.deep_view() == ms,
            }
        }),
    decreases n - i,
{
    let k = skip_spaces(s, n, i);
    if k >= n {
        let out: Vec<Attribute> = Vec::new();
        proof {
            assert(out.deep_view() =~= Seq::<AttributeView>::empty());
        }
        return Some(out);
    }
    if !is_ident_start(s.get_char(k)) {
        return None;
    }
    let ie = scan_ident(s, n, k);
    let name = s.substring_char(k, ie).to_owned();
    let m = skip_spaces(s, n, ie);
    if m < n && s.get_char(m) == '(' {
        match parse_ident_list_exec(s, n, m + 1) {
            None => None,
            Some((idents, p)) => {
                let attr = Attribute::Tagged(name, idents);
                let q = skip_spaces(s, n, p);
                if q >= n {
                    let mut out: Vec<Attribute> = Vec::new();
                    let ghost attrg = attr@;
                    out.push(attr);
                    proof {
                        assert(out.deep_view() =~= seq![attrg]);
                    }
                    Some(out)
                } else if s.get_char(q) == ':' && q + 1 < n && s.get_char(q + 1) == ':' {
                    match parse_modifiers_exec(s, n, q + 2) {
                        None => None,
                        Some(rest) => {
                            let mut out: Vec<Attribute> = Vec::new();
                            let ghost attrg = attr@;
                            out.push(attr);
                            let mut restv = rest;
                            let ghost restg = restv.deep_view();
                            out.append(&mut restv);
                            proof {
                                assert(out.deep_view() =~= seq![attrg] + restg);
                            }
                            Some(out)
                        },
                    }
                } else {
                    None
                }
            },
        }
    } else {
        let attr = Attribute::Attr(name);
        if m >= n {
            let mut out: Vec<Attribute> = Vec::new();
            let ghost attrg = attr@;
            out.push(attr);
            proof {
                assert(out.deep_view() =~= seq![attrg]);
            }
            Some(out)
        } else if s.get_char(m) == ':' && m + 1 < n && s.get_char(m + 1) == ':' {
            match parse_modifiers_exec(s, n, m + 2) {
                None => None,
                Some(rest) => {
                    let mut out: Vec<Attribute> = Vec::new();
                    let ghost attrg = attr@;
                    out.push(attr);
                    let mut restv = rest;
                    let ghost restg = restv.deep_view();
                    out.append(&mut restv);
                    proof {
                        assert(out.deep_view() =~= seq![attrg] + restg);
                    }
                    Some(out)
                },
            }
        } else {
            None
        }
    }
}

/// Exec-side accumulator matching [`ItemsOut`].
struct ItemsAcc {
    items: Vec<FixtureItem>,
    errs: Vec<String>,
    next: usize,
    has_mods: bool,
}

/// Parses the item list, mirroring [`parse_items`].
fn parse_items_exec(s: &str, n: usize, i: usize) -> (r: Option<ItemsAcc>)
    requires
        n == s@.len(),
        i <= n,
    ensures
        ({
            let po = parse_items(s@, i as int);
            match r {
                None => po is None,
                Some(acc) => po matches Some(io) && acc.items.deep_view() == io.items
                    && acc.errs.deep_view() == io.errs && acc.next as int == io.next && acc.next
                    <= n && acc.has_mods == io.has_mods,
            }
        }),
    decreases n - i, 1int,
{
    let k = skip_spaces(s, n, i);
    if k >= n {
        return Some(
            ItemsAcc { items: Vec::new(), errs: Vec::new(), next: n, has_mods: false },
        );
    }
    let c = s.get_char(k);
    if c == ':' && k + 1 < n && s.get_char(k + 1) == ':' {
        return Some(
            ItemsAcc { items: Vec::new(), errs: Vec::new(), next: k + 2, has_mods: true },
        );
    }
    if !is_ident_start(c) {
        return None;
    }
    let ie = scan_ident(s, n, k);
    let name = s.substring_char(k, ie).to_owned();
    let m = skip_spaces(s, n, ie);
    if m < n && s.get_char(m) == '(' {
        match parse_expr_list_exec(s, n, m + 1) {
            None => None,
            Some((frags, p)) => {
                match parse_after_item_exec(s, n, p) {
                    None => None,
                    Some(rest) => {
                        match find_invalid(&frags) {
                            None => {
                                let ghost fragsg = frags.deep_view();
                                let item = FixtureItem::Fixture(Fixture::new(name, frags));
                                let ghost itemg = item@;
                                let mut items: Vec<FixtureItem> = Vec::new();
                                items.push(item);
                                let mut restitems = rest.items;
                                let ghost restg = restitems.deep_view();
                                items.append(&mut restitems);
                                proof {
                                    assert(itemg =~= FixtureItemView::Fixture(
                                        FixtureView {
                                            name: s@.subrange(k as int, ie as int),
                                            positional: fragsg,
                                        },
                                    ));
                                    assert(items.deep_view() =~= seq![itemg] + restg);
                                }
                                Some(
                                    ItemsAcc {
                                        items,
                                        errs: rest.errs,
                                        next: rest.next,
                                        has_mods: rest.has_mods,
                                    },
                                )
                            },
                            Some(bad) => {
                                let mut errs: Vec<String> = Vec::new();
                                errs.push(frags[bad].clone());
                                let mut resterrs = rest.errs;
                                let ghost restg = resterrs.deep_view();
                                errs.append(&mut resterrs);
                                proof {
                                    assert(errs.deep_view() =~= seq![
                                        first_invalid_frag(frags.deep_view()),
                                    ] + restg);
                                }
                                Some(
                                    ItemsAcc {
                                        items: rest.items,
                                        errs,
                                        next: rest.next,
                                        has_mods: rest.has_mods,
                                    },
                                )
                            },
                        }
                    },
                }
            },
        }
    } else if m < n && s.get_char(m) == '=' {
        let fs = skip_spaces(s, n, m + 1);
        let fe = scan_fragment(s, n, fs, true);
        let ft = trim_trailing(s, fs, fe);
        if ft == fs {
            return None;
        }
        let frag = s.substring_char(fs, ft).to_owned();
        match parse_after_item_exec(s, n, fe) {
            None => None,
            Some(rest) => {
                if check_expr(frag.as_str()) {
                    let item = FixtureItem::ArgumentValue(ArgumentValue::new(name, frag));
                    let ghost itemg = item@;
                    let mut items: Vec<FixtureItem> = Vec::new();
                    items.push(item);
                    let mut restitems = rest.items;
                    let ghost restg = restitems.deep_view();
                    items.append(&mut restitems);
                    proof {
                        assert(itemg =~= FixtureItemView::ArgumentValue(
                            ArgumentValueView {
                                name: s@.subrange(k as int, ie as int),
                                expr: s@.subrange(fs as int, ft as int),
                            },
                        ));
                        assert(items.deep_view() =~= seq![itemg] + restg);
                    }
                    Some(
                        ItemsAcc {
                            items,
                            errs: rest.errs,
                            next: rest.next,
                            has_mods: rest.has_mods,
                        },
                    )
                } else {
                    let mut errs: Vec<String> = Vec::new();
                    errs.push(frag);
                    let mut resterrs = rest.errs;
                    let ghost restg = resterrs.deep_view();
                    errs.append(&mut resterrs);
                    proof {
                        assert(errs.deep_view() =~= seq![s@.subrange(fs as int, ft as int)]
                            + restg);
                    }
                    Some(
                        ItemsAcc {
                            items: rest.items,
                            errs,
                            next: rest.next,
                            has_mods: rest.has_mods,
                        },
                    )
                }
            },
        }
    } else {
        None
    }
}

/// Handles what follows one item, mirroring [`parse_after_item`].
fn parse_after_item_exec(s: &str, n: usize, p: usize) -> (r: Option<ItemsAcc>)
    requires
        n == s@.len(),
        p <= n,
    ensures
        ({
            let po = parse_after_item(s@, p as int);
            match r {
                None => po is None,
                Some(acc) => po matches Some(io) && acc.items.deep_view() == io.items
                    && acc.errs.deep_view() == io.errs && acc.next as int == io.next && acc.next
                    <= n && acc.has_mods == io.has_mods,
            }
        }),
    decreases n - p, 0int,
{
    let q = skip_spaces(s, n, p);
    if q >= n {
        Some(ItemsAcc { items: Vec::new(), errs: Vec::new(), next: n, has_mods: false })
    } else if s.get_char(q) == ',' {
        parse_items_exec(s, n, q + 1)
    } else if s.get_char(q) == ':' && q + 1 < n && s.get_char(q + 1) == ':' {
        Some(ItemsAcc { items: Vec::new(), errs: Vec::new(), next: q + 2, has_mods: true })
    } else {
        None
    }
}

impl FixtureInfo {
    /// Parses an annotation body.
    ///
    /// An empty body yields the empty parse.  A structurally malformed body
    /// yields one error holding the whole input; malformed expressions are
    /// aggregated, every item being tried before they are reported together.
    pub fn parse(input: &str) -> (r: Result<FixtureInfo, Vec<ExpandError>>)
        ensures
            ({
                let po = parse_fixture_info(input@);
                match po {
                    None => r matches Err(es) && es.deep_view() == seq![
                        ExpandErrorView::MalformedAnnotationExpression(input@),
                    ],
                    Some(o) => {
                        if o.errs.len() == 0 {
                            r matches Ok(info) && info@.data == o.items && info@.modifiers
                                == o.mods
                        } else {
                            r matches Err(es) && es.deep_view() == o.errs.map_values(
                                |e: Seq<char>| ExpandErrorView::MalformedAnnotationExpression(e),
                            )
                        }
                    },
                }
            }),
    {
        let n = input.unicode_len();
        match parse_items_exec(input, n, 0) {
            None => {
                let mut es: Vec<ExpandError> = Vec::new();
                es.push(ExpandError::MalformedAnnotationExpression(input.to_owned()));
                proof {
                    assert(es.deep_view() =~= seq![
                        ExpandErrorView::MalformedAnnotationExpression(input@),
                    ]);
                }
                Err(es)
            },
            Some(acc) => {
                let mods: Vec<Attribute> = if acc.has_mods {
                    match parse_modifiers_exec(input, n, acc.next) {
                        None => {
                            let mut es: Vec<ExpandError> = Vec::new();
                            es.push(ExpandError::MalformedAnnotationExpression(input.to_owned()));
                            proof {
                                assert(es.deep_view() =~= seq![
                                    ExpandErrorView::MalformedAnnotationExpression(input@),
                                ]);
                            }
                            return Err(es);
                        },
                        Some(m) => m,
                    }
                } else {
                    Vec::new()
                };
                if acc.errs.len() == 0 {
                    proof {
                        assert(acc.errs.deep_view() =~= Seq::<Seq<char>>::empty());
                        if !(parse_fixture_info(input@) matches Some(o) && o.errs.len() == 0) {
                            assert(false);
                        }
                    }
                    Ok(
                        FixtureInfo {
                            data: FixtureData { items: acc.items },
                            attributes: FixtureModifiers { attributes: mods },
                        },
                    )
                } else {
                    let ghost errsg = acc.errs.deep_view();
                    let mut es: Vec<ExpandError> = Vec::new();
                    let nerr = acc.errs.len();
                    let mut j: usize = 0;
                    while j < nerr
                        invariant
                            j <= nerr,
                            nerr == acc.errs.len(),
                            errsg == acc.errs.deep_view(),
                            errsg.len() == nerr,
                            es.deep_view().len() == j,
                            forall|t: int| 0 <= t < j
                                ==> es.deep_view()[t]
                                == ExpandErrorView::MalformedAnnotationExpression(
                                #[trigger] errsg[t],
                            ),
                        decreases nerr - j,
                    {
                        es.push(ExpandError::MalformedAnnotationExpression(acc.errs[j].clone()));
                        j = j + 1;
                    }
                    proof {
                        assert(es.deep_view() =~= errsg.map_values(
                            |e: Seq<char>| ExpandErrorView::MalformedAnnotationExpression(e),
                        ));
                    }
                    Err(es)
                }
            },
        }
    }
}

} // verus!
