//! The structured model of a fixture annotation body.
//!
//! An annotation body such as `my_fixture(42, "other"), value = 42 :: trace`
//! is a list of items — fixture calls and argument assignments — optionally
//! followed, after `::`, by a list of modifiers.  Expressions stay opaque:
//! each is kept as the exact text of its fragment.

use crate::strutil::{clone_strings, str_equal, string_vecs_equal};
use vstd::string::StrSliceExecFns;
use vstd::prelude::*;

verus! {

/// One `name(expr, ...)` item: positional arguments for the fixture `name`.
#[derive(Debug)]
pub struct Fixture {
    pub name: String,
    pub positional: Vec<String>,
}

/// The mathematical value of a [`Fixture`].
#[verifier::ext_equal]
pub struct FixtureView {
    pub name: Seq<char>,
    pub positional: Seq<Seq<char>>,
}

impl View for Fixture {
    type V = FixtureView;

    open spec fn view(&self) -> FixtureView {
        FixtureView { name: self.name@, positional: self.positional.deep_view() }
    }
}

impl DeepView for Fixture {
    type V = FixtureView;

    open spec fn deep_view(&self) -> FixtureView {
        self.view()
    }
}

impl Fixture {
    /// Builds a fixture item from its name and positional argument fragments.
    pub fn new(name: String, positional: Vec<String>) -> (r: Fixture)
        ensures
            r@.name == name@,
            r@.positional == positional.deep_view(),
    {
        Fixture { name, positional }
    }
}

impl Clone for Fixture {
    fn clone(&self) -> (r: Self)
        ensures
            r@ == self@,
    {
        Fixture { name: self.name.clone(), positional: clone_strings(&self.positional) }
    }
}

impl PartialEq for Fixture {
    fn eq(&self, other: &Fixture) -> (r: bool)
        ensures
            r == (self@ == other@),
    {
        let r = str_equal(self.name.as_str(), other.name.as_str()) && string_vecs_equal(
            &self.positional,
            &other.positional,
        );
        proof {
            if r {
                assert(self@ =~= other@);
            }
        }
        r
    }
}

impl vstd::std_specs::cmp::PartialEqSpecImpl for Fixture {
    open spec fn obeys_eq_spec() -> bool {
        true
    }

    open spec fn eq_spec(&self, other: &Fixture) -> bool {
        self@ == other@
    }
}

/// One `name = expr` item: an explicit value for the argument `name`.
#[derive(Debug)]
pub struct ArgumentValue {
    pub name: String,
    pub expr: String,
}

/// The mathematical value of an [`ArgumentValue`].
#[verifier::ext_equal]
pub struct ArgumentValueView {
    pub name: Seq<char>,
    pub expr: Seq<char>,
}

impl View for ArgumentValue {
    type V = ArgumentValueView;

    open spec fn view(&self) -> ArgumentValueView {
        ArgumentValueView { name: self.name@, expr: self.expr@ }
    }
}

impl DeepView for ArgumentValue {
    type V = ArgumentValueView;

    open spec fn deep_view(&self) -> ArgumentValueView {
        self.view()
    }
}

impl ArgumentValue {
    /// Builds an argument value from its name and expression fragment.
    pub fn new(name: String, expr: String) -> (r: ArgumentValue)
        ensures
            r@.name == name@,
            r@.expr == expr@,
    {
        ArgumentValue { name, expr }
    }
}

impl Clone for ArgumentValue {
    fn clone(&self) -> (r: Self)
        ensures
            r@ == self@,
    {
        ArgumentValue { name: self.name.clone(), expr: self.expr.clone() }
    }
}

impl PartialEq for ArgumentValue {
    fn eq(&self, other: &ArgumentValue) -> (r: bool)
        ensures
            r == (self@ == other@),
    {
        let r = str_equal(self.name.as_str(), other.name.as_str()) && str_equal(
            self.expr.as_str(),
            other.expr.as_str(),
        );
        proof {
            if r {
                assert(self@ =~= other@);
            }
        }
        r
    }
}

impl vstd::std_specs::cmp::PartialEqSpecImpl for ArgumentValue {
    open spec fn obeys_eq_spec() -> bool {
        true
    }

    open spec fn eq_spec(&self, other: &ArgumentValue) -> bool {
        self@ == other@
    }
}

/// One item of the annotation body.
#[derive(Debug)]
pub enum FixtureItem {
    Fixture(Fixture),
    ArgumentValue(ArgumentValue),
}

/// The mathematical value of a [`FixtureItem`].
#[verifier::ext_equal]
pub enum FixtureItemView {
    Fixture(FixtureView),
    ArgumentValue(ArgumentValueView),
}

impl View for FixtureItem {
    type V = FixtureItemView;

    open spec fn view(&self) -> FixtureItemView {
        match self {
            FixtureItem::Fixture(f) => FixtureItemView::Fixture(f@),
            FixtureItem::ArgumentValue(v) => FixtureItemView::ArgumentValue(v@),
        }
    }
}

impl DeepView for FixtureItem {
    type V = FixtureItemView;

    open spec fn deep_view(&self) -> FixtureItemView {
        self.view()
    }
}

impl FixtureItem {
    /// The parameter or fixture name the item is keyed by.
    pub fn ident(&self) -> (r: &String)
        ensures
            r@ == (match self@ {
                FixtureItemView::Fixture(f) => f.name,
                FixtureItemView::ArgumentValue(v) => v.name,
            }),
    {
        match self {
            FixtureItem::Fixture(f) => &f.name,
            FixtureItem::ArgumentValue(v) => &v.name,
        }
    }
}

impl Clone for FixtureItem {
    fn clone(&self) -> (r: Self)
        ensures
            r@ == self@,
    {
        match self {
            FixtureItem::Fixture(f) => FixtureItem::Fixture(f.clone()),
            FixtureItem::ArgumentValue(v) => FixtureItem::ArgumentValue(v.clone()),
        }
    }
}

impl PartialEq for FixtureItem {
    fn eq(&self, other: &FixtureItem) -> (r: bool)
        ensures
            r == (self@ == other@),
    {
        match (self, other) {
            (FixtureItem::Fixture(a), FixtureItem::Fixture(b)) => a == b,
            (FixtureItem::ArgumentValue(a), FixtureItem::ArgumentValue(b)) => a == b,
            _ => false,
        }
    }
}

impl vstd::std_specs::cmp::PartialEqSpecImpl for FixtureItem {
    open spec fn obeys_eq_spec() -> bool {
        true
    }

    open spec fn eq_spec(&self, other: &FixtureItem) -> bool {
        self@ == other@
    }
}

/// The ordered store of parsed items.
///
/// Fixture calls and argument values share one list so that insertion order
/// is preserved across both of the filtered projections
/// ([`FixtureData::fixtures`] and [`FixtureData::values`]).
#[derive(Debug)]
pub struct FixtureData {
    pub items: Vec<FixtureItem>,
}

impl View for FixtureData {
    type V = Seq<FixtureItemView>;

    open spec fn view(&self) -> Seq<FixtureItemView> {
        self.items.deep_view()
    }
}

impl DeepView for FixtureData {
    type V = Seq<FixtureItemView>;

    open spec fn deep_view(&self) -> Seq<FixtureItemView> {
        self.view()
    }
}

impl PartialEq for FixtureData {
    fn eq(&self, other: &FixtureData) -> (r: bool)
        ensures
            r == (self@ == other@),
    {
        if self.items.len() != other.items.len() {
            assert(self@.len() != other@.len());
            return false;
        }
        let n = self.items.len();
        let mut i: usize = 0;
        while i < n
            invariant
                n == self.items.len() == other.items.len(),
                self@.len() == n && other@.len() == n,
                i <= n,
                forall|k: int| 0 <= k < i ==> self@[k] == other@[k],
            decreases n - i,
        {
            if !(self.items[i] == other.items[i]) {
                assert(self@[i as int] != other@[i as int]);
                return false;
            }
            i = i + 1;
        }
        proof {
            assert(self@ =~= other@);
        }
        true
    }
}

impl vstd::std_specs::cmp::PartialEqSpecImpl for FixtureData {
    open spec fn obeys_eq_spec() -> bool {
        true
    }

    open spec fn eq_spec(&self, other: &FixtureData) -> bool {
        self@ == other@
    }
}

/// One modifier of the annotation body, after the `::` separator.
#[derive(Debug)]
pub enum Attribute {
    /// A bare flag, e.g. `trace`.
    Attr(String),
    /// A tagged flag with identifier arguments, e.g. `no_trace(some)`.
    Tagged(String, Vec<String>),
    /// A named type annotation, e.g. a declared return type.
    Type(String, String),
}

/// The mathematical value of an [`Attribute`].
#[verifier::ext_equal]
pub enum AttributeView {
    Attr(Seq<char>),
    Tagged(Seq<char>, Seq<Seq<char>>),
    Type(Seq<char>, Seq<char>),
}

impl View for Attribute {
    type V = AttributeView;

    open spec fn view(&self) -> AttributeView {
        match self {
            Attribute::Attr(n) => AttributeView::Attr(n@),
            Attribute::Tagged(n, args) => AttributeView::Tagged(n@, args.deep_view()),
            Attribute::Type(n, t) => AttributeView::Type(n@, t@),
        }
    }
}

impl DeepView for Attribute {
    type V = AttributeView;

    open spec fn deep_view(&self) -> AttributeView {
        self.view()
    }
}

impl Clone for Attribute {
    fn clone(&self) -> (r: Self)
        ensures
            r@ == self@,
    {
        match self {
            Attribute::Attr(n) => Attribute::Attr(n.clone()),
            Attribute::Tagged(n, args) => Attribute::Tagged(n.clone(), clone_strings(args)),
            Attribute::Type(n, t) => Attribute::Type(n.clone(), t.clone()),
        }
    }
}

impl PartialEq for Attribute {
    fn eq(&self, other: &Attribute) -> (r: bool)
        ensures
            r == (self@ == other@),
    {
        match (self, other) {
            (Attribute::Attr(a), Attribute::Attr(b)) => str_equal(a.as_str(), b.as_str()),
            (Attribute::Tagged(a, x), Attribute::Tagged(b, y)) => {
                let r = str_equal(a.as_str(), b.as_str()) && string_vecs_equal(x, y);
                r
            },
            (Attribute::Type(a, x), Attribute::Type(b, y)) => {
                str_equal(a.as_str(), b.as_str()) && str_equal(x.as_str(), y.as_str())
            },
            _ => false,
        }
    }
}

impl vstd::std_specs::cmp::PartialEqSpecImpl for Attribute {
    open spec fn obeys_eq_spec() -> bool {
        true
    }

    open spec fn eq_spec(&self, other: &Attribute) -> bool {
        self@ == other@
    }
}

/// The modifier section of an annotation body.
#[derive(Debug)]
pub struct FixtureModifiers {
    pub attributes: Vec<Attribute>,
}

impl View for FixtureModifiers {
    type V = Seq<AttributeView>;

    open spec fn view(&self) -> Seq<AttributeView> {
        self.attributes.deep_view()
    }
}

impl DeepView for FixtureModifiers {
    type V = Seq<AttributeView>;

    open spec fn deep_view(&self) -> Seq<AttributeView> {
        self.view()
    }
}

impl PartialEq for FixtureModifiers {
    fn eq(&self, other: &FixtureModifiers) -> (r: bool)
        ensures
            r == (self@ == other@),
    {
        if self.attributes.len() != other.attributes.len() {
            assert(self@.len() != other@.len());
            return false;
        }
        let n = self.attributes.len();
        let mut i: usize = 0;
        while i < n
            invariant
                n == self.attributes.len() == other.attributes.len(),
                self@.len() == n && other@.len() == n,
                i <= n,
                forall|k: int| 0 <= k < i ==> self@[k] == other@[k],
            decreases n - i,
        {
            if !(self.attributes[i] == other.attributes[i]) {
                assert(self@[i as int] != other@[i as int]);
                return false;
            }
            i = i + 1;
        }
        proof {
            assert(self@ =~= other@);
        }
        true
    }
}

impl vstd::std_specs::cmp::PartialEqSpecImpl for FixtureModifiers {
    open spec fn obeys_eq_spec() -> bool {
        true
    }

    open spec fn eq_spec(&self, other: &FixtureModifiers) -> bool {
        self@ == other@
    }
}

/// The complete parse of one annotation body: items and modifiers.
#[derive(Debug)]
pub struct FixtureInfo {
    pub data: FixtureData,
    pub attributes: FixtureModifiers,
}

/// The mathematical value of a [`FixtureInfo`].
#[verifier::ext_equal]
pub struct FixtureInfoView {
    pub data: Seq<FixtureItemView>,
    pub modifiers: Seq<AttributeView>,
}

impl View for FixtureInfo {
    type V = FixtureInfoView;

    open spec fn view(&self) -> FixtureInfoView {
        FixtureInfoView { data: self.data@, modifiers: self.attributes@ }
    }
}

impl DeepView for FixtureInfo {
    type V = FixtureInfoView;

    open spec fn deep_view(&self) -> FixtureInfoView {
        self.view()
    }
}

impl PartialEq for FixtureInfo {
    fn eq(&self, other: &FixtureInfo) -> (r: bool)
        ensures
            r == (self@ == other@),
    {
        let r = self.data == other.data && self.attributes == other.attributes;
        proof {
            if r {
                assert(self@ =~= other@);
            }
        }
        r
    }
}

impl vstd::std_specs::cmp::PartialEqSpecImpl for FixtureInfo {
    open spec fn obeys_eq_spec() -> bool {
        true
    }

    open spec fn eq_spec(&self, other: &FixtureInfo) -> bool {
        self@ == other@
    }
}

impl FixtureInfo {
    /// The empty parse: no items, no modifiers.
    pub fn empty() -> (r: FixtureInfo)
        ensures
            r@.data.len() == 0,
            r@.modifiers.len() == 0,
    {
        FixtureInfo {
            data: FixtureData { items: Vec::new() },
            attributes: FixtureModifiers { attributes: Vec::new() },
        }
    }
}

/// The text of the first `Type` modifier bearing the given name, if any.
pub open spec fn find_type_attr(s: Seq<AttributeView>, name: Seq<char>) -> Option<Seq<char>>
    decreases s.len(),
{
    if s.len() == 0 {
        None
    } else if s[0] matches AttributeView::Type(n, _) && s[0]->Type_0 == name {
        Some(s[0]->Type_1)
    } else {
        find_type_attr(s.drop_first(), name)
    }
}

proof fn lemma_find_type_attr_hit(s: Seq<AttributeView>, name: Seq<char>, i: int)
    requires
        0 <= i < s.len(),
        s[i] matches AttributeView::Type(n, _) && s[i]->Type_0 == name,
        forall|k: int| 0 <= k < i
            ==> !((#[trigger] s[k]) matches AttributeView::Type(n, _) && s[k]->Type_0 == name),
    ensures
        find_type_attr(s, name) == Some(s[i]->Type_1),
    decreases i,
{
    if i > 0 {
        lemma_find_type_attr_hit(s.drop_first(), name, i - 1);
    }
}

proof fn lemma_find_type_attr_miss(s: Seq<AttributeView>, name: Seq<char>)
    requires
        forall|k: int| 0 <= k < s.len()
            ==> !((#[trigger] s[k]) matches AttributeView::Type(n, _) && s[k]->Type_0 == name),
    ensures
        find_type_attr(s, name) is None,
    decreases s.len(),
{
    if s.len() > 0 {
        lemma_find_type_attr_miss(s.drop_first(), name);
    }
}

impl FixtureModifiers {
    /// The first declared-type modifier with the given name, if any.
    fn extract_type(&self, attr_name: &str) -> (r: Option<String>)
        ensures
            ({
                let ft = find_type_attr(self@, attr_name@);
                match r {
                    None => ft is None,
                    Some(t) => ft == Some(t@),
                }
            }),
    {
        let n = self.attributes.len();
        let mut i: usize = 0;
        while i < n
            invariant
                i <= n,
                n == self.attributes.len(),
                self@.len() == n,
                forall|k: int| 0 <= k < i
                    ==> !((#[trigger] self@[k]) matches AttributeView::Type(nm, _)
                    && self@[k]->Type_0 == attr_name@),
            decreases n - i,
        {
            match &self.attributes[i] {
                Attribute::Type(nm, t) => {
                    if str_equal(nm.as_str(), attr_name) {
                        proof {
                            lemma_find_type_attr_hit(self@, attr_name@, i as int);
                        }
                        return Some(t.clone());
                    }
                },
                _ => {},
            }
            i = i + 1;
        }
        proof {
            lemma_find_type_attr_miss(self@, attr_name@);
        }
        None
    }

    /// The declared default return type, if any.
    pub fn extract_default_type(&self) -> (r: Option<String>)
        ensures
            ({
                let ft = find_type_attr(self@, "default"@);
                match r {
                    None => ft is None,
                    Some(t) => ft == Some(t@),
                }
            }),
    {
        self.extract_type("default")
    }

    /// The declared type of the `pos`-th partial application, if any.
    pub fn extract_partial_type(&self, pos: usize) -> (r: Option<String>)
        ensures
            ({
                let ft = find_type_attr(self@, "partial_"@ + crate::names::dec_str(pos as nat));
                match r {
                    None => ft is None,
                    Some(t) => ft == Some(t@),
                }
            }),
    {
        let mut name = "partial_".to_owned();
        let d = crate::names::usize_to_dec(pos);
        name.append(d.as_str());
        self.extract_type(name.as_str())
    }
}

} // verus!
