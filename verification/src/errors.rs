//! Errors surfaced while parsing, resolving, merging and expanding.

use vstd::prelude::*;

verus! {

/// One user-visible error.
///
/// Expression errors are aggregated (every independent parse attempt runs to
/// completion before they are reported together); the other kinds are fatal
/// at the point they arise.
#[derive(Debug)]
pub enum ExpandError {
    /// An item's expression fragment does not parse; holds the fragment text.
    MalformedAnnotationExpression(String),
    /// Case rows of one function have differing lengths.
    ArityMismatch,
    /// Case rows or value lists do not agree with the declared parameters,
    /// or a value list is empty.
    ConflictingAnnotationArity,
    /// An application names a template that is not visible; holds the name.
    UndefinedTemplate(String),
    /// A template name is already taken in its scope; holds the name.
    DuplicateTemplateName(String),
}

/// The mathematical value of an [`ExpandError`].
#[verifier::ext_equal]
pub enum ExpandErrorView {
    MalformedAnnotationExpression(Seq<char>),
    ArityMismatch,
    ConflictingAnnotationArity,
    UndefinedTemplate(Seq<char>),
    DuplicateTemplateName(Seq<char>),
}

impl View for ExpandError {
    type V = ExpandErrorView;

    open spec fn view(&self) -> ExpandErrorView {
        match self {
            ExpandError::MalformedAnnotationExpression(s) => {
                ExpandErrorView::MalformedAnnotationExpression(s@)
            },
            ExpandError::ArityMismatch => ExpandErrorView::ArityMismatch,
            ExpandError::ConflictingAnnotationArity => ExpandErrorView::ConflictingAnnotationArity,
            ExpandError::UndefinedTemplate(s) => ExpandErrorView::UndefinedTemplate(s@),
            ExpandError::DuplicateTemplateName(s) => ExpandErrorView::DuplicateTemplateName(s@),
        }
    }
}

impl DeepView for ExpandError {
    type V = ExpandErrorView;

    open spec fn deep_view(&self) -> ExpandErrorView {
        self.view()
    }
}

} // verus!
