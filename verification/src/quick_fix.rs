//! Machine-applicable fixes attached to name-resolution errors: a span and
//! the replacement text a tool can offer.

use vstd::prelude::*;

use crate::position::Position;

verus! {

/// Where a fix's text goes relative to its span.
#[derive(Debug, Clone, Copy, PartialEq, Eq, Structural)]
pub enum QuickFixPosition {
    /// Insert before the span.
    Before,
    /// Insert after the span.
    After,
    /// Replace the whole span.
    Replace,
    /// Replace the first so-many characters of the span.
    ReplaceFirst(usize),
}

/// One suggested edit: a placement, the span it applies to, and the text.
#[derive(Debug, Clone)]
pub struct QuickFix {
    pub placement: QuickFixPosition,
    pub position: Position,
    pub text: String,
}

/// The mathematical image of a [`QuickFix`].
#[verifier::ext_equal]
pub ghost struct QuickFixView {
    pub placement: QuickFixPosition,
    pub position: Position,
    pub text: Seq<char>,
}

impl View for QuickFix {
    type V = QuickFixView;

    open spec fn view(&self) -> QuickFixView {
        QuickFixView { placement: self.placement, position: self.position, text: self.text@ }
    }
}

impl DeepView for QuickFix {
    type V = QuickFixView;

    open spec fn deep_view(&self) -> QuickFixView {
        self.view()
    }
}

} // verus!
