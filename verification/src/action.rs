//! Terminal actions: the engine's only output.
//!
//! The engine never touches the terminal itself; every step returns a
//! sequence of these actions for the caller to perform. All positioning is
//! absolute, so output interleaved from elsewhere cannot desynchronise the
//! engine's notion of where its regions are.

use vstd::prelude::*;

verus! {

/// One absolute-addressed terminal action.
#[derive(Debug, PartialEq, Eq)]
pub enum TermAction {
    /// Clear the whole screen.
    ClearScreen,
    /// Move the cursor to column zero of the given row.
    MoveTo(usize),
    /// Clear the line the cursor is on.
    ClearLine,
    /// Write the given text at the cursor.
    Write(String),
}

/// The mathematical shape of one terminal action.
pub ghost enum ActView {
    ClearScreen,
    MoveTo(int),
    ClearLine,
    Write(Seq<char>),
}

impl View for TermAction {
    type V = ActView;

    open spec fn view(&self) -> ActView {
        match self {
            TermAction::ClearScreen => ActView::ClearScreen,
            TermAction::MoveTo(r) => ActView::MoveTo(*r as int),
            TermAction::ClearLine => ActView::ClearLine,
            TermAction::Write(s) => ActView::Write(s@),
        }
    }
}

/// The views of a sequence of actions.
pub open spec fn acts_view(a: Seq<TermAction>) -> Seq<ActView> {
    a.map_values(|t: TermAction| t@)
}

/// Appending an action appends its view.
pub broadcast proof fn lemma_acts_view_push(a: Seq<TermAction>, t: TermAction)
    ensures
        #[trigger] acts_view(a.push(t)) == acts_view(a).push(t@),
{
    assert(acts_view(a.push(t)) =~= acts_view(a).push(t@));
}

} // verus!
