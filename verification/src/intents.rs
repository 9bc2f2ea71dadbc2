//! What the user asks for: the requests that keys and clicks stand
//! for, before anything is carried out.

use vstd::prelude::*;
use crate::file_item::SortOrder;

verus! {

/// One request to the browser.
#[derive(Clone, Debug, PartialEq, Eq)]
pub enum Intent {
    SelectAll,
    ClearSelection,
    Refresh,
    GoBack,
    GoForward,
    GoUp,
    ToggleHidden,
    Select { index: usize, additive: bool },
    Navigate { path: String },
    Open { path: String },
}

/// The keys that matter, as they stand in one frame.
#[derive(Clone, Copy, Debug, PartialEq, Eq, Structural)]
pub struct KeyInput {
    pub ctrl: bool,
    pub alt: bool,
    pub key_a: bool,
    pub key_h: bool,
    pub escape: bool,
    pub f5: bool,
    pub arrow_left: bool,
    pub arrow_right: bool,
    pub arrow_up: bool,
}

/// `intent` where `fires` holds, and nothing where it does not.
pub open spec fn when(fires: bool, intent: Intent) -> Seq<Intent> {
    if fires {
        seq![intent]
    } else {
        Seq::empty()
    }
}

/// The requests that the keys of one frame stand for, in the order
/// in which they are served: Ctrl+A selects all, Escape clears the
/// selection, F5 re-reads, Alt with an arrow goes back, forward or
/// up, and Ctrl+H flips the display of hidden entries.
pub open spec fn shortcuts(input: KeyInput) -> Seq<Intent> {
    when(input.ctrl && input.key_a, Intent::SelectAll) + when(input.escape, Intent::ClearSelection)
        + when(input.f5, Intent::Refresh) + when(input.alt && input.arrow_left, Intent::GoBack)
        + when(input.alt && input.arrow_right, Intent::GoForward) + when(
        input.alt && input.arrow_up,
        Intent::GoUp,
    ) + when(input.ctrl && input.key_h, Intent::ToggleHidden)
}

fn push_when(out: &mut Vec<Intent>, fires: bool, intent: Intent)
    ensures
        final(out)@ == old(out)@ + when(fires, intent),
{
    if fires {
        out.push(intent);
        assert(out@ =~= old(out)@ + when(fires, intent));
    } else {
        assert(out@ =~= old(out)@ + when(fires, intent));
    }
}

/// Reads the requests off the keys of one frame.
pub fn handle_keyboard_shortcuts(input: KeyInput) -> (intents: Vec<Intent>)
    ensures
        intents@ == shortcuts(input),
{
    let mut out: Vec<Intent> = Vec::new();
    assert(out@ =~= Seq::<Intent>::empty());
    push_when(&mut out, input.ctrl && input.key_a, Intent::SelectAll);
    push_when(&mut out, input.escape, Intent::ClearSelection);
    push_when(&mut out, input.f5, Intent::Refresh);
    push_when(&mut out, input.alt && input.arrow_left, Intent::GoBack);
    push_when(&mut out, input.alt && input.arrow_right, Intent::GoForward);
    push_when(&mut out, input.alt && input.arrow_up, Intent::GoUp);
    push_when(&mut out, input.ctrl && input.key_h, Intent::ToggleHidden);
    assert(out@ =~= shortcuts(input));
    out
}

/// The requests that a click on the entry at `index` stands for: a
/// click picks the entry, added to the selection where Ctrl is held;
/// a double click visits what is a directory on disk and opens
/// anything else.
pub open spec fn interaction(
    index: usize,
    path: String,
    is_dir: bool,
    clicked: bool,
    double_clicked: bool,
    ctrl_held: bool,
) -> Seq<Intent> {
    when(clicked, Intent::Select { index, additive: ctrl_held }) + when(
        double_clicked,
        if is_dir {
            Intent::Navigate { path }
        } else {
            Intent::Open { path }
        },
    )
}

/// Reads the requests off a click on the entry at `index`, which
/// lies at `path`.
pub fn handle_item_interaction(
    index: usize,
    path: String,
    is_dir: bool,
    clicked: bool,
    double_clicked: bool,
    ctrl_held: bool,
) -> (intents: Vec<Intent>)
    ensures
        intents@ == interaction(index, path, is_dir, clicked, double_clicked, ctrl_held),
{
    let mut out: Vec<Intent> = Vec::new();
    assert(out@ =~= Seq::<Intent>::empty());
    push_when(&mut out, clicked, Intent::Select { index, additive: ctrl_held });
    let second = if is_dir {
        Intent::Navigate { path }
    } else {
        Intent::Open { path }
    };
    push_when(&mut out, double_clicked, second);
    assert(out@ =~= interaction(index, path, is_dir, clicked, double_clicked, ctrl_held));
    out
}

impl SortOrder {
    /// The other direction.
    pub open spec fn spec_flipped(self) -> SortOrder {
        match self {
            SortOrder::Ascending => SortOrder::Descending,
            SortOrder::Descending => SortOrder::Ascending,
        }
    }

    /// The other direction.
    pub fn flipped(self) -> (r: SortOrder)
        ensures
            r == self.spec_flipped(),
    {
        match self {
            SortOrder::Ascending => SortOrder::Descending,
            SortOrder::Descending => SortOrder::Ascending,
        }
    }
}

} // verus!
