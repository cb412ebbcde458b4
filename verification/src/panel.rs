//! The collapsible shell that the panels share.

use vstd::prelude::*;

verus! {

/// A panel that can be folded down to its header.
#[derive(Clone, Copy, Debug, PartialEq, Eq)]
pub struct Panel {
    pub collapsed: bool,
}

impl Panel {
    /// A panel starts unfolded.
    pub fn new() -> (panel: Self)
        ensures
            !panel.collapsed,
    {
        Panel { collapsed: false }
    }

    /// A press on the header folds an open panel and unfolds a folded one.
    pub fn toggle(&mut self)
        ensures
            final(self).collapsed == !old(self).collapsed,
    {
        self.collapsed = !self.collapsed;
    }

    /// Whether the header shows the summary of `count` active entries: only
    /// a folded panel with something active does.
    pub fn shows_summary(&self, count: usize) -> (shown: bool)
        ensures
            shown == (self.collapsed && count > 0),
    {
        self.collapsed && count > 0
    }

    /// Whether the body of the panel is drawn.
    pub fn shows_body(&self) -> (shown: bool)
        ensures
            shown == !self.collapsed,
    {
        !self.collapsed
    }
}

/// Law: two presses on the header leave a panel as it was.
pub proof fn lemma_toggle_twice(panel: Panel)
    ensures
        (Panel { collapsed: !(Panel { collapsed: !panel.collapsed }).collapsed }) == panel,
{
}

} // verus!
