//! Transient menu state: the per-tab context menu and the "new tab" dropdown.
//! Both are opened by a pointer event on their trigger and closed by
//! committing an action or by a pointer-down outside their bounds. At most one
//! of the two is ever visible: opening either one closes the other.
//!
//! The anchor position type `P` is whatever coordinate type the host toolkit
//! uses; the bookkeeping here never inspects it.

use vstd::prelude::*;

use crate::tab::TabId;

verus! {

/// The right-click menu of one tab: visibility, the tab it targets, and where
/// to anchor it.
pub struct TabContextMenu<P> {
    pub is_visible: bool,
    pub position: Option<P>,
    pub target_tab: TabId,
}

impl<P> TabContextMenu<P> {
    /// A hidden menu with no anchor yet.
    pub fn new() -> (r: Self)
        ensures
            !r.is_visible,
            r.position is None,
            r.target_tab == 0,
    {
        TabContextMenu { is_visible: false, position: None, target_tab: 0 }
    }

    pub fn show_at(&mut self, position: P, tab_id: TabId)
        ensures
            final(self).is_visible,
            final(self).position == Some(position),
            final(self).target_tab == tab_id,
    {
        self.is_visible = true;
        self.position = Some(position);
        self.target_tab = tab_id;
    }

    /// Hides the menu; the stale anchor and target are kept, as they are
    /// meaningless while hidden.
    pub fn dismiss(&mut self)
        ensures
            !final(self).is_visible,
            final(self).position == old(self).position,
            final(self).target_tab == old(self).target_tab,
    {
        self.is_visible = false;
    }
}

/// Both transient menus of the tab strip, with the rule that they are never
/// visible at the same time.
pub struct EphemeralMenus<P> {
    pub context_menu: TabContextMenu<P>,
    pub new_tab_dropdown_open: bool,
}

impl<P> EphemeralMenus<P> {
    /// At most one of the two menus is visible. Every operation below
    /// establishes this, whatever held before.
    pub open spec fn exclusive(&self) -> bool {
        !(self.context_menu.is_visible && self.new_tab_dropdown_open)
    }

    pub fn new() -> (r: Self)
        ensures
            !r.context_menu.is_visible,
            r.context_menu.position is None,
            r.context_menu.target_tab == 0,
            !r.new_tab_dropdown_open,
            r.exclusive(),
    {
        EphemeralMenus { context_menu: TabContextMenu::new(), new_tab_dropdown_open: false }
    }

    /// A right click on a tab: shows the context menu there and closes the
    /// dropdown, keeping the menus mutually exclusive.
    pub fn open_context_menu(&mut self, position: P, tab_id: TabId)
        ensures
            final(self).context_menu.is_visible,
            final(self).context_menu.position == Some(position),
            final(self).context_menu.target_tab == tab_id,
            !final(self).new_tab_dropdown_open,
            final(self).exclusive(),
    {
        self.context_menu.show_at(position, tab_id);
        self.new_tab_dropdown_open = false;
    }

    /// Closes the context menu after one of its actions commits.
    pub fn close_context_menu(&mut self)
        ensures
            !final(self).context_menu.is_visible,
            final(self).context_menu.position == old(self).context_menu.position,
            final(self).context_menu.target_tab == old(self).context_menu.target_tab,
            final(self).new_tab_dropdown_open == old(self).new_tab_dropdown_open,
    {
        self.context_menu.dismiss();
    }

    /// A click on the "+" button: toggles the dropdown and, when that makes it
    /// visible, hides the context menu.
    pub fn toggle_new_tab_dropdown(&mut self)
        ensures
            final(self).new_tab_dropdown_open == !old(self).new_tab_dropdown_open,
            !final(self).context_menu.is_visible,
            final(self).context_menu.position == old(self).context_menu.position,
            final(self).context_menu.target_tab == old(self).context_menu.target_tab,
            final(self).exclusive(),
    {
        self.new_tab_dropdown_open = !self.new_tab_dropdown_open;
        self.context_menu.dismiss();
    }

    /// Commits a choice in the dropdown, or dismisses it.
    pub fn close_new_tab_dropdown(&mut self)
        ensures
            !final(self).new_tab_dropdown_open,
            final(self).context_menu == old(self).context_menu,
    {
        self.new_tab_dropdown_open = false;
    }

    /// A pointer-down anywhere outside both menus closes both.
    pub fn outside_click(&mut self)
        ensures
            !final(self).context_menu.is_visible,
            !final(self).new_tab_dropdown_open,
            final(self).context_menu.position == old(self).context_menu.position,
            final(self).context_menu.target_tab == old(self).context_menu.target_tab,
            final(self).exclusive(),
    {
        self.context_menu.dismiss();
        self.new_tab_dropdown_open = false;
    }
}

} // verus!
