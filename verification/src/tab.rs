//! The unit of tab state: an id, an owned payload, display metadata, and the
//! pinned/preview flags.

use vstd::prelude::*;

use crate::content::ContentProvider;

verus! {

/// Identifies one tab for the lifetime of the store that allocated it.
/// Ids are never reused, even after the tab is closed and evicted.
pub type TabId = usize;

/// One tab, whether open or sitting in the closed-tab history. The record owns
/// its payload exclusively; closing and reopening move the record between the
/// open list and the history without altering it.
#[derive(Clone, Debug)]
pub struct TabRecord {
    pub id: TabId,
    pub content: ContentProvider,
    pub icon: Option<String>,
    pub is_pinned: bool,
    pub is_preview: bool,
    pub metadata: Vec<(String, String)>,
}

impl TabRecord {
    pub open spec fn spec_title(&self) -> Seq<char> {
        self.content.spec_title()
    }

    pub open spec fn spec_dirty(&self) -> bool {
        self.content.spec_dirty()
    }

    pub open spec fn spec_can_close(&self) -> bool {
        self.content.spec_can_close()
    }

    /// A fresh, unpinned, non-preview record with no icon and no metadata.
    /// The id is chosen by the store; see `TabStore::add_tab`.
    pub fn new(id: TabId, content: ContentProvider) -> (r: Self)
        ensures
            r.id == id,
            r.content == content,
            r.icon is None,
            !r.is_pinned,
            !r.is_preview,
            r.metadata@ == Seq::<(String, String)>::empty(),
    {
        TabRecord {
            id,
            content,
            icon: None,
            is_pinned: false,
            is_preview: false,
            metadata: Vec::new(),
        }
    }

    pub fn with_icon(self, icon: String) -> (r: Self)
        ensures
            r == (TabRecord { icon: Some(icon), ..self }),
    {
        TabRecord { icon: Some(icon), ..self }
    }

    pub fn pinned(self) -> (r: Self)
        ensures
            r == (TabRecord { is_pinned: true, ..self }),
    {
        TabRecord { is_pinned: true, ..self }
    }

    pub fn preview(self) -> (r: Self)
        ensures
            r == (TabRecord { is_preview: true, ..self }),
    {
        TabRecord { is_preview: true, ..self }
    }

    pub fn get_title(&self) -> (r: String)
        ensures
            r@ == self.spec_title(),
    {
        self.content.get_title()
    }

    pub fn is_dirty(&self) -> (r: bool)
        ensures
            r == self.spec_dirty(),
    {
        self.content.is_dirty()
    }

    pub fn can_close(&self) -> (r: bool)
        ensures
            r == self.spec_can_close(),
    {
        self.content.can_close()
    }
}

} // verus!
