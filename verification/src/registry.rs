//! The catalog of instantiable tab kinds that backs the "new tab" menu.
//! Descriptors are listed in registration order; registering a name that is
//! already present overwrites that entry in place, so no two entries ever
//! share a display name.

use vstd::prelude::*;

use crate::content::ContentProvider;
use crate::content::TabKind;
use crate::content::default_provider;
use crate::content::is_default_provider;

verus! {

/// One entry of the catalog: the name shown in the menu, an optional icon,
/// and which payload kind to instantiate.
#[derive(Clone, Debug)]
pub struct TabTypeDescriptor {
    pub display_name: String,
    pub icon: Option<String>,
    pub kind: TabKind,
}

/// Whether some descriptor in `s` carries the display name `name`.
pub open spec fn has_name(s: Seq<TabTypeDescriptor>, name: Seq<char>) -> bool {
    exists|i: int| 0 <= i < s.len() && s[i].display_name@ == name
}

/// The index of the descriptor named `name`; meaningful only when `has_name`
/// holds, and unique under `names_distinct`.
pub open spec fn name_index(s: Seq<TabTypeDescriptor>, name: Seq<char>) -> int {
    choose|i: int| 0 <= i < s.len() && s[i].display_name@ == name
}

/// No two descriptors share a display name.
pub open spec fn names_distinct(s: Seq<TabTypeDescriptor>) -> bool {
    forall|i: int, j: int|
        0 <= i < j < s.len() ==> s[i].display_name@ != s[j].display_name@
}

/// Under `names_distinct`, any position whose descriptor carries `name` is
/// the `name_index`.
proof fn lemma_name_index_unique(s: Seq<TabTypeDescriptor>, name: Seq<char>, i: int)
    requires
        names_distinct(s),
        0 <= i < s.len(),
        s[i].display_name@ == name,
    ensures
        has_name(s, name),
        name_index(s, name) == i,
{
    assert(has_name(s, name));
    let j = name_index(s, name);
    if i < j {
        assert(s[i].display_name@ != s[j].display_name@);
    } else if j < i {
        assert(s[j].display_name@ != s[i].display_name@);
    }
}

/// The catalog itself: descriptors in registration order, names pairwise
/// distinct.
#[derive(Clone, Debug)]
pub struct TabTypeRegistry {
    pub entries: Vec<TabTypeDescriptor>,
}

impl TabTypeRegistry {
    pub open spec fn wf(&self) -> bool {
        names_distinct(self.entries@)
    }

    pub fn new() -> (r: Self)
        ensures
            r.entries@ == Seq::<TabTypeDescriptor>::empty(),
            r.wf(),
    {
        TabTypeRegistry { entries: Vec::new() }
    }

    /// Inserts the descriptor, or replaces the entry already carrying its
    /// display name. Listing order is preserved: a replaced entry keeps its
    /// position, a new one goes to the end.
    #[verifier::loop_isolation(false)]
    pub fn register(&mut self, descriptor: TabTypeDescriptor)
        requires
            old(self).wf(),
        ensures
            final(self).wf(),
            has_name(old(self).entries@, descriptor.display_name@) ==> final(self).entries@
                == old(self).entries@.update(
                    name_index(old(self).entries@, descriptor.display_name@),
                    descriptor,
                ),
            !has_name(old(self).entries@, descriptor.display_name@) ==> final(self).entries@
                == old(self).entries@.push(descriptor),
    {
        let ghost orig = self.entries@;
        let mut i: usize = 0;
        while i < self.entries.len()
            invariant
                self.entries@ == orig,
                names_distinct(orig),
                0 <= i <= orig.len(),
                forall|k: int| 0 <= k < i ==> orig[k].display_name@ != descriptor.display_name@,
            decreases orig.len() - i,
        {
            if self.entries[i].display_name == descriptor.display_name {
                proof {
                    lemma_name_index_unique(orig, descriptor.display_name@, i as int);
                }
                self.entries[i] = descriptor;
                proof {
                    assert forall|p: int, q: int|
                        0 <= p < q < self.entries@.len() implies self.entries@[p].display_name@
                        != self.entries@[q].display_name@ by {
                        assert(orig[p].display_name@ != orig[q].display_name@);
                        if p != i && q != i {
                            assert(self.entries@[p] == orig[p]);
                            assert(self.entries@[q] == orig[q]);
                        } else if p == i as int {
                            assert(self.entries@[q] == orig[q]);
                            assert(orig[i as int].display_name@ != orig[q].display_name@);
                        } else {
                            assert(self.entries@[p] == orig[p]);
                            assert(orig[p].display_name@ != orig[i as int].display_name@);
                        }
                    }
                }
                return;
            }
            i = i + 1;
        }
        self.entries.push(descriptor);
    }

    /// Instantiates the kind registered under `name`, or returns nothing when
    /// the name is unknown. Never fails otherwise: a fresh default payload of
    /// the registered kind comes back.
    #[verifier::loop_isolation(false)]
    pub fn create(&self, name: &String) -> (r: Option<ContentProvider>)
        requires
            self.wf(),
        ensures
            r is Some <==> has_name(self.entries@, name@),
            r is Some ==> is_default_provider(
                r->Some_0,
                self.entries@[name_index(self.entries@, name@)].kind,
            ),
    {
        let mut i: usize = 0;
        while i < self.entries.len()
            invariant
                self.wf(),
                0 <= i <= self.entries@.len(),
                forall|k: int| 0 <= k < i ==> self.entries@[k].display_name@ != name@,
            decreases self.entries@.len() - i,
        {
            if self.entries[i].display_name == *name {
                proof {
                    lemma_name_index_unique(self.entries@, name@, i as int);
                }
                return Some(default_provider(self.entries[i].kind));
            }
            i = i + 1;
        }
        None
    }

    /// The descriptors in registration order, for the "new tab" menu.
    pub fn list(&self) -> (r: &Vec<TabTypeDescriptor>)
        ensures
            r@ == self.entries@,
    {
        &self.entries
    }

    pub fn len(&self) -> (r: usize)
        ensures
            r == self.entries@.len(),
    {
        self.entries.len()
    }
}

} // verus!
