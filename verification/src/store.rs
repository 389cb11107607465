//! The tab store: the ordered open list, the bounded closed-tab history, the
//! id allocator, and the selection. Every mutating operation is total — it
//! either performs its documented effect or is a no-op — and preserves the
//! store's well-formedness: ids pairwise distinct and below the allocator,
//! history within capacity.

use vstd::prelude::*;

use crate::content::ContentProvider;
use crate::tab::TabId;
use crate::tab::TabRecord;

verus! {

/// Capacity of the closed-tab history. Closing an eleventh tab evicts the
/// oldest entry.
pub const HISTORY_CAP: usize = 10;

/// Whether some record in `s` carries the id `id`.
pub open spec fn contains_id(s: Seq<TabRecord>, id: TabId) -> bool {
    exists|i: int| 0 <= i < s.len() && s[i].id == id
}

/// The position of the record carrying `id`; meaningful only when
/// `contains_id` holds, and unique under `ids_distinct`.
pub open spec fn index_of_id(s: Seq<TabRecord>, id: TabId) -> int {
    choose|i: int| 0 <= i < s.len() && s[i].id == id
}

/// No two records in `s` share an id.
pub open spec fn ids_distinct(s: Seq<TabRecord>) -> bool {
    forall|i: int, j: int| 0 <= i < j < s.len() ==> s[i].id != s[j].id
}

/// No record of `a` shares an id with a record of `b`.
pub open spec fn ids_disjoint(a: Seq<TabRecord>, b: Seq<TabRecord>) -> bool {
    forall|i: int, j: int|
        0 <= i < a.len() && 0 <= j < b.len() ==> a[i].id != b[j].id
}

/// Every id in `s` is below `bound`.
pub open spec fn ids_below(s: Seq<TabRecord>, bound: TabId) -> bool {
    forall|i: int| 0 <= i < s.len() ==> s[i].id < bound
}

/// Under `ids_distinct`, any position whose record carries `id` is the
/// `index_of_id`.
pub proof fn lemma_index_of_id_unique(s: Seq<TabRecord>, id: TabId, i: int)
    requires
        ids_distinct(s),
        0 <= i < s.len(),
        s[i].id == id,
    ensures
        contains_id(s, id),
        index_of_id(s, id) == i,
{
    assert(contains_id(s, id));
    let j = index_of_id(s, id);
    if i < j {
        assert(s[i].id != s[j].id);
    } else if j < i {
        assert(s[j].id != s[i].id);
    }
}

/// `s` trimmed from the front to the history capacity: the capacity-many
/// newest entries, oldest evicted first.
pub open spec fn bounded_suffix(s: Seq<TabRecord>) -> Seq<TabRecord> {
    if s.len() <= HISTORY_CAP { s } else { s.skip(s.len() - HISTORY_CAP as int) }
}

/// Whether `close_tab(id)` has an effect on `pre`: some open tab carries `id`
/// and its content permits closing.
pub open spec fn close_target_ok(pre: TabStore, id: TabId) -> bool {
    contains_id(pre.open@, id) && pre.open@[index_of_id(pre.open@, id)].spec_can_close()
}

/// The selection after closing the tab carrying `id` in `pre`. Closing an
/// unselected tab leaves the selection alone; closing the selected tab at
/// position `p` prefers the tab that sat at `p - 1`, then the tab that sat at
/// the head, and resets to zero when the list empties (the selection is then
/// meaningless).
pub open spec fn close_reselect(pre: TabStore, id: TabId) -> TabId {
    let p = index_of_id(pre.open@, id);
    if pre.selected != id {
        pre.selected
    } else if p > 0 {
        pre.open@[p - 1].id
    } else if pre.open@.len() > 1 {
        pre.open@[1].id
    } else {
        0
    }
}

/// The full effect of a successful `close_tab(id)`: the record leaves its
/// position in the open list unmodified and is appended to the history, whose
/// oldest entry is evicted if it would exceed capacity; the selection follows
/// `close_reselect`; the allocator does not move.
pub open spec fn close_succeeds(pre: TabStore, post: TabStore, id: TabId) -> bool {
    let p = index_of_id(pre.open@, id);
    &&& post.open@ == pre.open@.remove(p)
    &&& post.history@ == bounded_suffix(pre.history@.push(pre.open@[p]))
    &&& post.selected == close_reselect(pre, id)
    &&& post.next_id == pre.next_id
}

/// The full effect of `reopen_last_closed_tab`: a no-op on an empty history;
/// otherwise the newest history entry moves, unmodified, to the end of the
/// open list and becomes the selection.
pub open spec fn reopen_effect(pre: TabStore, post: TabStore) -> bool {
    if pre.history@.len() == 0 {
        post == pre
    } else {
        &&& post.open@ == pre.open@.push(pre.history@.last())
        &&& post.history@ == pre.history@.drop_last()
        &&& post.selected == pre.history@.last().id
        &&& post.next_id == pre.next_id
    }
}

/// Whether `close_other_tabs(keep_id)` retains `t`: the kept tab itself, and
/// any tab whose content refuses closing. The pinned flag grants no
/// protection here — only `can_close` does — so a pinned-but-closable tab is
/// removed by "close other tabs" even though its own close affordance is
/// hidden.
pub open spec fn keeps(t: TabRecord, keep_id: TabId) -> bool {
    t.id == keep_id || !t.spec_can_close()
}

/// The open tabs that survive `close_other_tabs(keep_id)`, in order.
pub open spec fn kept_open(s: Seq<TabRecord>, keep_id: TabId) -> Seq<TabRecord>
    decreases s.len(),
{
    if s.len() == 0 {
        Seq::empty()
    } else if keeps(s.last(), keep_id) {
        kept_open(s.drop_last(), keep_id).push(s.last())
    } else {
        kept_open(s.drop_last(), keep_id)
    }
}

/// The open tabs that `close_other_tabs(keep_id)` removes, in their original
/// order — the order in which they are pushed onto the history.
pub open spec fn removed_tabs(s: Seq<TabRecord>, keep_id: TabId) -> Seq<TabRecord>
    decreases s.len(),
{
    if s.len() == 0 {
        Seq::empty()
    } else if keeps(s.last(), keep_id) {
        removed_tabs(s.drop_last(), keep_id)
    } else {
        removed_tabs(s.drop_last(), keep_id).push(s.last())
    }
}

/// Extending the partitioned prefix by one element grows exactly one side.
proof fn lemma_partition_step(s: Seq<TabRecord>, keep_id: TabId, j: int)
    requires
        0 <= j < s.len(),
    ensures
        keeps(s[j], keep_id) ==> kept_open(s.take(j + 1), keep_id) == kept_open(
            s.take(j),
            keep_id,
        ).push(s[j]) && removed_tabs(s.take(j + 1), keep_id) == removed_tabs(s.take(j), keep_id),
        !keeps(s[j], keep_id) ==> kept_open(s.take(j + 1), keep_id) == kept_open(s.take(j), keep_id)
            && removed_tabs(s.take(j + 1), keep_id) == removed_tabs(s.take(j), keep_id).push(s[j]),
{
    assert(s.take(j + 1).drop_last() =~= s.take(j));
    assert(s.take(j + 1).last() == s[j]);
}

/// Each side of the partition draws its records from `s`, so under distinct
/// ids the sides are themselves distinct and share nothing; and every record
/// the predicate retains is really retained.
pub proof fn lemma_partition_ids(s: Seq<TabRecord>, keep_id: TabId)
    requires
        ids_distinct(s),
    ensures
        ids_distinct(kept_open(s, keep_id)),
        ids_distinct(removed_tabs(s, keep_id)),
        ids_disjoint(kept_open(s, keep_id), removed_tabs(s, keep_id)),
        forall|i: int|
            0 <= i < kept_open(s, keep_id).len() ==> contains_id(
                s,
                #[trigger] kept_open(s, keep_id)[i].id,
            ),
        forall|i: int|
            0 <= i < removed_tabs(s, keep_id).len() ==> contains_id(
                s,
                #[trigger] removed_tabs(s, keep_id)[i].id,
            ),
        forall|i: int|
            0 <= i < s.len() && keeps(#[trigger] s[i], keep_id) ==> kept_open(
                s,
                keep_id,
            ).contains(s[i]),
    decreases s.len(),
{
    if s.len() == 0 {
        return;
    }
    let s0 = s.drop_last();
    let t = s.last();
    let kept = kept_open(s, keep_id);
    let kept0 = kept_open(s0, keep_id);
    let removed = removed_tabs(s, keep_id);
    let removed0 = removed_tabs(s0, keep_id);
    assert forall|i: int, j: int| 0 <= i < j < s0.len() implies s0[i].id != s0[j].id by {
        assert(s0[i] == s[i]);
        assert(s0[j] == s[j]);
    }
    lemma_partition_ids(s0, keep_id);

    // Ids found in a prefix's partition sit strictly before the last record
    // of `s`, whose id is therefore fresh for both sides.
    assert forall|x: TabId| contains_id(s0, x) implies x != t.id && contains_id(s, x) by {
        let w = choose|w: int| 0 <= w < s0.len() && s0[w].id == x;
        assert(s[w] == s0[w]);
        assert(s[w].id != s[s.len() - 1].id);
    }

    if keeps(t, keep_id) {
        assert(kept == kept0.push(t));
        assert(removed == removed0);
        assert forall|i: int, j: int| 0 <= i < j < kept.len() implies kept[i].id != kept[j].id by {
            if j < kept0.len() {
                assert(kept[i] == kept0[i]);
                assert(kept[j] == kept0[j]);
            } else {
                assert(kept[i] == kept0[i]);
                assert(kept[j] == t);
                assert(contains_id(s0, kept0[i].id));
            }
        }
        assert forall|i: int, j: int|
            0 <= i < kept.len() && 0 <= j < removed.len() implies kept[i].id != removed[j].id by {
            if i < kept0.len() {
                assert(kept[i] == kept0[i]);
            } else {
                assert(kept[i] == t);
                assert(contains_id(s0, removed0[j].id));
            }
        }
        assert forall|i: int|
            0 <= i < kept.len() implies contains_id(s, #[trigger] kept[i].id) by {
            if i < kept0.len() {
                assert(kept[i] == kept0[i]);
                assert(contains_id(s0, kept0[i].id));
            } else {
                assert(kept[i] == t);
                assert(s[s.len() - 1].id == t.id);
            }
        }
        assert forall|i: int|
            0 <= i < removed.len() implies contains_id(s, #[trigger] removed[i].id) by {
            assert(contains_id(s0, removed0[i].id));
        }
        assert forall|i: int|
            0 <= i < s.len() && keeps(#[trigger] s[i], keep_id) implies kept.contains(s[i]) by {
            if i < s.len() - 1 {
                assert(s0[i] == s[i]);
                assert(kept0.contains(s0[i]));
                let w = choose|w: int| 0 <= w < kept0.len() && kept0[w] == s0[i];
                assert(kept[w] == s[i]);
            } else {
                assert(kept[kept.len() - 1] == s[i]);
            }
        }
    } else {
        assert(kept == kept0);
        assert(removed == removed0.push(t));
        assert forall|i: int, j: int|
            0 <= i < j < removed.len() implies removed[i].id != removed[j].id by {
            if j < removed0.len() {
                assert(removed[i] == removed0[i]);
                assert(removed[j] == removed0[j]);
            } else {
                assert(removed[i] == removed0[i]);
                assert(removed[j] == t);
                assert(contains_id(s0, removed0[i].id));
            }
        }
        assert forall|i: int, j: int|
            0 <= i < kept.len() && 0 <= j < removed.len() implies kept[i].id != removed[j].id by {
            if j < removed0.len() {
                assert(removed[j] == removed0[j]);
            } else {
                assert(removed[j] == t);
                assert(contains_id(s0, kept0[i].id));
            }
        }
        assert forall|i: int|
            0 <= i < kept.len() implies contains_id(s, #[trigger] kept[i].id) by {
            assert(contains_id(s0, kept0[i].id));
        }
        assert forall|i: int|
            0 <= i < removed.len() implies contains_id(s, #[trigger] removed[i].id) by {
            if i < removed0.len() {
                assert(removed[i] == removed0[i]);
                assert(contains_id(s0, removed0[i].id));
            } else {
                assert(removed[i] == t);
                assert(s[s.len() - 1].id == t.id);
            }
        }
        assert forall|i: int|
            0 <= i < s.len() && keeps(#[trigger] s[i], keep_id) implies kept.contains(s[i]) by {
            assert(i < s.len() - 1);
            assert(s0[i] == s[i]);
            assert(kept0.contains(s0[i]));
        }
    }
}

/// The selection after `next_tab` on `s`: one step to the right,
/// cyclically. An empty list leaves the selection alone; a selection not
/// referring to any open tab (possible only through misuse, but handled
/// defensively) falls back to the first tab.
pub open spec fn next_selected(s: TabStore) -> TabId {
    if s.open@.len() == 0 {
        s.selected
    } else if contains_id(s.open@, s.selected) {
        s.open@[(index_of_id(s.open@, s.selected) + 1) % (s.open@.len() as int)].id
    } else {
        s.open@[0].id
    }
}

/// The full effect of `next_tab`: the selection advances one step; the lists
/// and the allocator stay put.
pub open spec fn advance(s: TabStore) -> TabStore {
    TabStore { selected: next_selected(s), ..s }
}

/// The selection after `prev_tab` on `s`: one step to the left, cyclically,
/// with the same empty-list and fallback treatment as `next_selected`.
pub open spec fn prev_selected(s: TabStore) -> TabId {
    if s.open@.len() == 0 {
        s.selected
    } else if contains_id(s.open@, s.selected) {
        if index_of_id(s.open@, s.selected) > 0 {
            s.open@[index_of_id(s.open@, s.selected) - 1].id
        } else {
            s.open@[s.open@.len() - 1].id
        }
    } else {
        s.open@[0].id
    }
}

/// Bridges the operational effect of a successful close — remove at `p`, push
/// to the history with eviction, reselect against the shrunken list — to
/// `close_succeeds`, and shows it keeps the store well-formed and the
/// selection valid.
proof fn lemma_close_effects(pre: TabStore, post: TabStore, id: TabId, p: int)
    requires
        pre.wf(),
        0 <= p < pre.open@.len(),
        pre.open@[p].id == id,
        pre.open@[p].spec_can_close(),
        post.open@ == pre.open@.remove(p),
        post.history@ == (if pre.history@.len() < HISTORY_CAP {
            pre.history@.push(pre.open@[p])
        } else {
            pre.history@.push(pre.open@[p]).remove(0)
        }),
        post.selected == (if pre.selected != id {
            pre.selected
        } else if p > 0 {
            post.open@[p - 1].id
        } else if post.open@.len() > 0 {
            post.open@[0].id
        } else {
            0
        }),
        post.next_id == pre.next_id,
    ensures
        post.wf(),
        close_target_ok(pre, id),
        close_succeeds(pre, post, id),
        pre.selection_ok() ==> post.selection_ok(),
{
    lemma_index_of_id_unique(pre.open@, id, p);
    let t = pre.open@[p];
    let o = pre.open@;
    let h = pre.history@;
    let h1 = h.push(t);
    o.remove_ensures(p);
    h1.remove_ensures(0);

    // The shrunken open list keeps distinct ids, all below the allocator.
    assert forall|i: int, j: int|
        0 <= i < j < post.open@.len() implies post.open@[i].id != post.open@[j].id by {
        let i0 = if i < p { i } else { i + 1 };
        let j0 = if j < p { j } else { j + 1 };
        assert(post.open@[i] == o[i0]);
        assert(post.open@[j] == o[j0]);
    }
    assert forall|i: int| 0 <= i < post.open@.len() implies post.open@[i].id < post.next_id by {
        let i0 = if i < p { i } else { i + 1 };
        assert(post.open@[i] == o[i0]);
    }

    // The history with the closed record appended keeps distinct ids, since
    // that record came from the open list, which shares no id with it.
    assert forall|i: int, j: int| 0 <= i < j < h1.len() implies h1[i].id != h1[j].id by {
        assert(h1[i] == h[i]);
        if j < h.len() {
            assert(h1[j] == h[j]);
        } else {
            assert(h1[j] == t);
        }
    }

    // And trimming it — wholesale or via its head — changes no claim above.
    if h.len() < HISTORY_CAP {
        assert(bounded_suffix(h1) == h1);
    } else {
        assert(h1.len() == HISTORY_CAP + 1);
        assert(post.history@ =~= h1.skip(1));
        assert(bounded_suffix(h1) == h1.skip(1));
    }
    assert forall|i: int, j: int|
        0 <= i < j < post.history@.len() implies post.history@[i].id != post.history@[j].id by {
        let d = h1.len() - post.history@.len();
        assert(post.history@[i] == h1[i + d]);
        assert(post.history@[j] == h1[j + d]);
    }
    assert forall|i: int, j: int|
        0 <= i < post.open@.len() && 0 <= j < post.history@.len()
        implies post.open@[i].id != post.history@[j].id by {
        let i0 = if i < p { i } else { i + 1 };
        assert(post.open@[i] == o[i0]);
        let d = h1.len() - post.history@.len();
        assert(post.history@[j] == h1[j + d]);
        if j + d < h.len() {
            assert(h1[j + d] == h[j + d]);
        } else {
            assert(h1[j + d] == t);
            assert(o[i0].id != o[p].id);
        }
    }
    assert forall|j: int|
        0 <= j < post.history@.len() implies post.history@[j].id < post.next_id by {
        let d = h1.len() - post.history@.len();
        assert(post.history@[j] == h1[j + d]);
        if j + d < h.len() {
            assert(h1[j + d] == h[j + d]);
        } else {
            assert(h1[j + d] == t);
        }
    }

    // The reselection formula over the shrunken list is `close_reselect`.
    if pre.selected == id {
        if p > 0 {
            assert(post.open@[p - 1] == o[p - 1]);
        } else if post.open@.len() > 0 {
            assert(post.open@[0] == o[1]);
        }
    }

    // A valid selection stays valid.
    if pre.selection_ok() && post.open@.len() > 0 {
        if pre.selected != id {
            let w = choose|w: int| 0 <= w < o.len() && o[w].id == pre.selected;
            if w < p {
                assert(post.open@[w] == o[w]);
            } else {
                assert(o[p].id == id);
                assert(w != p);
                assert(post.open@[w - 1] == o[w]);
            }
            assert(contains_id(post.open@, post.selected));
        } else {
            if p > 0 {
                assert(post.open@[p - 1].id == post.selected);
            } else {
                assert(post.open@[0].id == post.selected);
            }
        }
    }
}

/// The ordered collection of open tabs, the bounded history of closed ones,
/// the id allocator, and the current selection.
///
/// `selected` is meaningful only while `open` is non-empty; `selection_ok`
/// states when it refers to an open tab. Every operation keeps `wf`; see each
/// operation for what it does to `selection_ok`.
#[verifier::ext_equal]
pub struct TabStore {
    pub open: Vec<TabRecord>,
    pub history: Vec<TabRecord>,
    pub next_id: TabId,
    pub selected: TabId,
}

impl TabStore {
    /// Structural soundness: all ids pairwise distinct across the open list
    /// and the history, all below the allocator, and the history within
    /// capacity.
    pub open spec fn wf(self) -> bool {
        &&& ids_distinct(self.open@)
        &&& ids_distinct(self.history@)
        &&& ids_disjoint(self.open@, self.history@)
        &&& ids_below(self.open@, self.next_id)
        &&& ids_below(self.history@, self.next_id)
        &&& self.history@.len() <= HISTORY_CAP
    }

    /// While any tab is open, the selection refers to one of them.
    pub open spec fn selection_ok(self) -> bool {
        self.open@.len() > 0 ==> contains_id(self.open@, self.selected)
    }

    pub fn new() -> (r: Self)
        ensures
            r.open@ == Seq::<TabRecord>::empty(),
            r.history@ == Seq::<TabRecord>::empty(),
            r.next_id == 0,
            r.selected == 0,
            r.wf(),
            r.selection_ok(),
    {
        TabStore { open: Vec::new(), history: Vec::new(), next_id: 0, selected: 0 }
    }

    /// Allocates the next id, appends a fresh record holding `content` to the
    /// end of the open list, and selects it. Always succeeds.
    pub fn add_tab(&mut self, content: ContentProvider, icon: Option<String>) -> (r: TabId)
        requires
            old(self).wf(),
            old(self).next_id < usize::MAX,
        ensures
            final(self).wf(),
            final(self).selection_ok(),
            r == old(self).next_id,
            final(self).next_id == old(self).next_id + 1,
            final(self).open@.len() == old(self).open@.len() + 1,
            final(self).open@.drop_last() == old(self).open@,
            final(self).open@.last().id == r,
            final(self).open@.last().content == content,
            final(self).open@.last().icon == icon,
            !final(self).open@.last().is_pinned,
            !final(self).open@.last().is_preview,
            final(self).open@.last().metadata@ == Seq::<(String, String)>::empty(),
            final(self).history@ == old(self).history@,
            final(self).selected == r,
    {
        let id = self.next_id;
        self.next_id = self.next_id + 1;
        let record = TabRecord::new(id, content);
        let record = match icon {
            Some(ic) => record.with_icon(ic),
            None => record,
        };
        let ghost pre_open = self.open@;
        self.open.push(record);
        self.selected = id;
        proof {
            assert(self.open@.drop_last() =~= pre_open);
            assert forall|i: int, j: int|
                0 <= i < j < self.open@.len() implies self.open@[i].id != self.open@[j].id by {
                if j < pre_open.len() {
                    assert(self.open@[i] == pre_open[i]);
                    assert(self.open@[j] == pre_open[j]);
                } else {
                    assert(self.open@[i] == pre_open[i]);
                    assert(pre_open[i].id < id);
                }
            }
            assert(contains_id(self.open@, id)) by {
                assert(self.open@[self.open@.len() - 1].id == id);
            }
        }
        id
    }

    /// Closes the tab carrying `id`: a silent no-op (returning false) when no
    /// open tab carries it or its content refuses closing; otherwise the
    /// record moves to the history tail — evicting the oldest entry beyond
    /// capacity — the selection is repaired per `close_reselect`, and true
    /// comes back.
    #[verifier::loop_isolation(false)]
    pub fn close_tab(&mut self, id: TabId) -> (r: bool)
        requires
            old(self).wf(),
        ensures
            final(self).wf(),
            r == close_target_ok(*old(self), id),
            r ==> close_succeeds(*old(self), *final(self), id),
            !r ==> *final(self) == *old(self),
            old(self).selection_ok() ==> final(self).selection_ok(),
    {
        let ghost pre = *old(self);
        let mut pos: usize = 0;
        while pos < self.open.len()
            invariant
                *self == pre,
                0 <= pos <= pre.open@.len(),
                forall|k: int| 0 <= k < pos ==> pre.open@[k].id != id,
            decreases pre.open@.len() - pos,
        {
            if self.open[pos].id == id {
                proof {
                    lemma_index_of_id_unique(pre.open@, id, pos as int);
                }
                if !self.open[pos].can_close() {
                    return false;
                }
                let ghost p = pos as int;
                let tab = self.open.remove(pos);
                self.history.push(tab);
                if self.history.len() > HISTORY_CAP {
                    self.history.remove(0);
                }
                if self.selected == id {
                    if pos > 0 {
                        let prev_id = self.open[pos - 1].id;
                        self.selected = prev_id;
                    } else if self.open.len() > 0 {
                        let head_id = self.open[0].id;
                        self.selected = head_id;
                    } else {
                        self.selected = 0;
                    }
                }
                proof {
                    lemma_close_effects(pre, *self, id, p);
                }
                return true;
            }
            pos = pos + 1;
        }
        proof {
            if contains_id(pre.open@, id) {
                let w = choose|w: int| 0 <= w < pre.open@.len() && pre.open@[w].id == id;
                assert(pre.open@[w].id != id);
            }
        }
        false
    }

    /// Moves the newest history entry back to the end of the open list and
    /// selects it; a silent no-op when the history is empty.
    pub fn reopen_last_closed_tab(&mut self)
        requires
            old(self).wf(),
        ensures
            final(self).wf(),
            reopen_effect(*old(self), *final(self)),
            old(self).history@.len() > 0 ==> final(self).selection_ok(),
            old(self).selection_ok() ==> final(self).selection_ok(),
    {
        let ghost pre = *old(self);
        if self.history.len() > 0 {
            let popped = self.history.pop();
            let tab = popped.unwrap();
            let tid = tab.id;
            self.open.push(tab);
            self.selected = tid;
            proof {
                let t = pre.history@.last();
                assert(self.history@ =~= pre.history@.drop_last());
                assert forall|i: int, j: int|
                    0 <= i < j < self.open@.len() implies self.open@[i].id
                    != self.open@[j].id by {
                    if j < pre.open@.len() {
                        assert(self.open@[i] == pre.open@[i]);
                        assert(self.open@[j] == pre.open@[j]);
                    } else {
                        assert(self.open@[i] == pre.open@[i]);
                        assert(self.open@[j] == t);
                        assert(pre.open@[i].id != pre.history@[pre.history@.len() - 1].id);
                    }
                }
                assert forall|i: int, j: int|
                    0 <= i < self.open@.len() && 0 <= j < self.history@.len()
                    implies self.open@[i].id != self.history@[j].id by {
                    assert(self.history@[j] == pre.history@[j]);
                    if i < pre.open@.len() {
                        assert(self.open@[i] == pre.open@[i]);
                    } else {
                        assert(self.open@[i] == t);
                        assert(pre.history@[j].id != pre.history@[pre.history@.len() - 1].id);
                    }
                }
                assert forall|i: int|
                    0 <= i < self.open@.len() implies self.open@[i].id < self.next_id by {
                    if i < pre.open@.len() {
                        assert(self.open@[i] == pre.open@[i]);
                    } else {
                        assert(self.open@[i] == t);
                        assert(pre.history@[pre.history@.len() - 1].id < pre.next_id);
                    }
                }
                assert(contains_id(self.open@, tid)) by {
                    assert(self.open@[self.open@.len() - 1].id == tid);
                }
            }
        }
    }

    /// Closes every open tab other than `keep_id` whose content permits
    /// closing, pushing each removed record onto the history in list order and
    /// then evicting the oldest entries beyond capacity. The selection becomes
    /// `keep_id` unconditionally — also when no open tab carries `keep_id`,
    /// which is the caller's responsibility. A pinned tab is not protected
    /// here; only `can_close` is consulted (see `keeps`).
    #[verifier::loop_isolation(false)]
    pub fn close_other_tabs(&mut self, keep_id: TabId)
        requires
            old(self).wf(),
        ensures
            final(self).wf(),
            final(self).open@ == kept_open(old(self).open@, keep_id),
            final(self).history@ == bounded_suffix(
                old(self).history@ + removed_tabs(old(self).open@, keep_id),
            ),
            final(self).selected == keep_id,
            final(self).next_id == old(self).next_id,
            forall|i: int|
                0 <= i < old(self).open@.len() && !old(self).open@[i].spec_can_close()
                    ==> final(self).open@.contains(#[trigger] old(self).open@[i]),
            contains_id(old(self).open@, keep_id) ==> final(self).selection_ok(),
    {
        let ghost orig = self.open@;
        let ghost oh = self.history@;
        let ghost mut j: int = 0;
        let mut i: usize = 0;
        proof {
            assert(orig.take(0) =~= Seq::<TabRecord>::empty());
            assert(self.open@ =~= kept_open(orig.take(0), keep_id) + orig.skip(0));
            assert(self.history@ =~= oh + removed_tabs(orig.take(0), keep_id));
        }
        while i < self.open.len()
            invariant
                0 <= j <= orig.len(),
                i as int == kept_open(orig.take(j), keep_id).len(),
                self.open@ == kept_open(orig.take(j), keep_id) + orig.skip(j),
                self.history@ == oh + removed_tabs(orig.take(j), keep_id),
                self.selected == old(self).selected,
                self.next_id == old(self).next_id,
            decreases self.open@.len() - i,
        {
            let ghost kept_pre = kept_open(orig.take(j), keep_id);
            proof {
                assert(orig.skip(j).len() > 0);
                assert(self.open@[i as int] == orig.skip(j)[0]);
                assert(orig.skip(j)[0] == orig[j]);
                lemma_partition_step(orig, keep_id, j);
            }
            let closable = self.open[i].can_close();
            if closable && self.open[i].id != keep_id {
                let t = self.open.remove(i);
                self.history.push(t);
                proof {
                    assert(!keeps(orig[j], keep_id));
                    (kept_pre + orig.skip(j)).remove_ensures(i as int);
                    assert(self.open@ =~= kept_open(orig.take(j + 1), keep_id) + orig.skip(
                        j + 1,
                    ));
                    assert(self.history@ =~= oh + removed_tabs(orig.take(j + 1), keep_id));
                    j = j + 1;
                }
            } else {
                i = i + 1;
                proof {
                    assert(keeps(orig[j], keep_id));
                    assert(self.open@ =~= kept_open(orig.take(j + 1), keep_id) + orig.skip(
                        j + 1,
                    ));
                    j = j + 1;
                }
            }
        }
        proof {
            assert(orig.skip(j).len() == 0);
            assert(j == orig.len());
            assert(orig.take(j) =~= orig);
            assert(self.open@ =~= kept_open(orig, keep_id));
            assert(self.history@ =~= oh + removed_tabs(orig, keep_id));
        }
        let ghost all = oh + removed_tabs(orig, keep_id);
        proof {
            assert(self.history@ =~= all.skip(0));
        }
        while self.history.len() > HISTORY_CAP
            invariant
                self.history@.len() <= all.len(),
                self.history@ == all.skip(all.len() - self.history@.len()),
                self.history@.len() >= HISTORY_CAP || self.history@.len() == all.len(),
                self.open@ == kept_open(orig, keep_id),
                self.selected == old(self).selected,
                self.next_id == old(self).next_id,
            decreases self.history@.len(),
        {
            let ghost hpre = self.history@;
            self.history.remove(0);
            proof {
                hpre.remove_ensures(0);
                assert(self.history@ =~= all.skip(all.len() - self.history@.len()));
            }
        }
        self.selected = keep_id;
        proof {
            lemma_partition_ids(orig, keep_id);
            let kept = kept_open(orig, keep_id);
            let removed = removed_tabs(orig, keep_id);
            let n = oh.len() as int;

            // The final history is the capacity-suffix of old history plus
            // the removed records.
            if all.len() <= HISTORY_CAP {
                assert(self.history@.len() == all.len());
                assert(self.history@ =~= all);
                assert(self.history@ == bounded_suffix(all));
            } else {
                assert(self.history@.len() == HISTORY_CAP);
                assert(self.history@ == bounded_suffix(all));
            }

            // Every id of `all` is an old history id or an id drawn from the
            // old open list; hence `all` has pairwise distinct ids, disjoint
            // from the kept tabs, all below the allocator.
            assert forall|a: int, b: int| 0 <= a < b < all.len() implies all[a].id != all[b].id by {
                if b < n {
                    assert(all[a] == oh[a]);
                    assert(all[b] == oh[b]);
                } else if a < n {
                    assert(all[a] == oh[a]);
                    assert(all[b] == removed[b - n]);
                    assert(contains_id(orig, removed[b - n].id));
                    let w = choose|w: int| 0 <= w < orig.len() && orig[w].id == removed[b - n].id;
                    assert(orig[w].id != oh[a].id);
                } else {
                    assert(all[a] == removed[a - n]);
                    assert(all[b] == removed[b - n]);
                }
            }
            let d = all.len() - self.history@.len();
            assert forall|a: int, b: int|
                0 <= a < b < self.history@.len() implies self.history@[a].id
                != self.history@[b].id by {
                assert(self.history@[a] == all[a + d]);
                assert(self.history@[b] == all[b + d]);
            }
            assert forall|a: int, b: int|
                0 <= a < self.open@.len() && 0 <= b < self.history@.len()
                implies self.open@[a].id != self.history@[b].id by {
                assert(self.open@[a] == kept[a]);
                assert(self.history@[b] == all[b + d]);
                assert(contains_id(orig, kept[a].id));
                let w = choose|w: int| 0 <= w < orig.len() && orig[w].id == kept[a].id;
                if b + d < n {
                    assert(all[b + d] == oh[b + d]);
                    assert(orig[w].id != oh[b + d].id);
                } else {
                    assert(all[b + d] == removed[b + d - n]);
                }
            }
            assert forall|a: int|
                0 <= a < self.open@.len() implies self.open@[a].id < self.next_id by {
                assert(self.open@[a] == kept[a]);
                assert(contains_id(orig, kept[a].id));
                let w = choose|w: int| 0 <= w < orig.len() && orig[w].id == kept[a].id;
                assert(orig[w].id < old(self).next_id);
            }
            assert forall|b: int|
                0 <= b < self.history@.len() implies self.history@[b].id < self.next_id by {
                assert(self.history@[b] == all[b + d]);
                if b + d < n {
                    assert(all[b + d] == oh[b + d]);
                } else {
                    assert(all[b + d] == removed[b + d - n]);
                    assert(contains_id(orig, removed[b + d - n].id));
                    let w = choose|w: int|
                        0 <= w < orig.len() && orig[w].id == removed[b + d - n].id;
                    assert(orig[w].id < old(self).next_id);
                }
            }

            // The kept tab, when it was open, is still open and selected.
            if contains_id(orig, keep_id) {
                let w = choose|w: int| 0 <= w < orig.len() && orig[w].id == keep_id;
                assert(keeps(orig[w], keep_id));
                assert(kept.contains(orig[w]));
                let v = choose|v: int| 0 <= v < kept.len() && kept[v] == orig[w];
                assert(self.open@[v].id == keep_id);
            }
        }
    }

    /// Flips the pinned flag of the tab carrying `id`; a silent no-op when no
    /// open tab carries it. Nothing else changes.
    #[verifier::loop_isolation(false)]
    pub fn toggle_pin_tab(&mut self, id: TabId)
        requires
            old(self).wf(),
        ensures
            final(self).wf(),
            final(self).history@ == old(self).history@,
            final(self).next_id == old(self).next_id,
            final(self).selected == old(self).selected,
            contains_id(old(self).open@, id) ==> final(self).open@ == old(self).open@.update(
                index_of_id(old(self).open@, id),
                (TabRecord {
                    is_pinned: !old(self).open@[index_of_id(old(self).open@, id)].is_pinned,
                    ..old(self).open@[index_of_id(old(self).open@, id)]
                }),
            ),
            !contains_id(old(self).open@, id) ==> *final(self) == *old(self),
            old(self).selection_ok() ==> final(self).selection_ok(),
    {
        let ghost pre = *old(self);
        let mut pos: usize = 0;
        while pos < self.open.len()
            invariant
                *self == pre,
                pre.wf(),
                0 <= pos <= pre.open@.len(),
                forall|k: int| 0 <= k < pos ==> pre.open@[k].id != id,
            decreases pre.open@.len() - pos,
        {
            if self.open[pos].id == id {
                proof {
                    lemma_index_of_id_unique(pre.open@, id, pos as int);
                }
                let was_pinned = self.open[pos].is_pinned;
                self.open[pos].is_pinned = !was_pinned;
                proof {
                    let p = pos as int;
                    assert(self.open@ == pre.open@.update(
                        p,
                        (TabRecord { is_pinned: !pre.open@[p].is_pinned, ..pre.open@[p] }),
                    ));
                    assert forall|i: int, j: int|
                        0 <= i < j < self.open@.len() implies self.open@[i].id
                        != self.open@[j].id by {
                        assert(self.open@[i].id == pre.open@[i].id);
                        assert(self.open@[j].id == pre.open@[j].id);
                    }
                    assert forall|i: int, j: int|
                        0 <= i < self.open@.len() && 0 <= j < self.history@.len()
                        implies self.open@[i].id != self.history@[j].id by {
                        assert(self.open@[i].id == pre.open@[i].id);
                    }
                    assert forall|i: int|
                        0 <= i < self.open@.len() implies self.open@[i].id < self.next_id by {
                        assert(self.open@[i].id == pre.open@[i].id);
                    }
                    if pre.selection_ok() && self.open@.len() > 0 {
                        let w = choose|w: int|
                            0 <= w < pre.open@.len() && pre.open@[w].id == pre.selected;
                        assert(self.open@[w].id == pre.selected);
                    }
                }
                return;
            }
            pos = pos + 1;
        }
    }

    /// Moves the selection one tab to the right, wrapping at the end; a no-op
    /// on an empty list. Nothing but the selection changes.
    #[verifier::loop_isolation(false)]
    pub fn next_tab(&mut self)
        requires
            old(self).wf(),
        ensures
            final(self).wf(),
            final(self).open@ == old(self).open@,
            final(self).history@ == old(self).history@,
            final(self).next_id == old(self).next_id,
            final(self).selected == next_selected(*old(self)),
            *final(self) == advance(*old(self)),
            final(self).selection_ok(),
    {
        let len = self.open.len();
        if len == 0 {
            return;
        }
        let mut pos: usize = 0;
        while pos < len
            invariant
                *self == *old(self),
                0 <= pos <= len,
                forall|k: int| 0 <= k < pos ==> old(self).open@[k].id != old(self).selected,
            decreases len - pos,
        {
            if self.open[pos].id == self.selected {
                proof {
                    lemma_index_of_id_unique(self.open@, self.selected, pos as int);
                }
                let next_pos = (pos + 1) % len;
                let nid = self.open[next_pos].id;
                self.selected = nid;
                proof {
                    assert(self.open@[next_pos as int].id == self.selected);
                }
                return;
            }
            pos = pos + 1;
        }
        proof {
            if contains_id(self.open@, self.selected) {
                let w = choose|w: int|
                    0 <= w < self.open@.len() && self.open@[w].id == self.selected;
                assert(self.open@[w].id != self.selected);
            }
        }
        let first_id = self.open[0].id;
        self.selected = first_id;
        proof {
            assert(self.open@[0].id == self.selected);
        }
    }

    /// Moves the selection one tab to the left, wrapping at the start; a
    /// no-op on an empty list. Nothing but the selection changes.
    #[verifier::loop_isolation(false)]
    pub fn prev_tab(&mut self)
        requires
            old(self).wf(),
        ensures
            final(self).wf(),
            final(self).open@ == old(self).open@,
            final(self).history@ == old(self).history@,
            final(self).next_id == old(self).next_id,
            final(self).selected == prev_selected(*old(self)),
            final(self).selection_ok(),
    {
        let len = self.open.len();
        if len == 0 {
            return;
        }
        let mut pos: usize = 0;
        while pos < len
            invariant
                *self == *old(self),
                0 <= pos <= len,
                forall|k: int| 0 <= k < pos ==> old(self).open@[k].id != old(self).selected,
            decreases len - pos,
        {
            if self.open[pos].id == self.selected {
                proof {
                    lemma_index_of_id_unique(self.open@, self.selected, pos as int);
                }
                let prev_pos = if pos > 0 {
                    pos - 1
                } else {
                    len - 1
                };
                let pid = self.open[prev_pos].id;
                self.selected = pid;
                proof {
                    assert(self.open@[prev_pos as int].id == self.selected);
                }
                return;
            }
            pos = pos + 1;
        }
        proof {
            if contains_id(self.open@, self.selected) {
                let w = choose|w: int|
                    0 <= w < self.open@.len() && self.open@[w].id == self.selected;
                assert(self.open@[w].id != self.selected);
            }
        }
        let first_id = self.open[0].id;
        self.selected = first_id;
        proof {
            assert(self.open@[0].id == self.selected);
        }
    }

    /// A click on a tab selects it: sets the selection to `id` when an open
    /// tab carries it (returning true), and changes nothing otherwise.
    #[verifier::loop_isolation(false)]
    pub fn select_tab(&mut self, id: TabId) -> (r: bool)
        requires
            old(self).wf(),
        ensures
            final(self).wf(),
            r == contains_id(old(self).open@, id),
            final(self).open@ == old(self).open@,
            final(self).history@ == old(self).history@,
            final(self).next_id == old(self).next_id,
            final(self).selected == (if contains_id(old(self).open@, id) {
                id
            } else {
                old(self).selected
            }),
            old(self).selection_ok() ==> final(self).selection_ok(),
    {
        let mut pos: usize = 0;
        while pos < self.open.len()
            invariant
                *self == *old(self),
                0 <= pos <= self.open@.len(),
                forall|k: int| 0 <= k < pos ==> self.open@[k].id != id,
            decreases self.open@.len() - pos,
        {
            if self.open[pos].id == id {
                self.selected = id;
                proof {
                    assert(self.open@[pos as int].id == id);
                }
                return true;
            }
            pos = pos + 1;
        }
        proof {
            if contains_id(self.open@, id) {
                let w = choose|w: int| 0 <= w < self.open@.len() && self.open@[w].id == id;
                assert(self.open@[w].id != id);
            }
        }
        false
    }

    /// The selected tab's record, when the selection refers to an open tab.
    #[verifier::loop_isolation(false)]
    pub fn get_selected_tab(&self) -> (r: Option<&TabRecord>)
        requires
            self.wf(),
        ensures
            r is Some <==> contains_id(self.open@, self.selected),
            r is Some ==> *r->Some_0 == self.open@[index_of_id(self.open@, self.selected)],
    {
        let mut pos: usize = 0;
        while pos < self.open.len()
            invariant
                0 <= pos <= self.open@.len(),
                forall|k: int| 0 <= k < pos ==> self.open@[k].id != self.selected,
            decreases self.open@.len() - pos,
        {
            if self.open[pos].id == self.selected {
                proof {
                    lemma_index_of_id_unique(self.open@, self.selected, pos as int);
                }
                return Some(&self.open[pos]);
            }
            pos = pos + 1;
        }
        proof {
            if contains_id(self.open@, self.selected) {
                let w = choose|w: int|
                    0 <= w < self.open@.len() && self.open@[w].id == self.selected;
                assert(self.open@[w].id != self.selected);
            }
        }
        None
    }

    /// How many tabs are open.
    pub fn get_tab_count(&self) -> (r: usize)
        ensures
            r == self.open@.len(),
    {
        self.open.len()
    }

    /// Whether "reopen last closed tab" has anything to restore.
    pub fn has_closed_tabs(&self) -> (r: bool)
        ensures
            r == (self.history@.len() > 0),
    {
        self.history.len() > 0
    }

    /// The selection, when it refers to an open tab; nothing otherwise.
    #[verifier::loop_isolation(false)]
    pub fn get_selected_tab_id(&self) -> (r: Option<TabId>)
        ensures
            r is Some <==> contains_id(self.open@, self.selected),
            r is Some ==> r->Some_0 == self.selected,
    {
        let mut pos: usize = 0;
        while pos < self.open.len()
            invariant
                0 <= pos <= self.open@.len(),
                forall|k: int| 0 <= k < pos ==> self.open@[k].id != self.selected,
            decreases self.open@.len() - pos,
        {
            if self.open[pos].id == self.selected {
                return Some(self.selected);
            }
            pos = pos + 1;
        }
        None
    }

    /// The open tabs in order, for tab-strip rendering.
    pub fn get_tabs(&self) -> (r: &Vec<TabRecord>)
        ensures
            r@ == self.open@,
    {
        &self.open
    }
}

} // verus!
