//! The store's global guarantees, written out as proof functions so a reader
//! sees them stated rather than having to derive them from the operations'
//! contracts.

use vstd::prelude::*;
use vstd::arithmetic::div_mod::lemma_mod_self_0;
use vstd::arithmetic::div_mod::lemma_small_mod;

use crate::store::HISTORY_CAP;
use crate::store::TabStore;
use crate::store::advance;
use crate::store::bounded_suffix;
use crate::store::close_succeeds;
use crate::store::close_target_ok;
use crate::store::contains_id;
use crate::store::ids_distinct;
use crate::store::index_of_id;
use crate::store::keeps;
use crate::store::kept_open;
use crate::store::lemma_index_of_id_unique;
use crate::store::lemma_partition_ids;
use crate::store::next_selected;
use crate::store::reopen_effect;
use crate::tab::TabId;
use crate::tab::TabRecord;

verus! {

/// Id freshness: in a well-formed store, the id the next `add_tab` returns —
/// the allocator's current value — is carried by no tab, open or closed.
pub proof fn lemma_next_id_fresh(s: TabStore)
    requires
        s.wf(),
    ensures
        !contains_id(s.open@, s.next_id),
        !contains_id(s.history@, s.next_id),
{
}

/// Id uniqueness: in a well-formed store, no two tabs — across the open list
/// and the history together — carry the same id.
pub proof fn lemma_all_ids_distinct(s: TabStore)
    requires
        s.wf(),
    ensures
        ids_distinct(s.open@ + s.history@),
{
    let all = s.open@ + s.history@;
    let n = s.open@.len() as int;
    assert forall|i: int, j: int| 0 <= i < j < all.len() implies all[i].id != all[j].id by {
        if j < n {
            assert(all[i] == s.open@[i]);
            assert(all[j] == s.open@[j]);
        } else if i < n {
            assert(all[i] == s.open@[i]);
            assert(all[j] == s.history@[j - n]);
        } else {
            assert(all[i] == s.history@[i - n]);
            assert(all[j] == s.history@[j - n]);
        }
    }
}

/// Ids strictly increase across `add_tab` calls. One call on `s0` returns
/// `s0.next_id` and leaves the allocator past it; no operation moves the
/// allocator back (each states `next_id` unchanged or incremented); so a
/// later call, made on any `s2` reached from `s1`, returns a strictly larger
/// id. With `lemma_next_id_fresh`, the ids handed out over any sequence of
/// operations are pairwise distinct.
pub proof fn lemma_add_ids_strictly_increase(
    s0: TabStore,
    s1: TabStore,
    r1: TabId,
    s2: TabStore,
    r2: TabId,
)
    requires
        r1 == s0.next_id,
        s1.next_id == s0.next_id + 1,
        s2.next_id >= s1.next_id,
        r2 == s2.next_id,
    ensures
        r1 < r2,
{
}

/// The history update rule keeps the newest records: the bounded suffix of
/// `s` holds the last `min(len, capacity)` entries of `s` in order, so the
/// oldest entries are exactly the ones dropped.
pub proof fn lemma_bounded_suffix_keeps_newest(s: Seq<TabRecord>)
    ensures
        s.len() <= HISTORY_CAP ==> bounded_suffix(s) == s,
        s.len() > HISTORY_CAP ==> bounded_suffix(s).len() == HISTORY_CAP,
        forall|i: int|
            0 <= i < bounded_suffix(s).len() ==> #[trigger] bounded_suffix(s)[i] == s[s.len()
                - bounded_suffix(s).len() + i],
{
}

/// Non-closable protection: a tab whose content refuses closing cannot be
/// the target of a successful `close_tab` (which then returns false and
/// changes nothing), and survives `close_other_tabs` whatever tab is kept.
pub proof fn lemma_nonclosable_protected(pre: TabStore, i: int, keep_id: TabId)
    requires
        pre.wf(),
        0 <= i < pre.open@.len(),
        !pre.open@[i].spec_can_close(),
    ensures
        !close_target_ok(pre, pre.open@[i].id),
        kept_open(pre.open@, keep_id).contains(pre.open@[i]),
{
    lemma_index_of_id_unique(pre.open@, pre.open@[i].id, i);
    lemma_partition_ids(pre.open@, keep_id);
    assert(keeps(pre.open@[i], keep_id));
}

/// Reopen is last-in-first-out: after closing tab `b` and then tab `c`, the
/// first reopen restores `c` — appended to the open list and selected — and
/// the second restores `b`.
pub proof fn lemma_reopen_lifo(
    s0: TabStore,
    s1: TabStore,
    s2: TabStore,
    s3: TabStore,
    s4: TabStore,
    b: TabId,
    c: TabId,
)
    requires
        s0.wf(),
        s1.wf(),
        s2.wf(),
        s3.wf(),
        close_target_ok(s0, b),
        close_succeeds(s0, s1, b),
        close_target_ok(s1, c),
        close_succeeds(s1, s2, c),
        reopen_effect(s2, s3),
        reopen_effect(s3, s4),
    ensures
        s3.open@.len() > 0,
        s3.open@.last().id == c,
        s3.selected == c,
        s4.open@.len() > 0,
        s4.open@.last().id == b,
        s4.selected == b,
{
    let tb = s0.open@[index_of_id(s0.open@, b)];
    let tc = s1.open@[index_of_id(s1.open@, c)];
    assert(tb.id == b);
    assert(tc.id == c);

    // After closing `b`, the history ends with `b`'s record.
    let h1 = s0.history@.push(tb);
    assert(h1.last() == tb);
    assert(s1.history@.last() == tb) by {
        if h1.len() > HISTORY_CAP {
            assert(s1.history@ == h1.skip(h1.len() - HISTORY_CAP as int));
            assert(s1.history@[HISTORY_CAP - 1] == h1[h1.len() - 1]);
        }
    }
    assert(s1.history@.len() >= 1);

    // After closing `c`, the history ends with `b`'s record then `c`'s.
    let h2 = s1.history@.push(tc);
    assert(h2.last() == tc);
    assert(h2[h2.len() - 2] == tb);
    assert(s2.history@.len() >= 2 && s2.history@.last() == tc && s2.history@[s2.history@.len()
        - 2] == tb) by {
        if h2.len() > HISTORY_CAP {
            assert(s2.history@ == h2.skip(h2.len() - HISTORY_CAP as int));
            assert(s2.history@[HISTORY_CAP - 1] == h2[h2.len() - 1]);
            assert(s2.history@[HISTORY_CAP - 2] == h2[h2.len() - 2]);
        }
    }

    // First reopen: `c` comes back and is selected.
    assert(s3.open@.last() == tc);
    assert(s3.selected == c);
    assert(s3.history@ == s2.history@.drop_last());
    assert(s3.history@.len() >= 1);
    assert(s3.history@.last() == s2.history@[s2.history@.len() - 2]);

    // Second reopen: `b` comes back and is selected.
    assert(s4.open@.last() == tb);
    assert(s4.selected == b);
}

/// `advance` applied once per open tab — what `next_tab` does `N` times on a
/// store with `N` open tabs — returns the store, selection included, to its
/// starting state.
pub open spec fn advance_n(s: TabStore, n: nat) -> TabStore
    decreases n,
{
    if n == 0 {
        s
    } else {
        advance(advance_n(s, (n - 1) as nat))
    }
}

/// `x` reduced into `[0, len)`, for `x` in `[0, 2 * len)`.
pub open spec fn wrap_index(x: int, len: int) -> int {
    if x < len {
        x
    } else {
        x - len
    }
}

/// After `k` advances, the selection sits `k` places (cyclically) to the
/// right of where it started, and nothing else has moved.
proof fn lemma_advance_n_shifts(s: TabStore, k: nat)
    requires
        s.wf(),
        s.selection_ok(),
        s.open@.len() > 0,
        k <= s.open@.len(),
    ensures
        advance_n(s, k) == (TabStore {
            selected: s.open@[wrap_index(
                index_of_id(s.open@, s.selected) + k,
                s.open@.len() as int,
            )].id,
            ..s
        }),
    decreases k,
{
    let len = s.open@.len() as int;
    let p0 = index_of_id(s.open@, s.selected);
    assert(contains_id(s.open@, s.selected));
    assert(0 <= p0 < len && s.open@[p0].id == s.selected);
    if k == 0 {
        assert(advance_n(s, 0) == s);
        assert(wrap_index(p0 + 0, len) == p0);
        assert((TabStore { selected: s.open@[p0].id, ..s }) =~= s);
    } else {
        lemma_advance_n_shifts(s, (k - 1) as nat);
        let w = wrap_index(p0 + k - 1, len);
        let m = advance_n(s, (k - 1) as nat);
        assert(m == (TabStore { selected: s.open@[w].id, ..s }));
        assert(0 <= w < len);
        lemma_index_of_id_unique(s.open@, s.open@[w].id, w);
        assert(index_of_id(m.open@, m.selected) == w);
        assert(contains_id(m.open@, m.selected)) by {
            assert(m.open@[w].id == m.selected);
        }
        assert(advance_n(s, k) == advance(m));
        assert((w + 1) % len == wrap_index(p0 + k, len)) by {
            if w + 1 < len {
                lemma_small_mod((w + 1) as nat, len as nat);
            } else {
                lemma_mod_self_0(len);
            }
        }
        assert(next_selected(m) == s.open@[wrap_index(p0 + k, len)].id);
    }
}

/// Cyclic navigation: `next_tab` applied `N` times, where `N` is the number
/// of open tabs, returns the selection — indeed the whole store — to its
/// original state.
pub proof fn lemma_next_tab_cycles(s: TabStore)
    requires
        s.wf(),
        s.selection_ok(),
        s.open@.len() > 0,
    ensures
        advance_n(s, s.open@.len()) == s,
{
    let len = s.open@.len() as int;
    let p0 = index_of_id(s.open@, s.selected);
    lemma_advance_n_shifts(s, s.open@.len());
    assert(wrap_index(p0 + len, len) == p0);
    assert(s.open@[p0].id == s.selected);
    assert(advance_n(s, s.open@.len()) =~= s);
}

} // verus!
