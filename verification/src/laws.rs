//! What holds of the history as a whole.

use crate::config::DedupMode;
use crate::entry::EntryView;
use crate::store::{
    bumped, duplicate_of, evict_one, evicted, first_with_id, first_with_id_is, first_with_id_sound,
    holds, image_path, is_oldest, last_match_sound, older, older_count, oldest_exists, orphan,
    overflow, refreshed, survives, survivors, survivors_all, touched, unpinned_count,
    unpinned_count_removed, unpinned_exists, StoreView,
};
use vstd::prelude::*;

verus! {

// ---------------------------------------------------------------------------
// Subsequences

/// Whether `at` lists, in rising order, the places of `b` at which `a` stands.
pub open spec fn picks(a: Seq<EntryView>, b: Seq<EntryView>, at: Seq<int>) -> bool {
    &&& at.len() == a.len()
    &&& forall|i: int| 0 <= i < a.len() ==> 0 <= #[trigger] at[i] < b.len() && a[i] == b[at[i]]
    &&& forall|i: int, j: int|
        #![trigger at[i], at[j]]
        0 <= i < j < a.len() ==> at[i] < at[j]
}

/// Whether `a` is `b` with some entries left out.
pub open spec fn is_subsequence(a: Seq<EntryView>, b: Seq<EntryView>) -> bool {
    exists|at: Seq<int>| picks(a, b, at)
}

proof fn survivors_picked(es: Seq<EntryView>, k: nat, n: nat) -> (at: Seq<int>)
    requires
        n <= es.len(),
    ensures
        picks(survivors(es, k, n), es, at),
        forall|i: int| 0 <= i < at.len() ==> #[trigger] at[i] < n && survives(es, at[i], k),
        forall|i: int| 0 <= i < n && survives(es, i, k) ==> #[trigger] at.contains(i),
    decreases n,
{
    if n == 0 {
        Seq::<int>::empty()
    } else {
        let at = survivors_picked(es, k, (n - 1) as nat);
        if survives(es, n - 1, k) {
            let out = at.push(n - 1);
            assert forall|i: int| 0 <= i < n && survives(es, i, k) implies #[trigger] out.contains(
                i,
            ) by {
                if i == n - 1 {
                    assert(out[out.len() - 1] == i);
                } else {
                    assert(at.contains(i));
                    let p = choose|p: int| 0 <= p < at.len() && at[p] == i;
                    assert(out[p] == i);
                }
            }
            out
        } else {
            at
        }
    }
}

proof fn filter_picked(es: Seq<EntryView>, keep: spec_fn(EntryView) -> bool) -> (at: Seq<int>)
    ensures
        picks(es.filter(keep), es, at),
        forall|i: int| 0 <= i < es.filter(keep).len() ==> keep(#[trigger] es.filter(keep)[i]),
    decreases es.len(),
{
    reveal(Seq::filter);
    if es.len() == 0 {
        Seq::<int>::empty()
    } else {
        let at = filter_picked(es.drop_last(), keep);
        let out = if keep(es.last()) {
            at.push(es.len() - 1)
        } else {
            at
        };
        assert forall|i: int| 0 <= i < es.filter(keep).len() implies 0 <= #[trigger] out[i]
            < es.len() && es.filter(keep)[i] == es[out[i]] by {
            if i < at.len() {
                assert(at[i] == out[i]);
            }
        }
        out
    }
}

// ---------------------------------------------------------------------------
// Eviction

/// Eviction leaves entries out and changes nothing else: what is left stands as
/// it stood, in the order in which it stood.
pub proof fn eviction_only_removes(es: Seq<EntryView>, max: nat)
    ensures
        is_subsequence(evicted(es, max), es),
{
    let at = survivors_picked(es, overflow(es, max), es.len());
    assert(picks(evicted(es, max), es, at));
}

/// Pinned entries survive eviction.
pub proof fn eviction_keeps_pins(es: Seq<EntryView>, max: nat)
    ensures
        evicted(es, max).filter(|e: EntryView| e.pinned) == es.filter(|e: EntryView| e.pinned),
{
    survivors_keep_pins(es, overflow(es, max), es.len());
    assert(es.take(es.len() as int) =~= es);
}

proof fn survivors_keep_pins(es: Seq<EntryView>, k: nat, n: nat)
    requires
        n <= es.len(),
    ensures
        survivors(es, k, n).filter(|e: EntryView| e.pinned) == es.take(n as int).filter(
            |e: EntryView| e.pinned,
        ),
    decreases n,
{
    reveal(Seq::filter);
    if n > 0 {
        survivors_keep_pins(es, k, (n - 1) as nat);
        let head = survivors(es, k, (n - 1) as nat);
        assert(es.take(n as int).drop_last() =~= es.take(n - 1));
        assert(head.push(es[n - 1]).drop_last() =~= head);
    } else {
        assert(es.take(0) =~= Seq::<EntryView>::empty());
    }
}

/// After eviction as many unpinned entries are left as there were, or as many as
/// the limit allows where there were more.
pub proof fn eviction_caps_unpinned(es: Seq<EntryView>, max: nat)
    ensures
        unpinned_count(evicted(es, max)) == if unpinned_count(es) > max {
            max
        } else {
            unpinned_count(es)
        },
{
    survivors_counted(es, overflow(es, max));
}

proof fn survivors_counted(es: Seq<EntryView>, k: nat)
    requires
        k <= unpinned_count(es),
    ensures
        unpinned_count(survivors(es, k, es.len())) == unpinned_count(es) - k,
    decreases k,
{
    if k == 0 {
        survivors_all(es, es.len());
        assert(es.take(es.len() as int) =~= es);
    } else {
        let i = unpinned_exists(es);
        assert(!es[i].pinned);
        let m = oldest_exists(es, es.len());
        assert(is_oldest(es, m));
        evict_one(es, m, k);
        unpinned_count_removed(es, m);
        survivors_counted(es.remove(m), (k - 1) as nat);
    }
}

/// Eviction takes the oldest: an entry that goes is older than every unpinned
/// entry that stays.
pub proof fn eviction_takes_oldest(es: Seq<EntryView>, max: nat, i: int, j: int)
    requires
        0 <= i < es.len(),
        0 <= j < es.len(),
        !survives(es, i, overflow(es, max)),
        survives(es, j, overflow(es, max)),
        !es[j].pinned,
    ensures
        older(es, i, j),
        es[i].ts <= es[j].ts,
        es[i].ts == es[j].ts ==> es[i].id <= es[j].id,
        es[i].ts == es[j].ts && es[i].id == es[j].id ==> i < j,
{
    if !older(es, i, j) {
        fewer_are_older(es, j, i, es.len());
    }
}

/// Whether one entry was used no later than another: by its time, then by its id.
pub open spec fn used_no_later(a: EntryView, b: EntryView) -> bool {
    a.ts < b.ts || (a.ts == b.ts && a.id <= b.id)
}

/// Whether `after` is what is left of `before` when the least recently used go:
/// what is left stands as it stood, in its order; whatever went was not pinned and
/// was used no later than any unpinned entry that is left; and as many unpinned
/// entries are left as there were, or `max` where there were more.
pub open spec fn least_recent_went(
    before: Seq<EntryView>,
    after: Seq<EntryView>,
    max: nat,
) -> bool {
    let unpinned = |e: EntryView| !e.pinned;
    &&& exists|at: Seq<int>|
        {
            &&& #[trigger] picks(after, before, at)
            &&& forall|i: int|
                0 <= i < before.len() && !(#[trigger] at.contains(i)) ==> !before[i].pinned
            &&& forall|i: int, j: int|
                #![trigger at.contains(i), at[j]]
                0 <= i < before.len() && !at.contains(i) && 0 <= j < at.len()
                    && !before[at[j]].pinned ==> used_no_later(before[i], before[at[j]])
        }
    &&& after.filter(unpinned).len() == if before.filter(unpinned).len() > max {
        max
    } else {
        before.filter(unpinned).len()
    }
}

/// The count of unpinned entries is that of the entries whose pin is not set.
pub proof fn unpinned_are_counted(es: Seq<EntryView>)
    ensures
        unpinned_count(es) == es.filter(|e: EntryView| !e.pinned).len(),
    decreases es.len(),
{
    reveal(Seq::filter);
    if es.len() > 0 {
        unpinned_are_counted(es.drop_last());
    }
}

/// Eviction keeps pinned entries and takes the least recently used of the others,
/// as many as are too many.
pub proof fn eviction_is_least_recently_used(es: Seq<EntryView>, max: nat)
    ensures
        least_recent_went(es, evicted(es, max), max),
{
    let k = overflow(es, max);
    let after = evicted(es, max);
    let at = survivors_picked(es, k, es.len());
    assert(picks(after, es, at));
    assert forall|i: int| 0 <= i < es.len() && !(#[trigger] at.contains(i)) implies !es[i].pinned by {
        assert(!survives(es, i, k));
    }
    assert forall|i: int, j: int|
        #![trigger at.contains(i), at[j]]
        0 <= i < es.len() && !at.contains(i) && 0 <= j < at.len()
            && !es[at[j]].pinned implies used_no_later(es[i], es[at[j]]) by {
        assert(!survives(es, i, k));
        assert(survives(es, at[j], k));
        eviction_takes_oldest(es, max, i, at[j]);
    }
    eviction_caps_unpinned(es, max);
    unpinned_are_counted(es);
    unpinned_are_counted(after);
}

proof fn fewer_are_older(es: Seq<EntryView>, i: int, j: int, n: nat)
    requires
        older(es, i, j),
    ensures
        older_count(es, i, n) <= older_count(es, j, n),
    decreases n,
{
    if n > 0 {
        fewer_are_older(es, i, j, (n - 1) as nat);
    }
}

/// A history within its limit is left as it is.
pub proof fn eviction_within_limit(es: Seq<EntryView>, max: nat)
    requires
        unpinned_count(es) <= max,
    ensures
        evicted(es, max) == es,
{
    survivors_all(es, es.len());
    assert(es.take(es.len() as int) =~= es);
}

/// Eviction twice over is eviction once.
pub proof fn eviction_is_settled(es: Seq<EntryView>, max: nat)
    ensures
        evicted(evicted(es, max), max) == evicted(es, max),
{
    eviction_caps_unpinned(es, max);
    eviction_within_limit(evicted(es, max), max);
}

// ---------------------------------------------------------------------------
// Recording

proof fn all_older_than_last(es: Seq<EntryView>, new: EntryView, n: nat)
    requires
        n <= es.len(),
        forall|i: int|
            0 <= i < es.len() ==> (#[trigger] es[i]).ts <= new.ts && es[i].id < new.id,
    ensures
        older_count(es.push(new), es.len() as int, n) == unpinned_count(es.take(n as int)),
    decreases n,
{
    if n > 0 {
        all_older_than_last(es, new, (n - 1) as nat);
        assert(es.take(n as int).drop_last() =~= es.take(n - 1));
        assert(es.push(new)[n - 1] == es[n - 1]);
    }
}

/// What is recorded is there: a new entry that is not older than what the
/// history holds stands at its end, and its id finds it, as long as any unpinned
/// entry is kept at all.
pub proof fn recorded_is_found(s: StoreView, new: EntryView, max: nat)
    requires
        s.ids_fresh(),
        new.id == s.next_id,
        forall|i: int| 0 <= i < s.entries.len() ==> (#[trigger] s.entries[i]).ts <= new.ts,
        max >= 1,
    ensures
        ({
            let after = s.appended(new, max).entries;
            &&& after.len() > 0
            &&& after.last() == new
            &&& first_with_id(after, new.id) == Some(after.len() - 1)
        }),
{
    let es = s.entries;
    let all = es.push(new);
    let k = overflow(all, max);
    let after = evicted(all, max);
    all_older_than_last(es, new, es.len());
    assert(es.take(es.len() as int) =~= es);
    assert(all.drop_last() =~= es);
    assert(older_count(all, es.len() as int, all.len()) >= older_count(
        all,
        es.len() as int,
        es.len(),
    ));
    assert(survives(all, es.len() as int, k));
    let head = survivors(all, k, es.len());
    assert(after == head.push(new));
    let at = survivors_picked(all, k, es.len());
    assert forall|i: int| 0 <= i < head.len() implies (#[trigger] after[i]).id != new.id by {
        assert(head[i] == all[at[i]]);
        assert(es[at[i]].id < s.next_id);
    }
    first_with_id_is(after, new.id, head.len() as int);
}

/// What is recorded is in the history afterwards: under every mode some entry has
/// exactly its kind and its whole text, and the time of recording. Unless it was
/// refreshed in place, it is the last one.
pub proof fn recorded_is_there(
    s: StoreView,
    new: EntryView,
    mode: DedupMode,
    max: nat,
) -> (at: int)
    requires
        s.ids_fresh(),
        new.id == s.next_id,
        forall|i: int| 0 <= i < s.entries.len() ==> (#[trigger] s.entries[i]).ts <= new.ts,
        max >= 1,
    ensures
        ({
            let after = s.recorded(new, mode, max).entries;
            &&& 0 <= at < after.len()
            &&& after[at].kind == new.kind
            &&& after[at].text == new.text
            &&& after[at].ts == new.ts
            &&& mode is Update || at == after.len() - 1
        }),
{
    last_match_sound(s.entries, new.kind, new.text);
    let after = s.recorded(new, mode, max).entries;
    match duplicate_of(s.entries, new, mode) {
        None => {
            recorded_is_found(s, new, max);
            after.len() - 1
        },
        Some(i) => if mode is Update {
            i
        } else {
            after.len() - 1
        },
    }
}

/// Where dedup suppresses an insert, nothing is added and no id is used up: the
/// entry that holds the content keeps its id, pin and size, and takes the new
/// timestamp.
pub proof fn duplicate_adds_nothing(s: StoreView, new: EntryView, mode: DedupMode, max: nat)
    requires
        duplicate_of(s.entries, new, mode) is Some,
    ensures
        ({
            let i = duplicate_of(s.entries, new, mode)->0;
            let after = s.recorded(new, mode, max);
            let at = if mode is Update {
                i
            } else {
                after.entries.len() - 1
            };
            &&& 0 <= i < s.entries.len()
            &&& after.next_id == s.next_id
            &&& after.entries.len() == s.entries.len()
            &&& after.entries[at] == touched(s.entries[i], new.ts)
            &&& after.entries.remove(at) == s.entries.remove(i)
        }),
{
    last_match_sound(s.entries, new.kind, new.text);
    let i = duplicate_of(s.entries, new, mode)->0;
    let after = s.recorded(new, mode, max);
    if mode is Update {
        assert(after.entries.remove(i) =~= s.entries.remove(i));
    } else {
        assert(after.entries.remove(after.entries.len() - 1) =~= s.entries.remove(i));
    }
}

/// Recording every copy as an entry of its own always appends.
pub proof fn all_mode_appends(s: StoreView, new: EntryView, max: nat)
    ensures
        s.recorded(new, DedupMode::All, max) == s.appended(new, max),
{
}

/// Whether no content occurs twice.
pub open spec fn no_duplicates(es: Seq<EntryView>) -> bool {
    forall|i: int, j: int|
        #![trigger es[i], es[j]]
        0 <= i < j < es.len() ==> !(es[i].kind == es[j].kind && es[i].text == es[j].text)
}

proof fn subsequence_no_duplicates(a: Seq<EntryView>, b: Seq<EntryView>)
    requires
        is_subsequence(a, b),
        no_duplicates(b),
    ensures
        no_duplicates(a),
{
    let at = choose|at: Seq<int>| picks(a, b, at);
    assert forall|i: int, j: int|
        #![trigger a[i], a[j]]
        0 <= i < j < a.len() implies !holds(a[i], a[j].kind, a[j].text) by {
        assert(at[i] < at[j]);
    }
}

/// Under the modes that suppress repeated content, a history in which no content
/// occurs twice stays one.
pub proof fn dedup_keeps_content_unique(s: StoreView, new: EntryView, mode: DedupMode, max: nat)
    requires
        no_duplicates(s.entries),
        !(mode is All),
    ensures
        no_duplicates(s.recorded(new, mode, max).entries),
{
    let es = s.entries;
    last_match_sound(es, new.kind, new.text);
    match duplicate_of(es, new, mode) {
        None => {
            assert(no_duplicates(es.push(new)));
            eviction_only_removes(es.push(new), max);
            subsequence_no_duplicates(evicted(es.push(new), max), es.push(new));
        },
        Some(k) => {
            if mode is Update {
                assert(no_duplicates(refreshed(es, k, new.ts)));
            } else {
                let after = bumped(es, k, new.ts);
                assert forall|i: int, j: int|
                    #![trigger after[i], after[j]]
                    0 <= i < j < after.len() implies !holds(
                    after[i],
                    after[j].kind,
                    after[j].text,
                ) by {
                    let from_i = if i < k {
                        i
                    } else {
                        i + 1
                    };
                    let from_j = if j == after.len() - 1 {
                        k
                    } else if j < k {
                        j
                    } else {
                        j + 1
                    };
                    assert(after[i] == es[from_i]);
                    if from_i < from_j {
                        assert(!holds(es[from_i], es[from_j].kind, es[from_j].text));
                    } else {
                        assert(!holds(es[from_j], es[from_i].kind, es[from_i].text));
                    }
                }
            }
        },
    }
}

// ---------------------------------------------------------------------------
// Ids

/// Whether no id occurs twice and every id is below the next one.
pub open spec fn ids_ok(s: StoreView) -> bool {
    &&& s.ids_fresh()
    &&& forall|i: int, j: int|
        #![trigger s.entries[i], s.entries[j]]
        0 <= i < j < s.entries.len() ==> s.entries[i].id != s.entries[j].id
}

proof fn subsequence_ids_ok(a: StoreView, b: StoreView)
    requires
        is_subsequence(a.entries, b.entries),
        ids_ok(b),
        a.next_id >= b.next_id,
    ensures
        ids_ok(a),
{
    let at = choose|at: Seq<int>| picks(a.entries, b.entries, at);
    assert forall|i: int| 0 <= i < a.entries.len() implies (#[trigger] a.entries[i]).id
        < a.next_id by {
        assert(a.entries[i] == b.entries[at[i]]);
    }
    assert forall|i: int, j: int|
        #![trigger a.entries[i], a.entries[j]]
        0 <= i < j < a.entries.len() implies a.entries[i].id != a.entries[j].id by {
        assert(at[i] < at[j]);
        assert(b.entries[at[i]].id != b.entries[at[j]].id);
    }
}

/// Recording keeps ids apart: no id is given out twice.
pub proof fn recording_keeps_ids(s: StoreView, new: EntryView, mode: DedupMode, max: nat)
    requires
        ids_ok(s),
        new.id == s.next_id,
        s.next_id < u64::MAX,
    ensures
        ids_ok(s.recorded(new, mode, max)),
{
    let es = s.entries;
    last_match_sound(es, new.kind, new.text);
    match duplicate_of(es, new, mode) {
        None => {
            let next = StoreView {
                entries: es.push(new),
                next_id: (s.next_id + 1) as u64,
                ..s
            };
            assert(ids_ok(next));
            eviction_only_removes(es.push(new), max);
            subsequence_ids_ok(s.appended(new, max), next);
        },
        Some(k) => {
            let after = s.recorded(new, mode, max);
            if mode is Update {
                assert forall|i: int, j: int|
                    #![trigger after.entries[i], after.entries[j]]
                    0 <= i < j < after.entries.len() implies after.entries[i].id
                    != after.entries[j].id by {
                    assert(es[i].id != es[j].id);
                }
                assert forall|i: int| 0 <= i < after.entries.len() implies (
                #[trigger] after.entries[i]).id < after.next_id by {
                    assert(es[i].id < s.next_id);
                }
            } else {
                let n = after.entries.len();
                assert forall|i: int| 0 <= i < n implies (#[trigger] after.entries[i]).id
                    < after.next_id by {
                    let f = if i == n - 1 {
                        k
                    } else if i < k {
                        i
                    } else {
                        i + 1
                    };
                    assert(es[f].id < s.next_id);
                }
                assert forall|i: int, j: int|
                    #![trigger after.entries[i], after.entries[j]]
                    0 <= i < j < n implies after.entries[i].id != after.entries[j].id by {
                    let fi = if i < k {
                        i
                    } else {
                        i + 1
                    };
                    let fj = if j == n - 1 {
                        k
                    } else if j < k {
                        j
                    } else {
                        j + 1
                    };
                    if fi < fj {
                        assert(es[fi].id != es[fj].id);
                    } else {
                        assert(es[fj].id != es[fi].id);
                    }
                }
            }
        },
    }
}

/// Eviction, pinning, deletion and clearing keep ids apart.
pub proof fn upkeep_keeps_ids(s: StoreView, id: u64, max: nat)
    requires
        ids_ok(s),
    ensures
        ids_ok(s.limited(max)),
        ids_ok(s.pin_toggled(id)),
        ids_ok(s.without(id)),
        ids_ok(s.cleared()),
{
    eviction_only_removes(s.entries, max);
    subsequence_ids_ok(s.limited(max), s);
    let at = filter_picked(s.entries, |e: EntryView| e.id != id);
    assert(picks(s.without(id).entries, s.entries, at));
    subsequence_ids_ok(s.without(id), s);
    let at = filter_picked(s.entries, |e: EntryView| e.pinned);
    assert(picks(s.cleared().entries, s.entries, at));
    subsequence_ids_ok(s.cleared(), s);
    first_with_id_sound(s.entries, id);
    let after = s.pin_toggled(id);
    assert forall|i: int| 0 <= i < after.entries.len() implies (#[trigger] after.entries[i]).id
        < after.next_id by {
        assert(s.entries[i].id < s.next_id);
    }
    assert forall|i: int, j: int|
        #![trigger after.entries[i], after.entries[j]]
        0 <= i < j < after.entries.len() implies after.entries[i].id != after.entries[j].id by {
        assert(s.entries[i].id != s.entries[j].id);
    }
}

// ---------------------------------------------------------------------------
// Pins, deletion, images

/// Turning a pin over twice leaves the history as it was.
pub proof fn pin_twice_is_nothing(s: StoreView, id: u64)
    ensures
        s.pin_toggled(id).pin_toggled(id) == s,
{
    first_with_id_sound(s.entries, id);
    match first_with_id(s.entries, id) {
        Some(i) => {
            let once = s.pin_toggled(id);
            assert forall|j: int| 0 <= j < i implies (#[trigger] once.entries[j]).id != id by {
                assert(s.entries[j].id != id);
            }
            first_with_id_is(once.entries, id, i);
            assert(once.pin_toggled(id).entries =~= s.entries);
        },
        None => {},
    }
}

/// What is deleted is gone, and nothing else is.
pub proof fn deleted_is_gone(s: StoreView, id: u64)
    ensures
        first_with_id(s.without(id).entries, id) is None,
        is_subsequence(s.without(id).entries, s.entries),
        forall|i: int|
            0 <= i < s.entries.len() && (#[trigger] s.entries[i]).id != id ==> s.without(
                id,
            ).entries.contains(s.entries[i]),
{
    let keep = |e: EntryView| e.id != id;
    let after = s.without(id).entries;
    let at = filter_picked(s.entries, keep);
    assert(picks(after, s.entries, at));
    assert forall|i: int| 0 <= i < after.len() implies (#[trigger] after[i]).id != id by {
        assert(keep(after[i]));
    }
    first_with_id_is(after, id, after.len() as int);
    assert forall|i: int| 0 <= i < s.entries.len() && (#[trigger] s.entries[i]).id != id implies
        after.contains(s.entries[i]) by {
        assert(keep(s.entries[i]));
    }
}

/// Clearing leaves the pinned entries, and only them.
pub proof fn clearing_keeps_pins(s: StoreView)
    ensures
        is_subsequence(s.cleared().entries, s.entries),
        forall|i: int|
            0 <= i < s.cleared().entries.len() ==> (#[trigger] s.cleared().entries[i]).pinned,
        forall|i: int|
            0 <= i < s.entries.len() && (#[trigger] s.entries[i]).pinned
                ==> s.cleared().entries.contains(s.entries[i]),
        s.cleared().entries.len() + unpinned_count(s.entries) == s.entries.len(),
{
    let keep = |e: EntryView| e.pinned;
    let after = s.cleared().entries;
    let at = filter_picked(s.entries, keep);
    assert(picks(after, s.entries, at));
    assert forall|i: int| 0 <= i < after.len() implies (#[trigger] after[i]).pinned by {
        assert(keep(after[i]));
    }
    assert forall|i: int| 0 <= i < s.entries.len() && (#[trigger] s.entries[i]).pinned implies
        after.contains(s.entries[i]) by {
        assert(keep(s.entries[i]));
    }
    pins_counted(s.entries);
}

proof fn pins_counted(es: Seq<EntryView>)
    ensures
        es.filter(|e: EntryView| e.pinned).len() + unpinned_count(es) == es.len(),
    decreases es.len(),
{
    reveal(Seq::filter);
    if es.len() > 0 {
        pins_counted(es.drop_last());
    }
}

/// A payload that an entry refers to is never pruned.
pub proof fn referenced_images_stay(es: Seq<EntryView>, i: int, name: Seq<char>)
    requires
        0 <= i < es.len(),
        es[i].text == image_path(name),
    ensures
        !orphan(es, name),
{
}

} // verus!
