//! The clipboard history: dedup-aware insertion, LRU eviction that respects
//! pins, lookup, pinning and deletion.

use crate::config::DedupMode;
use crate::entry::{
    image_entry, millis_at, now_ms, stamp, text_entry, Entry, EntryView, Kind,
};
use vstd::prelude::*;

verus! {

/// The name of the history file in the data directory.
pub const HISTORY_FILE: &'static str = "history.jsonl";

/// The name of the lock file in the data directory.
pub const LOCK_FILE: &'static str = "store.lock";

/// The history, oldest entry first.
#[derive(Debug)]
pub struct Store {
    /// Where the history lies.
    pub dir: String,
    /// What it holds.
    pub entries: Vec<Entry>,
    /// The id of the next entry to be recorded.
    pub next_id: u64,
}

/// The model of a history.
#[verifier::ext_equal]
pub struct StoreView {
    /// Where the history lies.
    pub dir: Seq<char>,
    /// What it holds, oldest first.
    pub entries: Seq<EntryView>,
    /// The id of the next entry to be recorded.
    pub next_id: u64,
}

/// The models of a sequence of entries.
pub open spec fn entry_views(v: Seq<Entry>) -> Seq<EntryView> {
    Seq::new(v.len(), |i: int| v[i]@)
}

impl View for Store {
    type V = StoreView;

    open spec fn view(&self) -> StoreView {
        StoreView { dir: self.dir@, entries: entry_views(self.entries@), next_id: self.next_id }
    }
}

// ---------------------------------------------------------------------------
// Finding entries

/// Whether an entry holds given content.
pub open spec fn holds(e: EntryView, kind: Kind, text: Seq<char>) -> bool {
    e.kind == kind && e.text == text
}

/// Where given content stands last, if it does.
pub open spec fn last_match(es: Seq<EntryView>, kind: Kind, text: Seq<char>) -> Option<int>
    decreases es.len(),
{
    if es.len() == 0 {
        None
    } else if holds(es.last(), kind, text) {
        Some(es.len() - 1)
    } else {
        last_match(es.drop_last(), kind, text)
    }
}

/// Where an id stands first, if it does.
pub open spec fn first_with_id(es: Seq<EntryView>, id: u64) -> Option<int>
    decreases es.len(),
{
    if es.len() == 0 {
        None
    } else if es[0].id == id {
        Some(0)
    } else {
        match first_with_id(es.drop_first(), id) {
            Some(i) => Some(i + 1),
            None => None,
        }
    }
}

proof fn last_match_is(es: Seq<EntryView>, kind: Kind, text: Seq<char>, k: int)
    requires
        0 <= k <= es.len(),
        forall|i: int| k <= i < es.len() ==> !holds(#[trigger] es[i], kind, text),
    ensures
        k > 0 && holds(es[k - 1], kind, text) ==> last_match(es, kind, text) == Some(k - 1),
        k == 0 ==> last_match(es, kind, text) is None,
    decreases es.len(),
{
    if es.len() > k {
        assert(!holds(es[es.len() - 1], kind, text));
        assert forall|i: int| k <= i < es.drop_last().len() implies !holds(
            #[trigger] es.drop_last()[i],
            kind,
            text,
        ) by {
            assert(es.drop_last()[i] == es[i]);
        }
        last_match_is(es.drop_last(), kind, text, k);
    }
}

/// The last place of given content holds that very content, and no later place
/// does; where there is none, no place does.
pub proof fn last_match_sound(es: Seq<EntryView>, kind: Kind, text: Seq<char>)
    ensures
        match last_match(es, kind, text) {
            Some(i) => 0 <= i < es.len() && es[i].kind == kind && es[i].text == text && forall|
                j: int,
            |
                i < j < es.len() ==> !((#[trigger] es[j]).kind == kind && es[j].text == text),
            None => forall|j: int|
                0 <= j < es.len() ==> !((#[trigger] es[j]).kind == kind && es[j].text == text),
        },
    decreases es.len(),
{
    if es.len() > 0 && !holds(es.last(), kind, text) {
        last_match_sound(es.drop_last(), kind, text);
        assert forall|j: int| 0 <= j < es.len() - 1 implies #[trigger] es[j] == es.drop_last()[j] by {
        }
    }
}

pub(crate) proof fn first_with_id_is(es: Seq<EntryView>, id: u64, k: int)
    requires
        0 <= k <= es.len(),
        forall|i: int| 0 <= i < k ==> (#[trigger] es[i]).id != id,
    ensures
        k < es.len() && es[k].id == id ==> first_with_id(es, id) == Some(k),
        k == es.len() ==> first_with_id(es, id) is None,
    decreases es.len(),
{
    if k > 0 {
        assert(es[0].id != id);
        assert forall|i: int| 0 <= i < k - 1 implies (#[trigger] es.drop_first()[i]).id != id by {
            assert(es.drop_first()[i] == es[i + 1]);
        }
        first_with_id_is(es.drop_first(), id, k - 1);
    }
}

/// The first place of an id holds it, and no earlier place does; where there is
/// none, no place does.
pub proof fn first_with_id_sound(es: Seq<EntryView>, id: u64)
    ensures
        match first_with_id(es, id) {
            Some(i) => 0 <= i < es.len() && es[i].id == id && forall|j: int|
                0 <= j < i ==> (#[trigger] es[j]).id != id,
            None => forall|j: int| 0 <= j < es.len() ==> (#[trigger] es[j]).id != id,
        },
    decreases es.len(),
{
    if es.len() > 0 && es[0].id != id {
        first_with_id_sound(es.drop_first(), id);
        assert forall|j: int| 1 <= j < es.len() implies #[trigger] es[j] == es.drop_first()[j
            - 1] by {}
    }
}

// ---------------------------------------------------------------------------
// Eviction

/// Whether entry `i` is due for eviction before entry `j`: older by timestamp,
/// then by id, then by position.
pub open spec fn older(es: Seq<EntryView>, i: int, j: int) -> bool {
    ||| es[i].ts < es[j].ts
    ||| es[i].ts == es[j].ts && es[i].id < es[j].id
    ||| es[i].ts == es[j].ts && es[i].id == es[j].id && i < j
}

/// How many unpinned entries among the first `n` are older than entry `i`.
pub open spec fn older_count(es: Seq<EntryView>, i: int, n: nat) -> nat
    decreases n,
{
    if n == 0 {
        0
    } else if !es[n - 1].pinned && older(es, n - 1, i) {
        older_count(es, i, (n - 1) as nat) + 1
    } else {
        older_count(es, i, (n - 1) as nat)
    }
}

/// How many entries are not pinned.
pub open spec fn unpinned_count(es: Seq<EntryView>) -> nat
    decreases es.len(),
{
    if es.len() == 0 {
        0
    } else if es.last().pinned {
        unpinned_count(es.drop_last())
    } else {
        unpinned_count(es.drop_last()) + 1
    }
}

/// How many unpinned entries there are beyond the limit.
pub open spec fn overflow(es: Seq<EntryView>, max: nat) -> nat {
    if unpinned_count(es) > max {
        (unpinned_count(es) - max) as nat
    } else {
        0
    }
}

/// Whether entry `i` stays when the `k` oldest unpinned entries go.
pub open spec fn survives(es: Seq<EntryView>, i: int, k: nat) -> bool {
    es[i].pinned || older_count(es, i, es.len()) >= k
}

/// Those of the first `n` entries that stay when the `k` oldest unpinned
/// entries go, in their order.
pub open spec fn survivors(es: Seq<EntryView>, k: nat, n: nat) -> Seq<EntryView>
    decreases n,
{
    if n == 0 {
        seq![]
    } else if survives(es, n - 1, k) {
        survivors(es, k, (n - 1) as nat).push(es[n - 1])
    } else {
        survivors(es, k, (n - 1) as nat)
    }
}

/// What is left when unpinned entries beyond `max` are evicted, oldest first.
pub open spec fn evicted(es: Seq<EntryView>, max: nat) -> Seq<EntryView> {
    survivors(es, overflow(es, max), es.len())
}

/// Whether entry `m` is the unpinned entry that goes first.
pub(crate) open spec fn is_oldest(es: Seq<EntryView>, m: int) -> bool {
    &&& 0 <= m < es.len()
    &&& !es[m].pinned
    &&& forall|j: int| 0 <= j < es.len() && j != m && !es[j].pinned ==> #[trigger] older(es, m, j)
}

spec fn skip_over(m: int, i: int) -> int {
    if i < m {
        i
    } else {
        i + 1
    }
}

proof fn older_count_removed(es: Seq<EntryView>, m: int, i: int, n: nat)
    requires
        is_oldest(es, m),
        0 <= i < es.len() - 1,
        n < es.len(),
        !es[skip_over(m, i)].pinned,
    ensures
        older_count(es.remove(m), i, n) == if n <= m {
            older_count(es, skip_over(m, i), n) as int
        } else {
            older_count(es, skip_over(m, i), n + 1) - 1
        },
    decreases n,
{
    let rest = es.remove(m);
    let t = skip_over(m, i);
    assert(rest[i] == es[t]);
    if n > 0 {
        older_count_removed(es, m, i, (n - 1) as nat);
        let j = n - 1;
        assert(rest[j] == es[skip_over(m, j)]);
        assert(older(rest, j, i) == older(es, skip_over(m, j), t));
        if n == m + 1 {
            assert(older(es, m, t));
            assert(older_count(es, t, n + 1) == older_count(es, t, n) + (if !es[n as int].pinned
                && older(es, n as int, t) {
                1nat
            } else {
                0nat
            }));
            assert(older_count(es, t, n) == older_count(es, t, (n - 1) as nat) + 1);
        }
    } else if m == 0 {
    }
}

/// Where some entry is not pinned, one of them goes first.
pub(crate) proof fn oldest_exists(es: Seq<EntryView>, n: nat) -> (m: int)
    requires
        n <= es.len(),
        exists|i: int| 0 <= i < n && !(#[trigger] es[i]).pinned,
    ensures
        0 <= m < n,
        !es[m].pinned,
        forall|j: int| 0 <= j < n && j != m && !es[j].pinned ==> #[trigger] older(es, m, j),
    decreases n,
{
    if exists|i: int| 0 <= i < n - 1 && !(#[trigger] es[i]).pinned {
        let m = oldest_exists(es, (n - 1) as nat);
        if !es[n - 1].pinned && older(es, n - 1, m) {
            assert forall|j: int| 0 <= j < n && j != n - 1 && !es[j].pinned implies #[trigger] older(
                es,
                n - 1,
                j,
            ) by {
                if j != m {
                    assert(older(es, m, j));
                }
            }
            n - 1
        } else {
            m
        }
    } else {
        n - 1
    }
}

proof fn oldest_has_none_older(es: Seq<EntryView>, m: int, n: nat)
    requires
        is_oldest(es, m),
        n <= es.len(),
    ensures
        older_count(es, m, n) == 0,
    decreases n,
{
    if n > 0 {
        oldest_has_none_older(es, m, (n - 1) as nat);
        if n - 1 != m && !es[n - 1].pinned {
            assert(older(es, m, n - 1));
        }
    }
}

proof fn survivors_removed(es: Seq<EntryView>, m: int, k: nat, n: nat)
    requires
        is_oldest(es, m),
        k > 0,
        n < es.len(),
    ensures
        survivors(es.remove(m), (k - 1) as nat, n) == survivors(
            es,
            k,
            if n <= m {
                n
            } else {
                n + 1
            },
        ),
    decreases n,
{
    let rest = es.remove(m);
    oldest_has_none_older(es, m, es.len());
    assert(!survives(es, m, k));
    if n > 0 {
        survivors_removed(es, m, k, (n - 1) as nat);
        let i = n - 1;
        let t = skip_over(m, i);
        assert(rest[i] == es[t]);
        if !es[t].pinned {
            older_count_removed(es, m, i, rest.len());
        }
        assert(survives(rest, i, (k - 1) as nat) == survives(es, t, k));
        if n == m + 1 {
            assert(survivors(es, k, n) == survivors(es, k, (n - 1) as nat));
        }
    }
}

/// Taking out the oldest unpinned entry leaves one entry less to evict.
pub(crate) proof fn evict_one(es: Seq<EntryView>, m: int, k: nat)
    requires
        is_oldest(es, m),
        k > 0,
    ensures
        survivors(es.remove(m), (k - 1) as nat, es.remove(m).len()) == survivors(es, k, es.len()),
{
    survivors_removed(es, m, k, (es.len() - 1) as nat);
    if m == es.len() - 1 {
        oldest_has_none_older(es, m, es.len());
        assert(!survives(es, m, k));
    }
}

pub(crate) proof fn unpinned_count_removed(es: Seq<EntryView>, m: int)
    requires
        0 <= m < es.len(),
        !es[m].pinned,
    ensures
        unpinned_count(es.remove(m)) == unpinned_count(es) - 1,
    decreases es.len(),
{
    if m == es.len() - 1 {
        assert(es.remove(m) =~= es.drop_last());
    } else {
        assert(es.remove(m).drop_last() =~= es.drop_last().remove(m));
        assert(es.remove(m).last() == es.last());
        unpinned_count_removed(es.drop_last(), m);
    }
}

pub(crate) proof fn survivors_all(es: Seq<EntryView>, n: nat)
    requires
        n <= es.len(),
    ensures
        survivors(es, 0, n) == es.take(n as int),
    decreases n,
{
    if n > 0 {
        survivors_all(es, (n - 1) as nat);
        assert(es.take(n as int) =~= es.take(n - 1).push(es[n - 1]));
    }
}

pub(crate) proof fn unpinned_exists(es: Seq<EntryView>) -> (i: int)
    requires
        unpinned_count(es) > 0,
    ensures
        0 <= i < es.len(),
        !es[i].pinned,
    decreases es.len(),
{
    if es.last().pinned {
        unpinned_exists(es.drop_last())
    } else {
        es.len() - 1
    }
}

fn is_older(es: &Vec<Entry>, i: usize, j: usize) -> (res: bool)
    requires
        i < es@.len(),
        j < es@.len(),
    ensures
        res == older(entry_views(es@), i as int, j as int),
{
    let a: &Entry = &es[i];
    let b: &Entry = &es[j];
    a.ts < b.ts || (a.ts == b.ts && a.id < b.id) || (a.ts == b.ts && a.id == b.id && i < j)
}

/// Where the unpinned entry stands that goes first.
fn oldest_unpinned(es: &Vec<Entry>) -> (m: usize)
    requires
        unpinned_count(entry_views(es@)) > 0,
    ensures
        is_oldest(entry_views(es@), m as int),
{
    let ghost v = entry_views(es@);
    let mut best: Option<usize> = None;
    let mut i: usize = 0;
    while i < es.len()
        invariant
            v == entry_views(es@),
            i <= es@.len(),
            match best {
                Some(m) => m < i && !v[m as int].pinned && forall|j: int|
                    0 <= j < i && j != m && !v[j].pinned ==> #[trigger] older(v, m as int, j),
                None => forall|j: int| 0 <= j < i ==> (#[trigger] v[j]).pinned,
            },
        decreases es@.len() - i,
    {
        assert(v[i as int] == es@[i as int]@);
        if !es[i].pinned {
            match best {
                Some(m) => {
                    if is_older(es, i, m) {
                        assert forall|j: int| 0 <= j < i + 1 && j != i && !v[j].pinned implies
                            #[trigger] older(v, i as int, j) by {
                            if j != m {
                                assert(older(v, m as int, j));
                            }
                        }
                        best = Some(i);
                    } else {
                        assert(older(v, m as int, i as int));
                    }
                },
                None => {
                    assert forall|j: int| 0 <= j < i + 1 && j != i && !v[j].pinned implies
                        #[trigger] older(v, i as int, j) by {
                        assert(v[j].pinned);
                    }
                    best = Some(i);
                },
            }
        }
        i = i + 1;
    }
    match best {
        Some(m) => m,
        None => {
            proof {
                let j = unpinned_exists(v);
                assert(v[j].pinned);
            }
            0
        },
    }
}

fn count_unpinned(es: &Vec<Entry>) -> (n: usize)
    ensures
        n == unpinned_count(entry_views(es@)),
{
    let ghost v = entry_views(es@);
    let mut n: usize = 0;
    let mut i: usize = 0;
    assert(v.take(0) =~= Seq::<EntryView>::empty());
    while i < es.len()
        invariant
            v == entry_views(es@),
            i <= es@.len(),
            n <= i,
            n == unpinned_count(v.take(i as int)),
        decreases es@.len() - i,
    {
        assert(v.take(i + 1).drop_last() =~= v.take(i as int));
        assert(v.take(i + 1).last() == es@[i as int]@);
        if !es[i].pinned {
            n = n + 1;
        }
        i = i + 1;
    }
    assert(v.take(v.len() as int) =~= v);
    n
}

/// Evict unpinned entries beyond `max`, oldest first.
fn evict(es: &mut Vec<Entry>, max: usize)
    ensures
        entry_views(final(es)@) == evicted(entry_views(old(es)@), max as nat),
{
    let ghost before = entry_views(es@);
    let total: usize = count_unpinned(es);
    let mut left: usize = if total > max {
        total - max
    } else {
        0
    };
    while left > 0
        invariant
            left <= unpinned_count(entry_views(es@)),
            survivors(entry_views(es@), left as nat, es@.len()) == evicted(before, max as nat),
        decreases left,
    {
        let ghost v = entry_views(es@);
        let m: usize = oldest_unpinned(es);
        es.remove(m);
        proof {
            assert(entry_views(es@) =~= v.remove(m as int));
            evict_one(v, m as int, left as nat);
            unpinned_count_removed(v, m as int);
        }
        left = left - 1;
    }
    proof {
        let v = entry_views(es@);
        survivors_all(v, v.len());
        assert(v.take(v.len() as int) =~= v);
    }
}

// ---------------------------------------------------------------------------
// Operations

/// An entry with another timestamp.
pub open spec fn touched(e: EntryView, now: i64) -> EntryView {
    EntryView { ts: now, ..e }
}

/// Entry `i` moved to the end with a new timestamp.
pub open spec fn bumped(es: Seq<EntryView>, i: int, now: i64) -> Seq<EntryView> {
    es.remove(i).push(touched(es[i], now))
}

/// Entry `i` left in place with a new timestamp.
pub open spec fn refreshed(es: Seq<EntryView>, i: int, now: i64) -> Seq<EntryView> {
    es.update(i, touched(es[i], now))
}

/// Where the content of a new entry stands already, if the mode lets that
/// suppress the insert.
pub open spec fn duplicate_of(es: Seq<EntryView>, new: EntryView, mode: DedupMode) -> Option<int> {
    match mode {
        DedupMode::All => None,
        _ => last_match(es, new.kind, new.text),
    }
}

/// The largest id in use; zero where there is none.
pub open spec fn max_id(es: Seq<EntryView>) -> u64
    decreases es.len(),
{
    if es.len() == 0 {
        0
    } else if es.last().id > max_id(es.drop_last()) {
        es.last().id
    } else {
        max_id(es.drop_last())
    }
}

impl StoreView {
    /// A new entry at the end, then unpinned entries beyond `max` evicted.
    pub open spec fn appended(self, new: EntryView, max: nat) -> StoreView {
        StoreView {
            entries: evicted(self.entries.push(new), max),
            next_id: (self.next_id + 1) as u64,
            ..self
        }
    }

    /// New content recorded: an entry that holds it already is moved to the end
    /// or refreshed in place, as the mode says; otherwise the entry is appended.
    pub open spec fn recorded(self, new: EntryView, mode: DedupMode, max: nat) -> StoreView {
        match duplicate_of(self.entries, new, mode) {
            None => self.appended(new, max),
            Some(i) => match mode {
                DedupMode::Update => StoreView {
                    entries: refreshed(self.entries, i, new.ts),
                    ..self
                },
                _ => StoreView { entries: bumped(self.entries, i, new.ts), ..self },
            },
        }
    }

    /// Unpinned entries beyond `max` evicted.
    pub open spec fn limited(self, max: nat) -> StoreView {
        StoreView { entries: evicted(self.entries, max), ..self }
    }

    /// The pin of the first entry with an id turned over.
    pub open spec fn pin_toggled(self, id: u64) -> StoreView {
        match first_with_id(self.entries, id) {
            Some(i) => {
                let e = self.entries[i];
                StoreView {
                    entries: self.entries.update(i, EntryView { pinned: !e.pinned, ..e }),
                    ..self
                }
            },
            None => self,
        }
    }

    /// Every entry with an id taken out.
    pub open spec fn without(self, id: u64) -> StoreView {
        StoreView { entries: self.entries.filter(|e: EntryView| e.id != id), ..self }
    }

    /// Every entry taken out that is not pinned.
    pub open spec fn cleared(self) -> StoreView {
        StoreView { entries: self.entries.filter(|e: EntryView| e.pinned), ..self }
    }

    /// Whether every id in use is below the next one to be given out.
    pub open spec fn ids_fresh(self) -> bool {
        forall|i: int| 0 <= i < self.entries.len() ==> (#[trigger] self.entries[i]).id < self.next_id
    }
}

/// Whether a text ends with another.
pub open spec fn ends_with(s: Seq<char>, suffix: Seq<char>) -> bool {
    s.len() >= suffix.len() && s.skip(s.len() - suffix.len()) == suffix
}

/// The relative path of an image payload file.
pub open spec fn image_path(name: Seq<char>) -> Seq<char> {
    "images/"@ + name
}

/// Whether a file in the image directory is a payload that no entry refers to.
pub open spec fn orphan(es: Seq<EntryView>, name: Seq<char>) -> bool {
    ends_with(name, ".png"@) && forall|i: int|
        0 <= i < es.len() ==> (#[trigger] es[i]).text != image_path(name)
}

/// Where the bytes of an entry's payload are to be had.
#[derive(Debug, PartialEq, Eq)]
pub enum Payload {
    /// The bytes themselves.
    Bytes(Vec<u8>),
    /// The path of the file that holds them.
    File(String),
}

impl Store {
    /// The history of a directory, given the entries it holds.
    pub fn open(dir: &str, entries: Vec<Entry>) -> (s: Store)
        requires
            max_id(entry_views(entries@)) < u64::MAX,
        ensures
            s@ == (StoreView {
                dir: dir@,
                entries: entry_views(entries@),
                next_id: (max_id(entry_views(entries@)) + 1) as u64,
            }),
            s.entries == entries,
            s@.ids_fresh(),
    {
        let top: u64 = largest_id(&entries);
        proof {
            assert forall|i: int| 0 <= i < entries@.len() implies (#[trigger] entry_views(
                entries@,
            )[i]).id <= top by {
                max_id_bounds(entry_views(entries@), i);
            }
        }
        Store { dir: dir.to_owned(), entries, next_id: top + 1 }
    }

    /// Newest entry first.
    pub fn iter_newest_first(&self) -> (out: Vec<&Entry>)
        ensures
            out@.len() == self@.entries.len(),
            forall|i: int|
                0 <= i < out@.len() ==> (#[trigger] out@[i])@ == self@.entries[out@.len() - 1 - i],
    {
        let mut out: Vec<&Entry> = Vec::new();
        let n: usize = self.entries.len();
        let mut i: usize = 0;
        while i < n
            invariant
                n == self.entries@.len(),
                i <= n,
                out@.len() == i,
                forall|k: int|
                    0 <= k < i ==> (#[trigger] out@[k])@ == self@.entries[n - 1 - k],
            decreases n - i,
        {
            out.push(&self.entries[n - 1 - i]);
            i = i + 1;
        }
        out
    }

    pub fn len(&self) -> (n: usize)
        ensures
            n == self@.entries.len(),
    {
        self.entries.len()
    }

    pub fn is_empty(&self) -> (res: bool)
        ensures
            res == (self@.entries.len() == 0),
    {
        self.entries.len() == 0
    }

    pub fn data_dir(&self) -> (dir: &str)
        ensures
            dir@ == self@.dir,
    {
        self.dir.as_str()
    }

    /// Where given content stands last.
    fn find_last(&self, kind: Kind, text: &String) -> (res: Option<usize>)
        ensures
            match res {
                Some(i) => last_match(self@.entries, kind, text@) == Some(i as int) && i
                    < self.entries@.len(),
                None => last_match(self@.entries, kind, text@) is None,
            },
    {
        let ghost v = self@.entries;
        let mut i: usize = self.entries.len();
        while i > 0
            invariant
                v == self@.entries,
                i <= self.entries@.len(),
                forall|j: int| i <= j < v.len() ==> !holds(#[trigger] v[j], kind, text@),
            decreases i,
        {
            assert(v[i - 1] == self.entries@[i - 1]@);
            if self.entries[i - 1].kind == kind && self.entries[i - 1].text == *text {
                proof {
                    last_match_is(v, kind, text@, i as int);
                }
                return Some(i - 1);
            }
            i = i - 1;
        }
        proof {
            last_match_is(v, kind, text@, 0);
        }
        None
    }

    /// Whether some content stands in the history already, where the mode lets that
    /// suppress an insert.
    pub fn suppresses(&self, kind: Kind, text: &str, mode: DedupMode) -> (res: bool)
        ensures
            res == (!(mode is All) && last_match(self@.entries, kind, text@) is Some),
    {
        match mode {
            DedupMode::All => false,
            _ => self.find_last(kind, &text.to_owned()).is_some(),
        }
    }

    /// Where an id stands first.
    fn find_id(&self, id: u64) -> (res: Option<usize>)
        ensures
            match res {
                Some(i) => first_with_id(self@.entries, id) == Some(i as int) && i
                    < self.entries@.len(),
                None => first_with_id(self@.entries, id) is None,
            },
    {
        let ghost v = self@.entries;
        let mut i: usize = 0;
        while i < self.entries.len()
            invariant
                v == self@.entries,
                i <= self.entries@.len(),
                forall|j: int| 0 <= j < i ==> (#[trigger] v[j]).id != id,
            decreases self.entries@.len() - i,
        {
            assert(v[i as int] == self.entries@[i as int]@);
            if self.entries[i].id == id {
                proof {
                    first_with_id_is(v, id, i as int);
                }
                return Some(i);
            }
            i = i + 1;
        }
        proof {
            first_with_id_is(v, id, i as int);
        }
        None
    }

    /// Append a new entry and evict what is beyond the limit.
    fn append(&mut self, new: Entry, max_entries: usize)
        requires
            old(self)@.next_id < u64::MAX,
        ensures
            final(self)@ == old(self)@.appended(new@, max_entries as nat),
    {
        let ghost v = self@.entries;
        self.next_id = self.next_id + 1;
        self.entries.push(new);
        assert(entry_views(self.entries@) =~= v.push(new@));
        evict(&mut self.entries, max_entries);
    }

    /// Record new content. Returns `None` when dedup suppressed the insert.
    pub(crate) fn record(&mut self, new: Entry, mode: DedupMode, max_entries: usize) -> (res: Option<u64>)
        requires
            duplicate_of(old(self)@.entries, new@, mode) is None ==> old(self)@.next_id < u64::MAX,
        ensures
            final(self)@ == old(self)@.recorded(new@, mode, max_entries as nat),
            res == (match duplicate_of(old(self)@.entries, new@, mode) {
                Some(_) => None,
                None => Some(new.id),
            }),
    {
        let ghost v = self@.entries;
        let id: u64 = new.id;
        let found: Option<usize> = match mode {
            DedupMode::All => None,
            _ => self.find_last(new.kind, &new.text),
        };
        match found {
            None => {
                self.append(new, max_entries);
                Some(id)
            },
            Some(i) => {
                assert(v[i as int] == self.entries@[i as int]@);
                if mode == DedupMode::Update {
                    let mut e = self.entries[i].clone();
                    e.ts = new.ts;
                    self.entries.set(i, e);
                    assert(entry_views(self.entries@) =~= refreshed(v, i as int, new.ts));
                } else {
                    let mut e = self.entries.remove(i);
                    e.ts = new.ts;
                    self.entries.push(e);
                    assert(entry_views(self.entries@) =~= bumped(v, i as int, new.ts));
                }
                None
            },
        }
    }

    /// Record a text at a given time. Returns its id, or `None` when dedup
    /// suppressed the insert (the existing entry was bumped or refreshed
    /// instead).
    pub fn push_text_at(
        &mut self,
        text: &str,
        mode: DedupMode,
        now: i64,
        max_entries: usize,
    ) -> (res: Option<u64>)
        requires
            duplicate_of(
                old(self)@.entries,
                text_entry(old(self)@.next_id, now, text@),
                mode,
            ) is None ==> old(self)@.next_id < u64::MAX,
        ensures
            final(self)@ == old(self)@.recorded(
                text_entry(old(self)@.next_id, now, text@),
                mode,
                max_entries as nat,
            ),
            res == (match duplicate_of(
                old(self)@.entries,
                text_entry(old(self)@.next_id, now, text@),
                mode,
            ) {
                Some(_) => None,
                None => Some(old(self)@.next_id),
            }),
    {
        let new = Entry::new_text(self.next_id, now, text);
        self.record(new, mode, max_entries)
    }

    /// Record a text now.
    pub fn push_text(&mut self, text: &str, mode: DedupMode, max_entries: usize) -> (res: Option<
        u64,
    >)
        requires
            duplicate_of(old(self)@.entries, text_entry(old(self)@.next_id, 0, text@), mode) is None
                ==> old(self)@.next_id < u64::MAX,
        ensures
            exists|t: std::time::SystemTime|
                {
                    let now = stamp(#[trigger] millis_at(t)) as i64;
                    let new = text_entry(old(self)@.next_id, now, text@);
                    &&& final(self)@ == old(self)@.recorded(new, mode, max_entries as nat)
                    &&& res == (match duplicate_of(old(self)@.entries, new, mode) {
                        Some(_) => None,
                        None => Some(old(self)@.next_id),
                    })
                },
    {
        let now: i64 = now_ms();
        self.push_text_at(text, mode, now, max_entries)
    }

    /// Insert an image entry (its PNG already written by the caller) and return
    /// its id.
    pub fn push_image_entry(&mut self, rel_path: &str, size: u64, now: i64, max_entries: usize) -> (id: u64)
        requires
            old(self)@.next_id < u64::MAX,
        ensures
            id == old(self)@.next_id,
            final(self)@ == old(self)@.appended(
                image_entry(old(self)@.next_id, now, rel_path@, size),
                max_entries as nat,
            ),
    {
        let id: u64 = self.next_id;
        let new = Entry::new_image(id, now, rel_path, size);
        self.append(new, max_entries);
        id
    }

    /// Enforce retention limits after bulk mutations such as import.
    pub fn enforce_limits(&mut self, max_entries: usize)
        ensures
            final(self)@ == old(self)@.limited(max_entries as nat),
    {
        evict(&mut self.entries, max_entries);
    }

    /// The entry with a given id.
    pub fn get(&self, id: u64) -> (res: Option<&Entry>)
        ensures
            match res {
                Some(e) => first_with_id(self@.entries, id) matches Some(i) && e@
                    == self@.entries[i],
                None => first_with_id(self@.entries, id) is None,
            },
    {
        match self.find_id(id) {
            Some(i) => Some(&self.entries[i]),
            None => None,
        }
    }

    /// Toggle pin state. Returns the new state, or `None` if not found.
    pub fn toggle_pin(&mut self, id: u64) -> (res: Option<bool>)
        ensures
            final(self)@ == old(self)@.pin_toggled(id),
            res == (match first_with_id(old(self)@.entries, id) {
                Some(i) => Some(!old(self)@.entries[i].pinned),
                None => None,
            }),
    {
        let ghost v = self@.entries;
        match self.find_id(id) {
            None => None,
            Some(i) => {
                assert(v[i as int] == self.entries@[i as int]@);
                let mut e = self.entries[i].clone();
                e.pinned = !e.pinned;
                let state: bool = e.pinned;
                self.entries.set(i, e);
                assert(entry_views(self.entries@) =~= v.update(
                    i as int,
                    EntryView { pinned: state, ..v[i as int] },
                ));
                Some(state)
            },
        }
    }

    /// Delete by id; returns true when something was deleted.
    pub fn delete(&mut self, id: u64) -> (res: bool)
        ensures
            final(self)@ == old(self)@.without(id),
            res == (first_with_id(old(self)@.entries, id) is Some),
    {
        let res: bool = self.find_id(id).is_some();
        retain(&mut self.entries, Keep::OtherThan(id));
        res
    }

    /// Remove all unpinned entries; returns how many were removed.
    pub fn clear_unpinned(&mut self) -> (n: usize)
        ensures
            final(self)@ == old(self)@.cleared(),
            n == unpinned_count(old(self)@.entries),
    {
        let n: usize = count_unpinned(&self.entries);
        retain(&mut self.entries, Keep::Pinned);
        n
    }

    /// Payload of an entry: the text itself, or the PNG file that holds it.
    pub fn payload_bytes(&self, e: &Entry) -> (out: Payload)
        ensures
            match (e@.payload_path(self@.dir), out) {
                (None, Payload::Bytes(b)) => b@ == vstd::utf8::encode_utf8(e@.text),
                (Some(p), Payload::File(f)) => f@ == p,
                _ => false,
            },
    {
        match e.payload_path(self.dir.as_str()) {
            None => Payload::Bytes(e.text.as_str().as_bytes_vec()),
            Some(p) => Payload::File(p),
        }
    }

    /// Whether a file of the image directory can go: a PNG that no entry refers
    /// to.
    pub fn is_orphan_image(&self, name: &str) -> (res: bool)
        ensures
            res == orphan(self@.entries, name@),
    {
        if !has_suffix(name, ".png") {
            return false;
        }
        let wanted: String = "images/".to_owned().concat(name);
        let ghost v = self@.entries;
        let mut i: usize = 0;
        while i < self.entries.len()
            invariant
                v == self@.entries,
                wanted@ == image_path(name@),
                i <= self.entries@.len(),
                forall|j: int| 0 <= j < i ==> (#[trigger] v[j]).text != wanted@,
            decreases self.entries@.len() - i,
        {
            assert(v[i as int] == self.entries@[i as int]@);
            if self.entries[i].text == wanted {
                return false;
            }
            i = i + 1;
        }
        true
    }
}

/// Which entries a bulk removal keeps.
enum Keep {
    OtherThan(u64),
    Pinned,
}

impl Keep {
    spec fn keeps(self) -> spec_fn(EntryView) -> bool {
        match self {
            Keep::OtherThan(id) => |e: EntryView| e.id != id,
            Keep::Pinned => |e: EntryView| e.pinned,
        }
    }

    fn test(&self, e: &Entry) -> (res: bool)
        ensures
            res == self.keeps()(e@),
    {
        match self {
            Keep::OtherThan(id) => e.id != *id,
            Keep::Pinned => e.pinned,
        }
    }
}

/// Keep the entries that a rule keeps, in their order.
fn retain(es: &mut Vec<Entry>, keep: Keep)
    ensures
        entry_views(final(es)@) == entry_views(old(es)@).filter(keep.keeps()),
{
    let ghost v = entry_views(es@);
    let ghost f = keep.keeps();
    let ghost mut done: int = 0;
    let mut i: usize = 0;
    proof {
        reveal(Seq::filter);
        assert(v.take(0) =~= Seq::<EntryView>::empty());
        assert(entry_views(es@) =~= v.take(0).filter(f) + v.skip(0));
    }
    while i < es.len()
        invariant
            f == keep.keeps(),
            0 <= done <= v.len(),
            i <= es@.len(),
            v.take(done).filter(f).len() == i,
            entry_views(es@) == v.take(done).filter(f) + v.skip(done),
        decreases es@.len() - i,
    {
        let ghost head = v.take(done).filter(f);
        let ghost now = entry_views(es@);
        proof {
            assert(now.len() == es@.len());
            assert(done < v.len());
            assert(now[i as int] == v[done]);
            assert(es@[i as int]@ == v[done]);
            assert(v.take(done + 1).drop_last() =~= v.take(done));
            assert(v.take(done + 1).last() == v[done]);
            reveal(Seq::filter);
        }
        if keep.test(&es[i]) {
            i = i + 1;
            proof {
                assert(v.take(done + 1).filter(f) == head.push(v[done]));
                assert(entry_views(es@) =~= head.push(v[done]) + v.skip(done + 1));
            }
        } else {
            es.remove(i);
            proof {
                assert(v.take(done + 1).filter(f) == head);
                assert(entry_views(es@) =~= now.remove(i as int));
                assert(entry_views(es@) =~= head + v.skip(done + 1));
            }
        }
        proof {
            done = done + 1;
        }
    }
    proof {
        assert(v.skip(done).len() == 0);
        assert(v.take(done) =~= v);
        assert(entry_views(es@) =~= v.filter(f));
    }
}

pub(crate) proof fn max_id_bounds(es: Seq<EntryView>, i: int)
    requires
        0 <= i < es.len(),
    ensures
        es[i].id <= max_id(es),
    decreases es.len(),
{
    if i < es.len() - 1 {
        max_id_bounds(es.drop_last(), i);
    }
}

/// The largest id in use.
pub(crate) fn largest_id(es: &Vec<Entry>) -> (top: u64)
    ensures
        top == max_id(entry_views(es@)),
{
    let ghost v = entry_views(es@);
    let mut top: u64 = 0;
    let mut i: usize = 0;
    assert(v.take(0) =~= Seq::<EntryView>::empty());
    while i < es.len()
        invariant
            v == entry_views(es@),
            i <= es@.len(),
            top == max_id(v.take(i as int)),
        decreases es@.len() - i,
    {
        assert(v.take(i + 1).drop_last() =~= v.take(i as int));
        assert(v.take(i + 1).last() == es@[i as int]@);
        if es[i].id > top {
            top = es[i].id;
        }
        i = i + 1;
    }
    assert(v.take(v.len() as int) =~= v);
    top
}

/// Whether a text ends with another.
fn has_suffix(s: &str, suffix: &str) -> (res: bool)
    ensures
        res == ends_with(s@, suffix@),
{
    let n: usize = s.unicode_len();
    let k: usize = suffix.unicode_len();
    if n < k {
        return false;
    }
    let tail = s.substring_char(n - k, n);
    assert(tail@ =~= s@.skip(n - k));
    crate::text::same(tail, suffix)
}

} // verus!
