//! Taking over the entries of an exported history.
//!
//! An export may come from another machine: ids collide, so content decides what
//! is known already, and every entry taken over gets a new id.

use crate::backend::{decode_png, decoded_png};
use crate::entry::{Entry, EntryView, Kind};
use crate::history::Parsed;
use crate::laws::{eviction_within_limit, ids_ok, no_duplicates};
use crate::order::{goes_before, is_stable_order, key_le, stable_order};
use crate::store::{
    entry_views, evicted, holds, largest_id, max_id, max_id_bounds, unpinned_count, Store,
    StoreView,
};
use crate::text::{decimal, push_decimal};
use crate::watcher::{collides, in_the_way};
use vstd::prelude::*;

verus! {

/// Why an import failed.
#[derive(Debug, PartialEq, Eq)]
pub enum ImportError {
    /// A line is no entry; its number, counted from one.
    BadLine(usize),
    /// An image came without a directory in which its payload could be found.
    NoDirectory,
    /// The payload of an image is not there.
    MissingPayload(String),
    /// The payload of an image is no PNG.
    InvalidPng(String),
    /// Another payload stands where this one is to be kept.
    Collision(String),
    /// There are no ids left.
    IdsExhausted,
}

/// The model of a failure.
#[verifier::ext_equal]
pub enum ImportErrorView {
    BadLine(nat),
    NoDirectory,
    MissingPayload(Seq<char>),
    InvalidPng(Seq<char>),
    Collision(Seq<char>),
    IdsExhausted,
}

impl View for ImportError {
    type V = ImportErrorView;

    open spec fn view(&self) -> ImportErrorView {
        match self {
            ImportError::BadLine(n) => ImportErrorView::BadLine(*n as nat),
            ImportError::NoDirectory => ImportErrorView::NoDirectory,
            ImportError::MissingPayload(p) => ImportErrorView::MissingPayload(p@),
            ImportError::InvalidPng(p) => ImportErrorView::InvalidPng(p@),
            ImportError::Collision(p) => ImportErrorView::Collision(p@),
            ImportError::IdsExhausted => ImportErrorView::IdsExhausted,
        }
    }
}

impl ImportErrorView {
    /// The failure in words.
    pub open spec fn message(self) -> Seq<char> {
        match self {
            ImportErrorView::BadLine(n) => "bad import line "@ + decimal(n),
            ImportErrorView::NoDirectory =>
                "image entries can only be imported with --file so sibling images/ payloads can be found"@,
            ImportErrorView::MissingPayload(p) => "missing image payload "@ + p,
            ImportErrorView::InvalidPng(p) => "invalid PNG payload "@ + p,
            ImportErrorView::Collision(p) => "image payload collision at "@ + p,
            ImportErrorView::IdsExhausted => "history id space exhausted"@,
        }
    }
}

impl ImportError {
    /// The failure in words.
    pub fn message(&self) -> (out: String)
        ensures
            out@ == self@.message(),
    {
        match self {
            ImportError::BadLine(n) => {
                let mut out = "bad import line ".to_owned();
                push_decimal(&mut out, *n as u64);
                out
            },
            ImportError::NoDirectory => {
                "image entries can only be imported with --file so sibling images/ payloads can be found".to_owned()
            },
            ImportError::MissingPayload(p) => "missing image payload ".to_owned().concat(
                p.as_str(),
            ),
            ImportError::InvalidPng(p) => "invalid PNG payload ".to_owned().concat(p.as_str()),
            ImportError::Collision(p) => "image payload collision at ".to_owned().concat(
                p.as_str(),
            ),
            ImportError::IdsExhausted => "history id space exhausted".to_owned(),
        }
    }
}

// ---------------------------------------------------------------------------
// Payloads

/// What was found of the payload of an image.
pub enum PayloadSource {
    /// There is no directory to look in.
    NoDirectory,
    /// The file is not there.
    Missing,
    /// The file is there and holds these bytes.
    Found(Vec<u8>),
}

/// The size of a payload that can be taken over, or why it cannot: what was
/// found at `from`, whether it reads as a PNG, and what stands at `to` already.
pub open spec fn payload_verdict(
    source: PayloadSource,
    is_png: bool,
    existing: Option<Vec<u8>>,
    from: Seq<char>,
    to: Seq<char>,
) -> Result<u64, ImportErrorView> {
    match source {
        PayloadSource::NoDirectory => Err(ImportErrorView::NoDirectory),
        PayloadSource::Missing => Err(ImportErrorView::MissingPayload(from)),
        PayloadSource::Found(bytes) => if !is_png {
            Err(ImportErrorView::InvalidPng(from))
        } else if collides(existing, bytes@) {
            Err(ImportErrorView::Collision(to))
        } else {
            Ok(bytes@.len() as u64)
        },
    }
}

/// Whether bytes that were found read as a PNG.
pub open spec fn reads_as_png(source: PayloadSource) -> bool {
    source matches PayloadSource::Found(bytes) && decoded_png(bytes@) is Some
}

/// Judge the payload of an image, given whether it reads as a PNG.
pub fn judge_payload(
    source: &PayloadSource,
    is_png: bool,
    existing: &Option<Vec<u8>>,
    from: &str,
    to: &str,
) -> (res: Result<u64, ImportError>)
    ensures
        match (payload_verdict(*source, is_png, *existing, from@, to@), res) {
            (Ok(n), Ok(size)) => size == n,
            (Err(why), Err(e)) => e@ == why,
            _ => false,
        },
{
    match source {
        PayloadSource::NoDirectory => Err(ImportError::NoDirectory),
        PayloadSource::Missing => Err(ImportError::MissingPayload(from.to_owned())),
        PayloadSource::Found(bytes) => if !is_png {
            Err(ImportError::InvalidPng(from.to_owned()))
        } else if in_the_way(existing, bytes.as_slice()) {
            Err(ImportError::Collision(to.to_owned()))
        } else {
            Ok(bytes.len() as u64)
        },
    }
}

/// Check the payload of an image: it must be there, be a PNG, and not clash with
/// what stands at its place already. Gives its size.
pub fn check_payload(
    source: &PayloadSource,
    existing: &Option<Vec<u8>>,
    from: &str,
    to: &str,
) -> (res: Result<u64, ImportError>)
    ensures
        match (payload_verdict(*source, reads_as_png(*source), *existing, from@, to@), res) {
            (Ok(n), Ok(size)) => size == n,
            (Err(why), Err(e)) => e@ == why,
            _ => false,
        },
{
    let is_png: bool = match source {
        PayloadSource::Found(bytes) => match decode_png(bytes.as_slice()) {
            Ok(_) => true,
            Err(_) => false,
        },
        _ => false,
    };
    judge_payload(source, is_png, existing, from, to)
}

// ---------------------------------------------------------------------------
// Entries

/// An import under way.
pub struct Import {
    /// Where the history lies.
    pub dir: String,
    /// What it holds so far.
    pub entries: Vec<Entry>,
    /// The id of the next entry taken over.
    pub next_id: u64,
    /// How many entries were taken over.
    pub added: usize,
    /// How many entries were known already.
    pub skipped: usize,
}

/// The model of an import under way.
#[verifier::ext_equal]
pub struct ImportView {
    pub dir: Seq<char>,
    pub entries: Seq<EntryView>,
    pub next_id: u64,
    pub added: nat,
    pub skipped: nat,
}

impl View for Import {
    type V = ImportView;

    open spec fn view(&self) -> ImportView {
        ImportView {
            dir: self.dir@,
            entries: entry_views(self.entries@),
            next_id: self.next_id,
            added: self.added as nat,
            skipped: self.skipped as nat,
        }
    }
}

/// Whether some content stands in a history.
pub open spec fn known(es: Seq<EntryView>, kind: Kind, text: Seq<char>) -> bool {
    exists|i: int| 0 <= i < es.len() && (#[trigger] es[i]).kind == kind && es[i].text == text
}

/// An entry as it is taken over: under a new id, and unpinned, since pins are
/// personal to a machine.
pub open spec fn adopted(e: EntryView, id: u64, size: u64) -> EntryView {
    EntryView { id, size, pinned: false, ..e }
}

impl ImportView {
    /// One more entry offered, of a given size: content that is known is skipped,
    /// anything else is taken over.
    pub open spec fn offered(self, e: EntryView, size: u64) -> ImportView {
        if known(self.entries, e.kind, e.text) {
            ImportView { skipped: self.skipped + 1, ..self }
        } else {
            ImportView {
                entries: self.entries.push(adopted(e, self.next_id, size)),
                next_id: (self.next_id + 1) as u64,
                added: self.added + 1,
                ..self
            }
        }
    }

    /// Entries offered one after the other, each with the size of its payload.
    pub open spec fn offered_all(self, offers: Seq<(EntryView, u64)>) -> ImportView
        decreases offers.len(),
    {
        if offers.len() == 0 {
            self
        } else {
            self.offered_all(offers.drop_last()).offered(offers.last().0, offers.last().1)
        }
    }

    /// What is reported at the end.
    pub open spec fn summary(self) -> Seq<char> {
        "imported "@ + decimal(self.added) + " new entries, skipped "@ + decimal(self.skipped)
            + " already present"@
    }
}

/// What an entry is sorted by: time, then id.
pub open spec fn sort_keys(es: Seq<EntryView>) -> Seq<(i128, u64)> {
    Seq::new(es.len(), |i: int| (es[i].ts as i128, es[i].id))
}

/// Entries in another order.
pub open spec fn reordered(es: Seq<EntryView>, p: Seq<usize>) -> Seq<EntryView> {
    Seq::new(p.len(), |i: int| es[p[i] as int])
}

/// Whether `out` is `es` sorted by time and id.
pub open spec fn is_sorted_form(es: Seq<EntryView>, out: Seq<EntryView>) -> bool {
    exists|p: Seq<usize>|
        #![trigger is_stable_order(sort_keys(es), p)]
        is_stable_order(sort_keys(es), p) && out == reordered(es, p)
}

fn sort_entries(es: &Vec<Entry>) -> (out: Vec<Entry>)
    ensures
        is_sorted_form(entry_views(es@), entry_views(out@)),
{
    let ghost v = entry_views(es@);
    let mut keys: Vec<(i128, u64)> = Vec::new();
    let mut i: usize = 0;
    while i < es.len()
        invariant
            v == entry_views(es@),
            i <= es@.len(),
            keys@.len() == i,
            forall|k: int| 0 <= k < i ==> #[trigger] keys@[k] == (v[k].ts as i128, v[k].id),
        decreases es@.len() - i,
    {
        assert(v[i as int] == es@[i as int]@);
        keys.push((es[i].ts as i128, es[i].id));
        i = i + 1;
    }
    assert(keys@ =~= sort_keys(v));
    let p: Vec<usize> = stable_order(&keys);
    let mut out: Vec<Entry> = Vec::new();
    let mut j: usize = 0;
    while j < p.len()
        invariant
            v == entry_views(es@),
            keys@.len() == es@.len(),
            is_stable_order(keys@, p@),
            j <= p@.len(),
            out@.len() == j,
            forall|k: int| 0 <= k < j ==> (#[trigger] out@[k])@ == v[p@[k] as int],
        decreases p@.len() - j,
    {
        assert(p@[j as int] < keys@.len());
        out.push(es[p[j]].clone());
        j = j + 1;
    }
    assert(entry_views(out@) =~= reordered(v, p@));
    out
}

impl Import {
    /// Begin an import into a history. Ids go on from the largest in use.
    pub fn begin(store: Store) -> (res: Result<Import, ImportError>)
        ensures
            match res {
                Ok(im) => {
                    &&& max_id(store@.entries) < u64::MAX
                    &&& im@ == (ImportView {
                        dir: store@.dir,
                        entries: store@.entries,
                        next_id: (max_id(store@.entries) + 1) as u64,
                        added: 0,
                        skipped: 0,
                    })
                },
                Err(e) => max_id(store@.entries) == u64::MAX && e == ImportError::IdsExhausted,
            },
    {
        let top: u64 = largest_id(&store.entries);
        if top == u64::MAX {
            return Err(ImportError::IdsExhausted);
        }
        Ok(
            Import {
                dir: store.dir,
                entries: store.entries,
                next_id: top + 1,
                added: 0,
                skipped: 0,
            },
        )
    }

    /// Whether the content of an entry stands in the history already.
    pub fn knows(&self, e: &Entry) -> (res: bool)
        ensures
            res == known(self@.entries, e@.kind, e@.text),
    {
        let ghost v = self@.entries;
        let mut i: usize = 0;
        while i < self.entries.len()
            invariant
                v == self@.entries,
                i <= self.entries@.len(),
                forall|j: int| 0 <= j < i ==> !holds(#[trigger] v[j], e@.kind, e@.text),
            decreases self.entries@.len() - i,
        {
            assert(v[i as int] == self.entries@[i as int]@);
            if self.entries[i].kind == e.kind && self.entries[i].text == e.text {
                assert(holds(v[i as int], e@.kind, e@.text));
                return true;
            }
            i = i + 1;
        }
        false
    }

    /// Offer one more entry, whose payload has a given size. Tells whether it was
    /// taken over.
    pub fn offer(&mut self, e: &Entry, size: u64) -> (res: Result<bool, ImportError>)
        requires
            old(self).added < usize::MAX,
            old(self).skipped < usize::MAX,
        ensures
            match res {
                Ok(added) => {
                    &&& added == !known(old(self)@.entries, e@.kind, e@.text)
                    &&& added ==> old(self)@.next_id < u64::MAX
                    &&& final(self)@ == old(self)@.offered(e@, size)
                },
                Err(why) => {
                    &&& why == ImportError::IdsExhausted
                    &&& !known(old(self)@.entries, e@.kind, e@.text)
                    &&& old(self)@.next_id == u64::MAX
                    &&& final(self)@ == old(self)@
                },
            },
    {
        let ghost v = self@.entries;
        if self.knows(e) {
            self.skipped = self.skipped + 1;
            return Ok(false);
        }
        if self.next_id == u64::MAX {
            return Err(ImportError::IdsExhausted);
        }
        let mut new = e.clone();
        new.pinned = false;
        new.id = self.next_id;
        new.size = size;
        self.next_id = self.next_id + 1;
        self.entries.push(new);
        assert(entry_views(self.entries@) =~= v.push(adopted(e@, old(self)@.next_id, size)));
        self.added = self.added + 1;
        Ok(true)
    }

    /// Offer what a line stands for, with the size of its payload. A line that
    /// stands for no entry ends the import.
    pub fn offer_line(&mut self, parsed: &Parsed, size: u64) -> (res: Result<bool, ImportError>)
        requires
            old(self).added < usize::MAX,
            old(self).skipped < usize::MAX,
        ensures
            match (parsed.entry, res) {
                (None, Err(why)) => why == ImportError::BadLine(parsed.line) && final(self)@
                    == old(self)@,
                (None, Ok(_)) => false,
                (Some(e), Ok(added)) => {
                    &&& added == !known(old(self)@.entries, e@.kind, e@.text)
                    &&& added ==> old(self)@.next_id < u64::MAX
                    &&& final(self)@ == old(self)@.offered(e@, size)
                },
                (Some(e), Err(why)) => {
                    &&& why == ImportError::IdsExhausted
                    &&& !known(old(self)@.entries, e@.kind, e@.text)
                    &&& old(self)@.next_id == u64::MAX
                    &&& final(self)@ == old(self)@
                },
            },
    {
        match &parsed.entry {
            Some(e) => self.offer(e, size),
            None => Err(ImportError::BadLine(parsed.line)),
        }
    }

    /// End the import: the history is sorted by time, and what is beyond the
    /// limit goes.
    pub fn finish(self, max_entries: usize) -> (store: Store)
        ensures
            store@.dir == self@.dir,
            store@.next_id == self.next_id,
            exists|sorted: Seq<EntryView>| #[trigger]
                is_sorted_form(self@.entries, sorted) && store@.entries == evicted(
                    sorted,
                    max_entries as nat,
                ),
    {
        let sorted: Vec<Entry> = sort_entries(&self.entries);
        let ghost v = entry_views(sorted@);
        let mut store = Store { dir: self.dir, entries: sorted, next_id: self.next_id };
        assert(store@.entries == v);
        store.enforce_limits(max_entries);
        assert(is_sorted_form(self@.entries, v) && store@.entries == evicted(v, max_entries as nat));
        store
    }

    /// What is reported at the end.
    pub fn summary(&self) -> (out: String)
        ensures
            out@ == self@.summary(),
    {
        let mut out = "imported ".to_owned();
        push_decimal(&mut out, self.added as u64);
        out.append(" new entries, skipped ");
        push_decimal(&mut out, self.skipped as u64);
        out.append(" already present");
        out
    }
}

// ---------------------------------------------------------------------------
// Laws: what an import adds

/// What is offered is there afterwards.
pub proof fn offered_is_known(v: ImportView, offers: Seq<(EntryView, u64)>, k: int)
    requires
        0 <= k < offers.len(),
    ensures
        known(v.offered_all(offers).entries, offers[k].0.kind, offers[k].0.text),
    decreases offers.len(),
{
    let e = offers[k].0;
    let head = v.offered_all(offers.drop_last());
    let after = v.offered_all(offers);
    if k == offers.len() - 1 {
        if !known(head.entries, e.kind, e.text) {
            assert(holds(after.entries[after.entries.len() - 1], e.kind, e.text));
        }
    } else {
        offered_is_known(v, offers.drop_last(), k);
        assert(offers.drop_last()[k] == offers[k]);
        let i = choose|i: int|
            0 <= i < head.entries.len() && holds(#[trigger] head.entries[i], e.kind, e.text);
        assert(holds(after.entries[i], e.kind, e.text));
    }
}

/// Where every entry offered is known, nothing is added, and all of them are
/// skipped, whatever their sizes.
pub proof fn known_adds_nothing(v: ImportView, offers: Seq<(EntryView, u64)>)
    requires
        forall|k: int|
            0 <= k < offers.len() ==> known(
                v.entries,
                (#[trigger] offers[k]).0.kind,
                offers[k].0.text,
            ),
    ensures
        v.offered_all(offers) == (ImportView { skipped: v.skipped + offers.len(), ..v }),
    decreases offers.len(),
{
    if offers.len() > 0 {
        let head = offers.drop_last();
        assert forall|k: int| 0 <= k < head.len() implies known(
            v.entries,
            (#[trigger] head[k]).0.kind,
            head[k].0.text,
        ) by {
            assert(head[k] == offers[k]);
        }
        known_adds_nothing(v, head);
        let last = offers[offers.len() - 1].0;
        assert(known(v.entries, last.kind, last.text));
    }
}

/// Every entry offered is counted once.
pub proof fn offers_are_counted(v: ImportView, offers: Seq<(EntryView, u64)>)
    ensures
        ({
            let after = v.offered_all(offers);
            &&& after.added + after.skipped == v.added + v.skipped + offers.len()
            &&& after.entries.len() + v.added == v.entries.len() + after.added
        }),
    decreases offers.len(),
{
    if offers.len() > 0 {
        offers_are_counted(v, offers.drop_last());
    }
}

/// What stood in the history before an import stands there as it stood: an import
/// only adds at the end.
pub proof fn import_only_adds(v: ImportView, offers: Seq<(EntryView, u64)>)
    ensures
        v.entries.is_prefix_of(v.offered_all(offers).entries),
        v.offered_all(offers).dir == v.dir,
    decreases offers.len(),
{
    if offers.len() > 0 {
        import_only_adds(v, offers.drop_last());
        let head = v.offered_all(offers.drop_last()).entries;
        let after = v.offered_all(offers).entries;
        assert(after.take(v.entries.len() as int) =~= head.take(v.entries.len() as int));
    }
}

/// The history that an import under way amounts to.
pub open spec fn import_state(v: ImportView) -> StoreView {
    StoreView { dir: v.dir, entries: v.entries, next_id: v.next_id }
}

/// An import keeps ids apart, as long as there are ids left.
pub proof fn import_keeps_ids(v: ImportView, offers: Seq<(EntryView, u64)>)
    requires
        ids_ok(import_state(v)),
        v.next_id + v.offered_all(offers).added - v.added <= u64::MAX,
    ensures
        ids_ok(import_state(v.offered_all(offers))),
        v.offered_all(offers).added >= v.added,
        v.offered_all(offers).next_id == v.next_id + v.offered_all(offers).added - v.added,
    decreases offers.len(),
{
    if offers.len() > 0 {
        import_keeps_ids(v, offers.drop_last());
        let head = import_state(v.offered_all(offers.drop_last()));
        let after = import_state(v.offered_all(offers));
        assert forall|i: int| 0 <= i < after.entries.len() implies (#[trigger] after.entries[i]).id
            < after.next_id by {
            if i < head.entries.len() {
                assert(after.entries[i] == head.entries[i]);
            }
        }
        assert forall|i: int, j: int|
            #![trigger after.entries[i], after.entries[j]]
            0 <= i < j < after.entries.len() implies after.entries[i].id != after.entries[j].id by {
            assert(after.entries[i] == head.entries[i]);
            if j < head.entries.len() {
                assert(after.entries[j] == head.entries[j]);
            }
        }
    }
}

/// An import begins with ids that no entry has.
pub proof fn import_begins_fresh(es: Seq<EntryView>, dir: Seq<char>, next_id: u64)
    requires
        max_id(es) < u64::MAX,
        next_id == max_id(es) + 1,
    ensures
        (StoreView { dir, entries: es, next_id }).ids_fresh(),
{
    assert forall|i: int| 0 <= i < es.len() implies (#[trigger] es[i]).id < next_id by {
        max_id_bounds(es, i);
    }
}

// ---------------------------------------------------------------------------
// Laws: sorting

/// Whether entries stand in the order of their time and id.
pub open spec fn is_sorted(es: Seq<EntryView>) -> bool {
    forall|i: int, j: int|
        #![trigger es[i], es[j]]
        0 <= i < j < es.len() ==> es[i].ts < es[j].ts || (es[i].ts == es[j].ts && es[i].id
            <= es[j].id)
}

/// Sorting sorts.
pub proof fn sorting_sorts(es: Seq<EntryView>, out: Seq<EntryView>)
    requires
        is_sorted_form(es, out),
    ensures
        is_sorted(out),
        out.len() == es.len(),
{
    let keys = sort_keys(es);
    let p = choose|p: Seq<usize>|
        #![trigger is_stable_order(sort_keys(es), p)]
        is_stable_order(sort_keys(es), p) && out == reordered(es, p);
    assert forall|i: int, j: int|
        #![trigger out[i], out[j]]
        0 <= i < j < out.len() implies key_le(
        (out[i].ts as i128, out[i].id),
        (out[j].ts as i128, out[j].id),
    ) by {
        assert(p[i] < keys.len() && p[j] < keys.len());
        assert(goes_before(keys, p[i] as int, p[j] as int));
    }
}

/// Rising numbers below their count are the numbers from zero on.
proof fn rising_is_identity(p: Seq<usize>, i: int)
    requires
        forall|a: int, b: int|
            #![trigger p[a], p[b]]
            0 <= a < b < p.len() ==> p[a] < p[b],
        forall|a: int| 0 <= a < p.len() ==> #[trigger] p[a] < p.len(),
        0 <= i < p.len(),
    ensures
        p[i] == i,
{
    rising_from_below(p, i);
    rising_from_above(p, i);
}

proof fn rising_from_below(p: Seq<usize>, i: int)
    requires
        forall|a: int, b: int|
            #![trigger p[a], p[b]]
            0 <= a < b < p.len() ==> p[a] < p[b],
        0 <= i < p.len(),
    ensures
        p[i] >= i,
    decreases i,
{
    if i > 0 {
        rising_from_below(p, i - 1);
        assert(p[i - 1] < p[i]);
    }
}

proof fn rising_from_above(p: Seq<usize>, i: int)
    requires
        forall|a: int, b: int|
            #![trigger p[a], p[b]]
            0 <= a < b < p.len() ==> p[a] < p[b],
        forall|a: int| 0 <= a < p.len() ==> #[trigger] p[a] < p.len(),
        0 <= i < p.len(),
    ensures
        p[i] <= i,
    decreases p.len() - i,
{
    if i < p.len() - 1 {
        rising_from_above(p, i + 1);
        assert(p[i] < p[i + 1]);
    } else {
        assert(p[i] < p.len());
    }
}

/// What is sorted stays as it is.
pub proof fn sorted_is_kept(es: Seq<EntryView>, out: Seq<EntryView>)
    requires
        is_sorted(es),
        is_sorted_form(es, out),
    ensures
        out == es,
{
    let keys = sort_keys(es);
    let p = choose|p: Seq<usize>|
        #![trigger is_stable_order(sort_keys(es), p)]
        is_stable_order(sort_keys(es), p) && out == reordered(es, p);
    assert forall|a: int, b: int|
        #![trigger p[a], p[b]]
        0 <= a < b < p.len() implies p[a] < p[b] by {
        assert(p[a] < keys.len() && p[b] < keys.len());
        let x = p[a] as int;
        let y = p[b] as int;
        assert(goes_before(keys, x, y));
        if y < x {
            assert(es[y].ts <= es[x].ts);
            assert(keys[x] == keys[y]);
        }
    }
    assert forall|i: int| 0 <= i < es.len() implies out[i] == es[i] by {
        rising_is_identity(p, i);
    }
    assert(out =~= es);
}

/// Sorting neither loses content nor makes any up.
pub proof fn sorting_keeps_content(
    es: Seq<EntryView>,
    out: Seq<EntryView>,
    kind: Kind,
    text: Seq<char>,
)
    requires
        is_sorted_form(es, out),
        es.len() <= usize::MAX,
    ensures
        known(out, kind, text) <==> known(es, kind, text),
{
    let p = choose|p: Seq<usize>|
        #![trigger is_stable_order(sort_keys(es), p)]
        is_stable_order(sort_keys(es), p) && out == reordered(es, p);
    if known(es, kind, text) {
        let i = choose|i: int| 0 <= i < es.len() && holds(#[trigger] es[i], kind, text);
        assert(p.contains(i as usize));
        let j = choose|j: int| 0 <= j < p.len() && p[j] == i as usize;
        assert(out[j] == es[i]);
        assert(holds(out[j], kind, text));
    }
    if known(out, kind, text) {
        let j = choose|j: int| 0 <= j < out.len() && holds(#[trigger] out[j], kind, text);
        assert(p[j] < sort_keys(es).len());
        assert(holds(es[p[j] as int], kind, text));
    }
}

/// Sorting brings no content twice.
pub proof fn sorting_keeps_unique(es: Seq<EntryView>, out: Seq<EntryView>)
    requires
        is_sorted_form(es, out),
        no_duplicates(es),
    ensures
        no_duplicates(out),
{
    let keys = sort_keys(es);
    let p = choose|p: Seq<usize>|
        #![trigger is_stable_order(sort_keys(es), p)]
        is_stable_order(sort_keys(es), p) && out == reordered(es, p);
    assert forall|i: int, j: int|
        #![trigger out[i], out[j]]
        0 <= i < j < out.len() implies !holds(out[i], out[j].kind, out[j].text) by {
        let x = p[i] as int;
        let y = p[j] as int;
        assert(p[i] < keys.len() && p[j] < keys.len());
        assert(goes_before(keys, x, y));
        if x < y {
            assert(!holds(es[x], es[y].kind, es[y].text));
        } else {
            assert(!holds(es[y], es[x].kind, es[x].text));
        }
    }
}

proof fn unpinned_bounded(es: Seq<EntryView>)
    ensures
        unpinned_count(es) <= es.len(),
    decreases es.len(),
{
    if es.len() > 0 {
        unpinned_bounded(es.drop_last());
    }
}

// ---------------------------------------------------------------------------
// Laws: importing again, and importing an export

/// Whether two runs of offers have the same content, whatever sizes, ids, times
/// and pins they come with.
pub open spec fn same_content(a: Seq<(EntryView, u64)>, b: Seq<(EntryView, u64)>) -> bool {
    &&& a.len() == b.len()
    &&& forall|k: int|
        0 <= k < a.len() ==> (#[trigger] a[k]).0.kind == b[k].0.kind && a[k].0.text == b[k].0.text
}

/// An import is safe to run again. Where the first run evicted nothing, a second
/// run of the same content adds nothing, skips every entry, and leaves the
/// history as it was, entry by entry.
pub proof fn import_again_changes_nothing(
    first: ImportView,
    offers: Seq<(EntryView, u64)>,
    sorted: Seq<EntryView>,
    max: nat,
    second: ImportView,
    again: Seq<(EntryView, u64)>,
    resorted: Seq<EntryView>,
)
    requires
        first.offered_all(offers).entries.len() <= usize::MAX,
        is_sorted_form(first.offered_all(offers).entries, sorted),
        unpinned_count(sorted) <= max,
        second.entries == evicted(sorted, max),
        second.added == 0,
        second.skipped == 0,
        same_content(again, offers),
        is_sorted_form(second.offered_all(again).entries, resorted),
    ensures
        second.offered_all(again) == (ImportView { skipped: again.len(), ..second }),
        second.offered_all(again).summary() == "imported "@ + decimal(0) + " new entries, skipped "@
            + decimal(again.len()) + " already present"@,
        evicted(resorted, max) == second.entries,
{
    eviction_within_limit(sorted, max);
    assert forall|k: int| 0 <= k < again.len() implies known(
        second.entries,
        (#[trigger] again[k]).0.kind,
        again[k].0.text,
    ) by {
        offered_is_known(first, offers, k);
        sorting_keeps_content(
            first.offered_all(offers).entries,
            sorted,
            offers[k].0.kind,
            offers[k].0.text,
        );
    }
    known_adds_nothing(second, again);
    sorting_sorts(first.offered_all(offers).entries, sorted);
    sorted_is_kept(sorted, resorted);
}

/// Whether no earlier entry has the content of entry `i`.
pub open spec fn is_first(es: Seq<EntryView>, i: int) -> bool {
    &&& 0 <= i < es.len()
    &&& forall|j: int|
        0 <= j < i ==> !((#[trigger] es[j]).kind == es[i].kind && es[j].text == es[i].text)
}

/// The entries of some offers.
pub open spec fn entries_of(offers: Seq<(EntryView, u64)>) -> Seq<EntryView> {
    Seq::new(offers.len(), |i: int| offers[i].0)
}

/// An import into an empty history takes over the first entry of every content,
/// in the order in which they are offered, and under consecutive ids as long as
/// there are any. Gives the places at which these entries stand.
pub proof fn import_into_empty(v: ImportView, offers: Seq<(EntryView, u64)>) -> (at: Seq<int>)
    requires
        v.entries.len() == 0,
    ensures
        ({
            let es = entries_of(offers);
            let after = v.offered_all(offers);
            &&& forall|kind: Kind, text: Seq<char>|
                #[trigger] known(after.entries, kind, text) <==> known(es, kind, text)
            &&& no_duplicates(after.entries)
            &&& after.entries.len() <= offers.len()
            &&& at.len() == after.entries.len()
            &&& forall|i: int|
                0 <= i < at.len() ==> is_first(es, #[trigger] at[i]) && after.entries[i] == adopted(
                    es[at[i]],
                    after.entries[i].id,
                    offers[at[i]].1,
                )
            &&& v.next_id + after.entries.len() <= u64::MAX ==> {
                &&& after.next_id == v.next_id + after.entries.len()
                &&& forall|i: int|
                    0 <= i < after.entries.len() ==> (#[trigger] after.entries[i]).id == v.next_id
                        + i
            }
            &&& forall|i: int, j: int|
                #![trigger at[i], at[j]]
                0 <= i < j < at.len() ==> at[i] < at[j]
        }),
    decreases offers.len(),
{
    let es = entries_of(offers);
    let after = v.offered_all(offers);
    if offers.len() == 0 {
        Seq::<int>::empty()
    } else {
        let before = offers.drop_last();
        let head = v.offered_all(before);
        let hs = entries_of(before);
        let n = offers.len() - 1;
        let last = es[n];
        let at = import_into_empty(v, before);
        assert(hs =~= es.take(n));
        assert forall|i: int| #[trigger] is_first(hs, i) implies is_first(es, i) by {
            assert(hs[i] == es[i]);
            assert forall|j: int| 0 <= j < i implies !holds(
                #[trigger] es[j],
                es[i].kind,
                es[i].text,
            ) by {
                assert(hs[j] == es[j]);
            }
        }
        assert forall|i: int| 0 <= i < at.len() implies is_first(es, #[trigger] at[i]) && es[at[i]]
            == hs[at[i]] && offers[at[i]] == before[at[i]] by {
            assert(is_first(hs, at[i]));
        }
        assert forall|kind: Kind, text: Seq<char>| #[trigger] known(
            after.entries,
            kind,
            text,
        ) <==> known(es, kind, text) by {
            known_with_last(es, kind, text);
            assert(es.drop_last() =~= hs);
            assert(known(head.entries, kind, text) <==> known(hs, kind, text));
            if known(head.entries, last.kind, last.text) {
                if holds(last, kind, text) {
                    assert(known(head.entries, kind, text));
                }
            } else {
                known_with_last(after.entries, kind, text);
                assert(after.entries.drop_last() =~= head.entries);
            }
        }
        if known(head.entries, last.kind, last.text) {
            at
        } else {
            assert(!known(hs, last.kind, last.text));
            assert(is_first(es, n)) by {
                assert forall|j: int| 0 <= j < n implies !holds(
                    #[trigger] es[j],
                    last.kind,
                    last.text,
                ) by {
                    assert(hs[j] == es[j]);
                }
            }
            assert(no_duplicates(after.entries)) by {
                assert forall|i: int, j: int|
                    #![trigger after.entries[i], after.entries[j]]
                    0 <= i < j < after.entries.len() implies !holds(
                    after.entries[i],
                    after.entries[j].kind,
                    after.entries[j].text,
                ) by {
                    assert(after.entries[i] == head.entries[i]);
                    if j < head.entries.len() {
                        assert(after.entries[j] == head.entries[j]);
                    }
                }
            }
            let out = at.push(n);
            assert forall|i: int| 0 <= i < out.len() implies is_first(es, #[trigger] out[i])
                && after.entries[i] == adopted(
                es[out[i]],
                after.entries[i].id,
                offers[out[i]].1,
            ) by {
                if i < at.len() {
                    assert(out[i] == at[i]);
                    assert(after.entries[i] == head.entries[i]);
                }
            }
            assert forall|i: int, j: int|
                #![trigger out[i], out[j]]
                0 <= i < j < out.len() implies out[i] < out[j] by {
                assert(out[i] == at[i]);
                assert(is_first(hs, at[i]));
                if j < at.len() {
                    assert(out[j] == at[j]);
                }
            }
            out
        }
    }
}

proof fn known_with_last(es: Seq<EntryView>, kind: Kind, text: Seq<char>)
    requires
        es.len() > 0,
    ensures
        known(es, kind, text) <==> known(es.drop_last(), kind, text) || holds(
            es.last(),
            kind,
            text,
        ),
{
    let head = es.drop_last();
    if known(es, kind, text) {
        let i = choose|i: int| 0 <= i < es.len() && holds(#[trigger] es[i], kind, text);
        if i < head.len() {
            assert(holds(head[i], kind, text));
        }
    }
    if known(head, kind, text) {
        let i = choose|i: int| 0 <= i < head.len() && holds(#[trigger] head[i], kind, text);
        assert(holds(es[i], kind, text));
    }
    if holds(es.last(), kind, text) {
        assert(holds(es[es.len() - 1], kind, text));
    }
}

/// An export comes back whole. Imported into an empty history that has room for
/// it, the history has the same content as the one exported, each once, unpinned,
/// with the time of its first occurrence, in the order of time.
pub proof fn export_comes_back(
    es: Seq<EntryView>,
    offers: Seq<(EntryView, u64)>,
    v: ImportView,
    sorted: Seq<EntryView>,
    max: nat,
)
    requires
        entries_of(offers) == es,
        v.entries.len() == 0,
        es.len() <= max,
        es.len() <= usize::MAX,
        is_sorted_form(v.offered_all(offers).entries, sorted),
    ensures
        ({
            let out = evicted(sorted, max);
            &&& forall|kind: Kind, text: Seq<char>|
                #[trigger] known(out, kind, text) <==> known(es, kind, text)
            &&& no_duplicates(out)
            &&& is_sorted(out)
            &&& forall|i: int|
                0 <= i < out.len() ==> !(#[trigger] out[i]).pinned && exists|j: int|
                    #[trigger] is_first(es, j) && out[i].kind == es[j].kind && out[i].text
                        == es[j].text && out[i].ts == es[j].ts
        }),
{
    let after = v.offered_all(offers).entries;
    let at = import_into_empty(v, offers);
    sorting_sorts(after, sorted);
    unpinned_bounded(sorted);
    eviction_within_limit(sorted, max);
    sorting_keeps_unique(after, sorted);
    assert forall|kind: Kind, text: Seq<char>| #[trigger] known(sorted, kind, text) <==> known(
        es,
        kind,
        text,
    ) by {
        sorting_keeps_content(after, sorted, kind, text);
        assert(known(after, kind, text) <==> known(es, kind, text));
    }
    let p = choose|p: Seq<usize>|
        #![trigger is_stable_order(sort_keys(after), p)]
        is_stable_order(sort_keys(after), p) && sorted == reordered(after, p);
    assert forall|i: int| 0 <= i < sorted.len() implies !(#[trigger] sorted[i]).pinned && exists|
        j: int,
    |
        #[trigger] is_first(es, j) && holds(sorted[i], es[j].kind, es[j].text) && sorted[i].ts
            == es[j].ts by {
        assert(p[i] < sort_keys(after).len());
        let k = p[i] as int;
        assert(sorted[i] == after[k]);
        assert(is_first(es, at[k]));
    }
}

/// What stands at the place of a payload once it was taken over: what stood there
/// before, or the payload where nothing did.
pub open spec fn kept_payload(existing: Option<Vec<u8>>, bytes: Seq<u8>) -> Seq<u8> {
    match existing {
        Some(b) => b@,
        None => bytes,
    }
}

/// A payload that is taken over arrives as it was.
pub proof fn payload_arrives(
    bytes: Vec<u8>,
    is_png: bool,
    existing: Option<Vec<u8>>,
    from: Seq<char>,
    to: Seq<char>,
)
    requires
        payload_verdict(PayloadSource::Found(bytes), is_png, existing, from, to) is Ok,
    ensures
        kept_payload(existing, bytes@) == bytes@,
{
}

} // verus!
