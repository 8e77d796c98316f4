//! What the calls that keep the history promise, told of what goes in and what
//! comes out.

use crate::config::DedupMode;
use crate::entry::{image_entry, text_entry, Entry, EntryView, Kind};
use crate::laws::{eviction_is_least_recently_used, least_recent_went, recorded_is_there};
use crate::store::{
    duplicate_of, entry_views, first_with_id_sound, last_match_sound, max_id, Payload, Store,
};
use vstd::prelude::*;

verus! {

// ---------------------------------------------------------------------------
// Recording

/// Whether an entry has given content: its kind and its whole text.
pub open spec fn has_content(e: Entry, kind: Kind, text: Seq<char>) -> bool {
    e.kind == kind && e.text@ == text
}

/// Whether the ids in use are below the next one.
pub open spec fn fresh(s: Store) -> bool {
    forall|i: int| 0 <= i < s.entries@.len() ==> (#[trigger] s.entries@[i]).id < s.next_id
}

/// Whether nothing in the history is later than a time.
pub open spec fn none_later(s: Store, now: i64) -> bool {
    forall|i: int| 0 <= i < s.entries@.len() ==> (#[trigger] s.entries@[i]).ts <= now
}

/// What is recorded is in the history afterwards, with the time of recording, and
/// nothing newer stands behind it unless it was refreshed in place: under every
/// mode some entry has exactly its kind and its whole text.
pub proof fn pushed_text_is_there(
    s: &mut Store,
    text: &str,
    mode: DedupMode,
    now: i64,
    max: usize,
    res: Option<u64>,
)
    requires
        call_ensures(Store::push_text_at, (s, text, mode, now, max), res),
        fresh(*s),
        none_later(*s, now),
        max >= 1,
    ensures
        exists|i: int|
            0 <= i < final(s).entries@.len() && has_content(
                #[trigger] final(s).entries@[i],
                Kind::Text,
                text@,
            ) && final(s).entries@[i].ts == now && (mode is Update || i == final(s).entries@.len()
                - 1),
{
    let before = (*s)@;
    let new = text_entry(before.next_id, now, text@);
    store_is_fresh(*s, now);
    let at = recorded_is_there(before, new, mode, max as nat);
    assert(entry_views(final(s).entries@).len() == final(s).entries@.len());
    assert(final(s)@.entries[at] == final(s).entries@[at]@);
    assert(has_content(final(s).entries@[at], Kind::Text, text@));
}

/// What holds of the entries of a history holds of their models.
pub(crate) proof fn store_is_fresh(s: Store, now: i64)
    requires
        fresh(s),
        none_later(s, now),
    ensures
        s@.ids_fresh(),
        forall|i: int| 0 <= i < s@.entries.len() ==> (#[trigger] s@.entries[i]).ts <= now,
{
    assert forall|i: int| 0 <= i < s@.entries.len() implies (#[trigger] s@.entries[i]).id
        < s.next_id && s@.entries[i].ts <= now by {
        assert(s@.entries[i] == s.entries@[i]@);
    }
}

/// Recording a text now is suppressed exactly where an entry with that very text is
/// there; otherwise the text becomes the last entry, and the least recently used
/// entries go.
pub proof fn push_now_is_a_push(
    s: &mut Store,
    text: &str,
    mode: DedupMode,
    max: usize,
    res: Option<u64>,
)
    requires
        call_ensures(Store::push_text, (s, text, mode, max), res),
    ensures
        res is None <==> !(mode is All) && exists|i: int|
            0 <= i < old(s).entries@.len() && has_content(
                #[trigger] old(s).entries@[i],
                Kind::Text,
                text@,
            ),
        res matches Some(id) ==> id == old(s).next_id && exists|new: EntryView|
            {
                &&& new.id == id
                &&& new.kind is Text
                &&& new.text == text@
                &&& !new.pinned
                &&& least_recent_went(
                    #[trigger] entry_views(old(s).entries@).push(new),
                    entry_views(final(s).entries@),
                    max as nat,
                )
            },
{
    let before = (*s)@;
    last_match_sound(before.entries, Kind::Text, text@);
    assert forall|i: int| 0 <= i < before.entries.len() implies #[trigger] before.entries[i]
        == (*s).entries@[i]@ by {}
    let t = choose|t: std::time::SystemTime|
        {
            let now = crate::entry::stamp(#[trigger] crate::entry::millis_at(t)) as i64;
            let new = text_entry(before.next_id, now, text@);
            &&& final(s)@ == before.recorded(new, mode, max as nat)
            &&& res == (match duplicate_of(before.entries, new, mode) {
                Some(_) => None,
                None => Some(before.next_id),
            })
        };
    let now = crate::entry::stamp(crate::entry::millis_at(t)) as i64;
    let new = text_entry(before.next_id, now, text@);
    if exists|i: int|
        0 <= i < (*s).entries@.len() && has_content(
            #[trigger] (*s).entries@[i],
            Kind::Text,
            text@,
        ) {
        let i = choose|i: int|
            0 <= i < (*s).entries@.len() && has_content(
                #[trigger] (*s).entries@[i],
                Kind::Text,
                text@,
            );
        assert(before.entries[i].text == text@);
    }
    if let Some(i) = crate::store::last_match(before.entries, Kind::Text, text@) {
        assert(has_content((*s).entries@[i], Kind::Text, text@));
    }
    if res is Some {
        eviction_is_least_recently_used(before.entries.push(new), max as nat);
        assert(least_recent_went(
            entry_views((*s).entries@).push(new),
            entry_views(final(s).entries@),
            max as nat,
        ));
    }
}

/// An insert is suppressed exactly where an entry with that very text is there, and
/// never where every copy is wanted; otherwise the text gets the next id.
pub proof fn push_is_suppressed_by_itself_only(
    s: &mut Store,
    text: &str,
    mode: DedupMode,
    now: i64,
    max: usize,
    res: Option<u64>,
)
    requires
        call_ensures(Store::push_text_at, (s, text, mode, now, max), res),
    ensures
        res is None <==> !(mode is All) && exists|i: int|
            0 <= i < old(s).entries@.len() && has_content(
                #[trigger] old(s).entries@[i],
                Kind::Text,
                text@,
            ),
        res matches Some(id) ==> id == old(s).next_id && final(s).next_id == (id + 1) as u64,
        res is None ==> final(s).next_id == old(s).next_id,
        final(s).dir@ == old(s).dir@,
{
    let before = (*s)@;
    last_match_sound(before.entries, Kind::Text, text@);
    assert forall|i: int| 0 <= i < before.entries.len() implies #[trigger] before.entries[i]
        == (*s).entries@[i]@ by {}
    if exists|i: int|
        0 <= i < (*s).entries@.len() && has_content(
            #[trigger] (*s).entries@[i],
            Kind::Text,
            text@,
        ) {
        let i = choose|i: int|
            0 <= i < (*s).entries@.len() && has_content(
                #[trigger] (*s).entries@[i],
                Kind::Text,
                text@,
            );
        assert(before.entries[i].text == text@);
    }
    if let Some(i) = crate::store::last_match(before.entries, Kind::Text, text@) {
        assert(has_content((*s).entries@[i], Kind::Text, text@));
    }
}

/// Whether two entries are the same but for their time.
pub open spec fn same_but_time(a: Entry, b: Entry) -> bool {
    &&& a.id == b.id
    &&& a.kind == b.kind
    &&& a.text@ == b.text@
    &&& a.size == b.size
    &&& a.pinned == b.pinned
}

/// A suppressed insert moves one entry to the end, or refreshes it in place, and
/// leaves every other entry alone.
pub proof fn suppressed_push_moves_one(
    s: &mut Store,
    text: &str,
    mode: DedupMode,
    now: i64,
    max: usize,
    i: int,
)
    requires
        call_ensures(Store::push_text_at, (s, text, mode, now, max), None),
        0 <= i < (*s).entries@.len(),
        has_content((*s).entries@[i], Kind::Text, text@),
        forall|j: int|
            i < j < (*s).entries@.len() ==> !has_content(
                #[trigger] (*s).entries@[j],
                Kind::Text,
                text@,
            ),
    ensures
        final(s).entries@.len() == old(s).entries@.len(),
        mode is Update ==> {
            &&& same_but_time(final(s).entries@[i], old(s).entries@[i])
            &&& final(s).entries@[i].ts == now
            &&& forall|k: int|
                0 <= k < old(s).entries@.len() && k != i ==> (#[trigger] final(s).entries@[k])@
                    == old(s).entries@[k]@
        },
        mode is Bump ==> {
            let n = old(s).entries@.len();
            &&& same_but_time(final(s).entries@[n - 1], old(s).entries@[i])
            &&& final(s).entries@[n - 1].ts == now
            &&& forall|k: int|
                0 <= k < i ==> (#[trigger] final(s).entries@[k])@ == old(s).entries@[k]@
            &&& forall|k: int|
                i <= k < n - 1 ==> (#[trigger] final(s).entries@[k])@ == old(s).entries@[k + 1]@
        },
{
    let before = (*s)@;
    let new = text_entry(before.next_id, now, text@);
    last_match_sound(before.entries, Kind::Text, text@);
    assert forall|k: int| 0 <= k < before.entries.len() implies #[trigger] before.entries[k]
        == (*s).entries@[k]@ by {}
    assert(duplicate_of(before.entries, new, mode) == Some(i)) by {
        if let Some(m) = crate::store::last_match(before.entries, Kind::Text, text@) {
            if m > i {
                assert(has_content((*s).entries@[m], Kind::Text, text@));
            }
            if m < i {
                assert(before.entries[i].text == text@);
            }
        } else {
            assert(before.entries[i].text == text@);
        }
    }
    let after = final(s)@;
    assert(after == before.recorded(new, mode, max as nat));
    assert forall|k: int| 0 <= k < after.entries.len() implies #[trigger] after.entries[k] == final(s).entries@[k]@ by {}
    assert(after.entries.len() == before.entries.len());
    if mode is Update {
        assert(after.entries[i] == final(s).entries@[i]@);
        assert forall|k: int| 0 <= k < before.entries.len() && k != i implies (#[trigger] final(s).entries@[k])@ == (*s).entries@[k]@ by {
            assert(after.entries[k] == before.entries[k]);
        }
    } else {
        let n = before.entries.len();
        assert(after.entries[n - 1] == final(s).entries@[n - 1]@);
        assert forall|k: int| 0 <= k < i implies (#[trigger] final(s).entries@[k])@
            == (*s).entries@[k]@ by {
            assert(after.entries[k] == before.entries[k]);
        }
        assert forall|k: int| i <= k < n - 1 implies (#[trigger] final(s).entries@[k])@
            == (*s).entries@[k + 1]@ by {
            assert(after.entries[k] == before.entries[k + 1]);
        }
    }
}

/// A new text becomes the last entry, unpinned, with its own id, time and size in
/// bytes; then the least recently used entries go, as many as are too many.
pub proof fn new_text_is_appended(
    s: &mut Store,
    text: &str,
    mode: DedupMode,
    now: i64,
    max: usize,
    id: u64,
)
    requires
        call_ensures(Store::push_text_at, (s, text, mode, now, max), Some(id)),
    ensures
        exists|new: EntryView|
            {
                &&& new.id == old(s).next_id
                &&& new.ts == now
                &&& new.kind is Text
                &&& new.text == text@
                &&& new.size == vstd::utf8::encode_utf8(text@).len() as u64
                &&& !new.pinned
                &&& least_recent_went(
                    #[trigger] entry_views(old(s).entries@).push(new),
                    entry_views(final(s).entries@),
                    max as nat,
                )
            },
{
    let before = (*s)@;
    let new = text_entry(before.next_id, now, text@);
    eviction_is_least_recently_used(before.entries.push(new), max as nat);
    assert(least_recent_went(
        entry_views((*s).entries@).push(new),
        entry_views(final(s).entries@),
        max as nat,
    ));
}

/// An image becomes the last entry, unpinned, under the path and size given; then
/// the least recently used entries go.
pub proof fn new_image_is_appended(
    s: &mut Store,
    path: &str,
    size: u64,
    now: i64,
    max: usize,
    id: u64,
)
    requires
        call_ensures(Store::push_image_entry, (s, path, size, now, max), id),
    ensures
        id == old(s).next_id,
        exists|new: EntryView|
            {
                &&& new.id == id
                &&& new.ts == now
                &&& new.kind is Image
                &&& new.text == path@
                &&& new.size == size
                &&& !new.pinned
                &&& least_recent_went(
                    #[trigger] entry_views(old(s).entries@).push(new),
                    entry_views(final(s).entries@),
                    max as nat,
                )
            },
{
    let before = (*s)@;
    let new = image_entry(before.next_id, now, path@, size);
    eviction_is_least_recently_used(before.entries.push(new), max as nat);
    assert(least_recent_went(
        entry_views((*s).entries@).push(new),
        entry_views(final(s).entries@),
        max as nat,
    ));
}

/// Enforcing a limit lets the least recently used unpinned entries go, and no
/// others.
pub proof fn limits_take_least_recent(s: &mut Store, max: usize)
    requires
        call_ensures(Store::enforce_limits, (s, max), ()),
    ensures
        least_recent_went(
            entry_views(old(s).entries@),
            entry_views(final(s).entries@),
            max as nat,
        ),
        final(s).next_id == old(s).next_id,
        final(s).dir@ == old(s).dir@,
{
    eviction_is_least_recently_used((*s)@.entries, max as nat);
}

/// Content suppresses an insert exactly where it stands in the history, letter for
/// letter, and the mode lets it.
pub proof fn suppresses_what_is_there(
    s: &Store,
    kind: Kind,
    text: &str,
    mode: DedupMode,
    res: bool,
)
    requires
        call_ensures(Store::suppresses, (s, kind, text, mode), res),
    ensures
        res <==> !(mode is All) && exists|i: int|
            0 <= i < s.entries@.len() && has_content(#[trigger] s.entries@[i], kind, text@),
{
    last_match_sound(s@.entries, kind, text@);
    assert forall|i: int| 0 <= i < s@.entries.len() implies #[trigger] s@.entries[i]
        == s.entries@[i]@ by {}
    if exists|i: int|
        0 <= i < s.entries@.len() && has_content(#[trigger] s.entries@[i], kind, text@) {
        let i = choose|i: int|
            0 <= i < s.entries@.len() && has_content(#[trigger] s.entries@[i], kind, text@);
        assert(s@.entries[i].text == text@);
    }
    if let Some(i) = crate::store::last_match(s@.entries, kind, text@) {
        assert(has_content(s.entries@[i], kind, text@));
    }
}

// ---------------------------------------------------------------------------
// Opening, finding, changing

/// Opening takes the entries as they are; the next id is above all of them, and as
/// small as can be.
pub proof fn opened_as_it_is(dir: &str, entries: Vec<Entry>, s: Store)
    requires
        call_ensures(Store::open, (dir, entries), s),
        forall|i: int| 0 <= i < entries@.len() ==> (#[trigger] entries@[i]).id < u64::MAX,
    ensures
        s.entries@ == entries@,
        s.dir@ == dir@,
        fresh(s),
        s.next_id == 1 || exists|i: int|
            0 <= i < entries@.len() && (#[trigger] entries@[i]).id + 1 == s.next_id,
{
    let es = entry_views(entries@);
    largest_is_in_use(es);
    assert forall|i: int| 0 <= i < s.entries@.len() implies (#[trigger] s.entries@[i]).id
        < s.next_id by {
        assert(s@.entries[i].id < s@.next_id);
    }
    if max_id(es) > 0 {
        let i = choose|i: int| 0 <= i < es.len() && (#[trigger] es[i]).id == max_id(es);
        assert(es[i] == entries@[i]@);
        assert(entries@[i].id + 1 == s.next_id);
    }
}

/// The largest id is one that an entry has, and no entry has a larger one.
pub proof fn largest_is_in_use(es: Seq<EntryView>)
    ensures
        forall|i: int| 0 <= i < es.len() ==> (#[trigger] es[i]).id <= max_id(es),
        max_id(es) > 0 ==> exists|i: int| 0 <= i < es.len() && (#[trigger] es[i]).id == max_id(es),
    decreases es.len(),
{
    if es.len() > 0 {
        let head = es.drop_last();
        largest_is_in_use(head);
        assert forall|i: int| 0 <= i < es.len() implies (#[trigger] es[i]).id <= max_id(es) by {
            if i < head.len() {
                assert(head[i] == es[i]);
            }
        }
        if es.last().id > max_id(head) {
            assert(es[es.len() - 1].id == max_id(es));
        } else if max_id(head) > 0 {
            let i = choose|i: int| 0 <= i < head.len() && (#[trigger] head[i]).id == max_id(head);
            assert(es[i].id == max_id(es));
        }
    }
}

/// An id finds the first entry that has it, and nothing where none has it.
pub proof fn id_finds_its_entry(s: &Store, id: u64, res: Option<&Entry>)
    requires
        call_ensures(Store::get, (s, id), res),
    ensures
        match res {
            Some(e) => e.id == id && exists|i: int|
                {
                    &&& 0 <= i < s.entries@.len()
                    &&& (#[trigger] s.entries@[i])@ == e@
                    &&& forall|j: int| 0 <= j < i ==> (#[trigger] s.entries@[j]).id != id
                },
            None => forall|i: int| 0 <= i < s.entries@.len() ==> (#[trigger] s.entries@[i]).id != id,
        },
{
    let es = s@.entries;
    first_with_id_sound(es, id);
    assert forall|i: int| 0 <= i < es.len() implies #[trigger] es[i] == s.entries@[i]@ by {}
    match res {
        Some(e) => {
            let i = crate::store::first_with_id(es, id)->0;
            assert(s.entries@[i]@ == e@);
            assert forall|j: int| 0 <= j < i implies (#[trigger] s.entries@[j]).id != id by {
                assert(es[j].id != id);
            }
        },
        None => {
            assert forall|i: int| 0 <= i < s.entries@.len() implies (#[trigger] s.entries@[i]).id
                != id by {
                assert(es[i].id != id);
            }
        },
    }
}

/// Pinning turns over the pin of the first entry with the id, and changes nothing
/// else; it says what the pin is now.
pub proof fn pin_turns_one_over(s: &mut Store, id: u64, res: Option<bool>, i: int)
    requires
        call_ensures(Store::toggle_pin, (s, id), res),
        0 <= i < (*s).entries@.len(),
        (*s).entries@[i].id == id,
        forall|j: int| 0 <= j < i ==> (#[trigger] (*s).entries@[j]).id != id,
    ensures
        res == Some(!old(s).entries@[i].pinned),
        final(s).entries@.len() == old(s).entries@.len(),
        final(s).entries@[i]@ == (EntryView {
            pinned: !old(s).entries@[i].pinned,
            ..old(s).entries@[i]@
        }),
        forall|k: int|
            0 <= k < old(s).entries@.len() && k != i ==> (#[trigger] final(s).entries@[k])@ == old(s).entries@[k]@,
        final(s).next_id == old(s).next_id,
{
    let before = (*s)@;
    let after = final(s)@;
    first_with_id_sound(before.entries, id);
    assert forall|k: int| 0 <= k < before.entries.len() implies #[trigger] before.entries[k]
        == (*s).entries@[k]@ by {}
    assert forall|k: int| 0 <= k < after.entries.len() implies #[trigger] after.entries[k] == final(s).entries@[k]@ by {}
    assert(crate::store::first_with_id(before.entries, id) == Some(i)) by {
        if let Some(m) = crate::store::first_with_id(before.entries, id) {
            if m < i {
                assert((*s).entries@[m].id != id);
            }
            if m > i {
                assert(before.entries[i].id != id);
            }
        } else {
            assert(before.entries[i].id != id);
        }
    }
    assert(entry_views(final(s).entries@).len() == final(s).entries@.len());
    assert(entry_views((*s).entries@).len() == (*s).entries@.len());
    assert(after.entries[i] == final(s).entries@[i]@);
    assert forall|k: int| 0 <= k < before.entries.len() && k != i implies (
    #[trigger] final(s).entries@[k])@ == (*s).entries@[k]@ by {
        assert(after.entries[k] == before.entries[k]);
    }
}

/// Where no entry has the id, pinning does nothing and says so.
pub proof fn pin_of_nothing(s: &mut Store, id: u64, res: Option<bool>)
    requires
        call_ensures(Store::toggle_pin, (s, id), res),
        forall|i: int| 0 <= i < (*s).entries@.len() ==> (#[trigger] (*s).entries@[i]).id != id,
    ensures
        res is None,
        final(s)@ == old(s)@,
{
    first_with_id_sound((*s)@.entries, id);
    if let Some(i) = crate::store::first_with_id((*s)@.entries, id) {
        assert((*s)@.entries[i] == (*s).entries@[i]@);
    }
}

/// Deleting takes out the entries with the id, and only them; it says whether there
/// was one.
pub proof fn delete_takes_the_id_out(s: &mut Store, id: u64, res: bool)
    requires
        call_ensures(Store::delete, (s, id), res),
    ensures
        entry_views(final(s).entries@) == entry_views(old(s).entries@).filter(
            |e: EntryView| e.id != id,
        ),
        res <==> exists|i: int|
            0 <= i < old(s).entries@.len() && (#[trigger] old(s).entries@[i]).id == id,
        final(s).next_id == old(s).next_id,
        final(s).dir@ == old(s).dir@,
{
    let before = (*s)@;
    first_with_id_sound(before.entries, id);
    assert forall|k: int| 0 <= k < before.entries.len() implies #[trigger] before.entries[k]
        == (*s).entries@[k]@ by {}
    if res {
        let i = crate::store::first_with_id(before.entries, id)->0;
        assert((*s).entries@[i].id == id);
    } else {
        assert forall|i: int| 0 <= i < (*s).entries@.len() implies (#[trigger] (*s).entries@[i]).id
            != id by {
            assert(before.entries[i].id != id);
        }
    }
}

/// Clearing leaves the pinned entries as they stand, and says how many others there
/// were.
pub proof fn clear_leaves_pins(s: &mut Store, n: usize)
    requires
        call_ensures(Store::clear_unpinned, (s,), n),
    ensures
        entry_views(final(s).entries@) == entry_views(old(s).entries@).filter(
            |e: EntryView| e.pinned,
        ),
        n + final(s).entries@.len() == old(s).entries@.len(),
        final(s).next_id == old(s).next_id,
        final(s).dir@ == old(s).dir@,
{
    crate::laws::clearing_keeps_pins((*s)@);
    assert(final(s)@.entries.len() == final(s).entries@.len());
}

/// Newest first is the history from its end.
pub proof fn newest_first_is_reversed(s: &Store, out: Vec<&Entry>)
    requires
        call_ensures(Store::iter_newest_first, (s,), out),
    ensures
        out@.len() == s.entries@.len(),
        forall|i: int|
            0 <= i < out@.len() ==> (#[trigger] out@[i])@ == s.entries@[s.entries@.len() - 1 - i]@,
{
}

/// The payload of a text is its bytes; that of an image is the file under its path.
pub proof fn payload_is_text_or_file(s: &Store, e: &Entry, out: Payload)
    requires
        call_ensures(Store::payload_bytes, (s, e), out),
    ensures
        e.kind is Text ==> (out matches Payload::Bytes(b) && b@ == vstd::utf8::encode_utf8(e.text@)),
        e.kind is Image && e.text@.len() > 0 && e.text@[0] != '/' ==> (out matches Payload::File(f)
            && s.dir@.is_prefix_of(f@) && f@.len() >= e.text@.len() && f@.skip(
            f@.len() - e.text@.len(),
        ) == e.text@),
{
    if e.kind is Image && e.text@.len() > 0 && e.text@[0] != '/' {
        if let Payload::File(f) = out {
            assert(f@.skip(f@.len() - e.text@.len()) =~= e.text@);
            assert(f@.take(s.dir@.len() as int) =~= s.dir@);
        }
    }
}

/// A file of the image directory can go exactly where it is a PNG and no entry
/// refers to it.
pub proof fn orphans_are_unreferenced(s: &Store, name: &str, res: bool)
    requires
        call_ensures(Store::is_orphan_image, (s, name), res),
    ensures
        res <==> {
            &&& name@.len() >= 4
            &&& name@.skip(name@.len() - 4) == seq!['.', 'p', 'n', 'g']
            &&& forall|i: int|
                0 <= i < s.entries@.len() ==> (#[trigger] s.entries@[i]).text@ != seq![
                    'i',
                    'm',
                    'a',
                    'g',
                    'e',
                    's',
                    '/',
                ] + name@
        },
{
    reveal_strlit(".png");
    reveal_strlit("images/");
    assert(".png"@ =~= seq!['.', 'p', 'n', 'g']);
    assert("images/"@ =~= seq!['i', 'm', 'a', 'g', 'e', 's', '/']);
    let es = s@.entries;
    assert forall|i: int| 0 <= i < es.len() implies #[trigger] es[i] == s.entries@[i]@ by {}
    if res {
        assert forall|i: int| 0 <= i < s.entries@.len() implies (#[trigger] s.entries@[i]).text@
            != "images/"@ + name@ by {
            assert(es[i].text != "images/"@ + name@);
        }
    }
}

} // verus!
