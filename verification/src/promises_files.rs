//! What the calls that read, write, import and lock promise, told of what goes in
//! and what comes out.

use crate::backend::decoded_png;
use crate::entry::{Entry, EntryView, Kind};
use crate::history::{
    frame, framed, is_record, load_entries, numbered, read_records, record_views, Parsed, Record,
};
use crate::import::{
    check_payload, is_sorted, is_sorted_form, known, reordered, sort_keys, Import, ImportError,
    PayloadSource,
};
use crate::laws::{eviction_is_least_recently_used, least_recent_went};
use crate::lock::{lock_step, LockStep, LockTry, OpenError};
use crate::order::is_stable_order;
use crate::promises::has_content;
use crate::replace::{recovery, replacement, undo, FileOp, FileTriple};
use crate::store::{entry_views, evicted, Store};
use crate::text::{blank, decimal, lines, lines_of, views};
use vstd::prelude::*;

verus! {

// ---------------------------------------------------------------------------
// Lines and records

/// Lines put together again, each followed by a line feed, are the text they were
/// taken from, with a line feed at its end; and no line has one within.
pub proof fn lines_are_the_text(s: &str, out: Vec<String>)
    requires
        call_ensures(lines_of, (s,), out),
        !s@.contains('\r'),
    ensures
        framed(views(out@)) == if s@.len() == 0 || s@.last() == '\n' {
            s@
        } else {
            s@.push('\n')
        },
        forall|i: int| 0 <= i < out@.len() ==> !(#[trigger] out@[i])@.contains('\n'),
{
    lines_rejoin(s@);
    assert forall|i: int| 0 <= i < out@.len() implies !(#[trigger] out@[i])@.contains('\n') by {
        assert(views(out@)[i] == out@[i]@);
    }
}

proof fn break_is_first(s: Seq<char>)
    ensures
        ({
            let k = crate::text::first_break(s);
            &&& k <= s.len()
            &&& !s.take(k as int).contains('\n')
            &&& k < s.len() ==> s[k as int] == '\n'
        }),
    decreases s.len(),
{
    let k = crate::text::first_break(s) as int;
    if s.len() > 0 && s[0] != '\n' {
        let rest = s.drop_first();
        break_is_first(rest);
        assert(k - 1 == crate::text::first_break(rest));
        if s.take(k).contains('\n') {
            let i = choose|i: int| 0 <= i < k && s.take(k)[i] == '\n';
            assert(rest.take(k - 1)[i - 1] == '\n');
            assert(rest.take(k - 1).contains('\n'));
        }
        if k < s.len() {
            assert(rest[k - 1] == s[k]);
        }
    } else {
        assert(s.take(0) =~= Seq::<char>::empty());
    }
}

proof fn lines_rejoin(s: Seq<char>)
    requires
        !s.contains('\r'),
    ensures
        framed(lines(s)) == if s.len() == 0 || s.last() == '\n' {
            s
        } else {
            s.push('\n')
        },
        forall|i: int| 0 <= i < lines(s).len() ==> !(#[trigger] lines(s)[i]).contains('\n'),
    decreases s.len(),
{
    let k = crate::text::first_break(s) as int;
    let ls = lines(s);
    break_is_first(s);
    if s.len() == 0 {
        assert(framed(ls) =~= s);
    } else if k >= s.len() {
        assert(s.take(k) =~= s);
        assert(ls =~= seq![s]);
        assert(ls.drop_first() =~= Seq::<Seq<char>>::empty());
        assert(framed(ls.drop_first()) == Seq::<char>::empty());
        assert(s[s.len() - 1] != '\n') by {
            if s[s.len() - 1] == '\n' {
                assert(s.contains('\n'));
            }
        }
        assert(framed(ls) =~= s.push('\n'));
        assert forall|i: int| 0 <= i < ls.len() implies !(#[trigger] ls[i]).contains('\n') by {
            assert(ls[i] == s);
        }
    } else {
        let head = s.take(k);
        let rest = s.skip(k + 1);
        assert(!rest.contains('\r')) by {
            if rest.contains('\r') {
                let i = choose|i: int| 0 <= i < rest.len() && rest[i] == '\r';
                assert(s[i + k + 1] == '\r');
            }
        }
        lines_rejoin(rest);
        assert(crate::text::without_cr(head) == head) by {
            if head.len() > 0 && head.last() == '\r' {
                assert(s[k - 1] == '\r');
            }
        }
        assert(ls =~= seq![head] + lines(rest));
        assert(ls.drop_first() =~= lines(rest));
        assert(ls[0] == head);
        let whole = head + seq!['\n'] + rest;
        assert(whole =~= s);
        if rest.len() > 0 {
            assert(rest.last() == s.last());
            assert(framed(ls) =~= if s.last() == '\n' {
                s
            } else {
                s.push('\n')
            });
        } else {
            assert(s.last() == s[k]);
            assert(framed(ls) =~= s);
        }
        assert forall|i: int| 0 <= i < ls.len() implies !(#[trigger] ls[i]).contains('\n') by {
            if i > 0 {
                assert(ls[i] == lines(rest)[i - 1]);
            }
        }
    }
}

/// What is framed is read back: as many records, each as it was, on consecutive
/// lines.
pub proof fn framed_is_read_back(
    records: &Vec<String>,
    written: String,
    raw: &str,
    out: Vec<Record>,
)
    requires
        call_ensures(frame, (records,), written),
        raw@ == written@,
        call_ensures(read_records, (raw,), out),
        forall|i: int| 0 <= i < records@.len() ==> is_record((#[trigger] records@[i])@),
    ensures
        out@.len() == records@.len(),
        forall|i: int|
            0 <= i < out@.len() ==> (#[trigger] out@[i]).line == i + 1 && out@[i].text@
                == records@[i]@,
{
    let v = views(records@);
    assert forall|i: int| 0 <= i < v.len() implies is_record(#[trigger] v[i]) by {
        assert(v[i] == records@[i]@);
    }
    crate::history::framing_reads_back(v);
    let got = record_views(out@);
    assert(got.len() == out@.len());
    assert forall|i: int| 0 <= i < out@.len() implies (#[trigger] out@[i]).line == i + 1
        && out@[i].text@ == records@[i]@ by {
        assert(got[i] == (out@[i].line as nat, out@[i].text@));
        assert(got[i] == ((i + 1) as nat, v[i]));
    }
}

/// Records are the lines that are not blank, each as it is, in their order, with the
/// number of its line; no other line is left out.
pub proof fn records_are_the_lines(raw: &str, out: Vec<Record>, ls: Vec<String>)
    requires
        call_ensures(read_records, (raw,), out),
        call_ensures(lines_of, (raw,), ls),
    ensures
        forall|k: int|
            0 <= k < out@.len() ==> 1 <= (#[trigger] out@[k]).line <= ls@.len() && out@[k].text@
                == ls@[out@[k].line - 1]@ && !blank(out@[k].text@),
        forall|a: int, b: int|
            0 <= a < b < out@.len() ==> (#[trigger] out@[a]).line < (#[trigger] out@[b]).line,
        forall|n: int|
            0 <= n < ls@.len() && !blank((#[trigger] ls@[n])@) ==> exists|k: int|
                0 <= k < out@.len() && (#[trigger] out@[k]).line == n + 1,
{
    let v = views(ls@);
    let got = record_views(out@);
    numbered_lines(v);
    assert(v.len() == ls@.len());
    assert(got.len() == out@.len());
    assert forall|k: int| 0 <= k < out@.len() implies #[trigger] got[k] == (
        out@[k].line as nat,
        out@[k].text@,
    ) by {}
    assert forall|k: int| 0 <= k < out@.len() implies 1 <= (#[trigger] out@[k]).line <= ls@.len()
        && out@[k].text@ == ls@[out@[k].line - 1]@ && !blank(out@[k].text@) by {
        assert(got[k].0 == out@[k].line);
        assert(v[got[k].0 - 1] == ls@[out@[k].line - 1]@);
    }
    assert forall|a: int, b: int|
        0 <= a < b < out@.len() implies (#[trigger] out@[a]).line < (#[trigger] out@[b]).line by {
        assert(got[a].0 < got[b].0);
    }
    assert forall|n: int| 0 <= n < ls@.len() && !blank((#[trigger] ls@[n])@) implies exists|k: int|
        0 <= k < out@.len() && (#[trigger] out@[k]).line == n + 1 by {
        assert(v[n] == ls@[n]@);
        let k = choose|k: int| 0 <= k < got.len() && (#[trigger] got[k]).0 == n + 1;
        assert(out@[k].line == n + 1);
    }
}

proof fn numbered_lines(ls: Seq<Seq<char>>)
    ensures
        forall|k: int|
            0 <= k < numbered(ls).len() ==> 1 <= (#[trigger] numbered(ls)[k]).0 <= ls.len()
                && numbered(ls)[k].1 == ls[numbered(ls)[k].0 - 1] && !blank(numbered(ls)[k].1),
        forall|a: int, b: int|
            0 <= a < b < numbered(ls).len() ==> (#[trigger] numbered(ls)[a]).0 < (
            #[trigger] numbered(ls)[b]).0,
        forall|n: int|
            0 <= n < ls.len() && !blank(#[trigger] ls[n]) ==> exists|k: int|
                0 <= k < numbered(ls).len() && (#[trigger] numbered(ls)[k]).0 == n + 1,
    decreases ls.len(),
{
    if ls.len() > 0 {
        let head = ls.drop_last();
        numbered_lines(head);
        let before = numbered(head);
        let after = numbered(ls);
        assert forall|k: int| 0 <= k < after.len() implies 1 <= (#[trigger] after[k]).0 <= ls.len()
            && after[k].1 == ls[after[k].0 - 1] && !blank(after[k].1) by {
            if k < before.len() {
                assert(after[k] == before[k]);
                assert(head[before[k].0 - 1] == ls[before[k].0 - 1]);
            }
        }
        assert forall|a: int, b: int|
            0 <= a < b < after.len() implies (#[trigger] after[a]).0 < (#[trigger] after[b]).0 by {
            assert(after[a] == before[a]);
            if b < before.len() {
                assert(after[b] == before[b]);
            } else {
                assert(before[a].0 <= head.len());
            }
        }
        assert forall|n: int| 0 <= n < ls.len() && !blank(#[trigger] ls[n]) implies exists|k: int|
            0 <= k < after.len() && (#[trigger] after[k]).0 == n + 1 by {
            if n < head.len() {
                assert(head[n] == ls[n]);
                let k = choose|k: int| 0 <= k < before.len() && (#[trigger] before[k]).0 == n + 1;
                assert(after[k] == before[k]);
            } else {
                assert(after[after.len() - 1].0 == n + 1);
            }
        }
    }
}

/// A history is read whole or not at all: every line becomes its entry, in order, or
/// the first line that is none is named.
pub proof fn history_is_read_whole(
    parsed: &Vec<Parsed>,
    path: &str,
    res: Result<Vec<Entry>, OpenError>,
)
    requires
        call_ensures(load_entries, (parsed, path), res),
    ensures
        res is Ok <==> forall|i: int|
            0 <= i < parsed@.len() ==> (#[trigger] parsed@[i]).entry is Some,
        res matches Ok(es) ==> es@.len() == parsed@.len() && forall|i: int|
            0 <= i < es@.len() ==> (#[trigger] es@[i])@ == parsed@[i].entry->0@,
        res matches Err(e) ==> exists|i: int|
            {
                &&& 0 <= i < parsed@.len()
                &&& (#[trigger] parsed@[i]).entry is None
                &&& forall|j: int| 0 <= j < i ==> (#[trigger] parsed@[j]).entry is Some
                &&& e matches OpenError::CorruptLine(n, p) && n == parsed@[i].line && p@ == path@
            },
{
    if let Ok(es) = res {
        assert forall|i: int| 0 <= i < parsed@.len() implies (
        #[trigger] parsed@[i]).entry is Some by {
            assert(es@[i]@ == parsed@[i].entry->0@);
        }
    }
}

// ---------------------------------------------------------------------------
// Importing

/// An entry is taken over exactly where no entry has its kind and its whole text. It
/// goes to the end, with its own kind, text and time, under the next id, unpinned;
/// everything else stays as it is.
pub proof fn offer_takes_what_is_new(
    im: &mut Import,
    e: &Entry,
    size: u64,
    res: Result<bool, ImportError>,
)
    requires
        call_ensures(Import::offer, (im, e, size), res),
        (*im).next_id < u64::MAX,
    ensures
        res is Ok,
        res == Ok::<bool, ImportError>(false) <==> exists|i: int|
            0 <= i < old(im).entries@.len() && has_content(
                #[trigger] old(im).entries@[i],
                e.kind,
                e.text@,
            ),
        res == Ok::<bool, ImportError>(false) ==> entry_views(final(im).entries@) == entry_views(
            old(im).entries@,
        ) && final(im).next_id == old(im).next_id && final(im).skipped == old(im).skipped + 1
            && final(im).added == old(im).added,
        res == Ok::<bool, ImportError>(true) ==> {
            &&& entry_views(final(im).entries@) == entry_views(old(im).entries@).push(
                EntryView {
                    id: old(im).next_id,
                    ts: e.ts,
                    kind: e.kind,
                    text: e.text@,
                    size,
                    pinned: false,
                },
            )
            &&& final(im).next_id == old(im).next_id + 1
            &&& final(im).added == old(im).added + 1
            &&& final(im).skipped == old(im).skipped
        },
{
    known_by_fields((*im).entries@, e.kind, e.text@);
}

proof fn known_by_fields(es: Seq<Entry>, kind: Kind, text: Seq<char>)
    ensures
        known(entry_views(es), kind, text) <==> exists|i: int|
            0 <= i < es.len() && has_content(#[trigger] es[i], kind, text),
{
    let vs = entry_views(es);
    if known(vs, kind, text) {
        let i = choose|i: int| 0 <= i < vs.len() && (#[trigger] vs[i]).kind == kind && vs[i].text == text;
        assert(has_content(es[i], kind, text));
    }
    if exists|i: int| 0 <= i < es.len() && has_content(#[trigger] es[i], kind, text) {
        let i = choose|i: int| 0 <= i < es.len() && has_content(#[trigger] es[i], kind, text);
        assert(vs[i].kind == kind && vs[i].text == text);
    }
}

/// A line that is no entry ends an import with its number and changes nothing.
pub proof fn bad_line_ends_the_import(
    im: &mut Import,
    parsed: &Parsed,
    size: u64,
    res: Result<bool, ImportError>,
)
    requires
        call_ensures(Import::offer_line, (im, parsed, size), res),
        parsed.entry is None,
    ensures
        res == Err::<bool, ImportError>(ImportError::BadLine(parsed.line)),
        final(im)@ == old(im)@,
{
}

/// A line that is an entry is offered.
pub proof fn good_line_is_offered(
    im: &mut Import,
    parsed: &Parsed,
    size: u64,
    added: bool,
)
    requires
        call_ensures(Import::offer_line, (im, parsed, size), Ok::<bool, ImportError>(added)),
    ensures
        ({
            let e = parsed.entry->0;
            &&& parsed.entry is Some
            &&& !added <==> exists|i: int|
                0 <= i < old(im).entries@.len() && has_content(
                    #[trigger] old(im).entries@[i],
                    e.kind,
                    e.text@,
                )
            &&& !added ==> entry_views(final(im).entries@) == entry_views(old(im).entries@)
            &&& added ==> entry_views(final(im).entries@) == entry_views(old(im).entries@).push(
                EntryView {
                    id: old(im).next_id,
                    ts: e.ts,
                    kind: e.kind,
                    text: e.text@,
                    size,
                    pinned: false,
                },
            )
        }),
{
    let e = parsed.entry->0;
    known_by_fields((*im).entries@, e.kind, e.text@);
}

/// An import begins with the history as it is and an id above all of them.
pub proof fn import_begins_with_the_history(store: Store, im: Import)
    requires
        call_ensures(Import::begin, (store,), Ok::<Import, ImportError>(im)),
    ensures
        entry_views(im.entries@) == entry_views(store.entries@),
        im.dir@ == store.dir@,
        im.added == 0,
        im.skipped == 0,
        forall|i: int| 0 <= i < store.entries@.len() ==> (#[trigger] store.entries@[i]).id < im.next_id,
{
    let es = store@.entries;
    crate::promises::largest_is_in_use(es);
    assert forall|i: int| 0 <= i < store.entries@.len() implies (#[trigger] store.entries@[i]).id
        < im.next_id by {
        assert(es[i] == store.entries@[i]@);
    }
}

/// Sorting moves entries and changes none: what is there before is there afterwards,
/// and nothing else.
pub proof fn sorting_moves_entries(es: Seq<EntryView>, out: Seq<EntryView>)
    requires
        is_sorted_form(es, out),
        es.len() <= usize::MAX,
    ensures
        out.len() == es.len(),
        forall|i: int| 0 <= i < es.len() ==> out.contains(#[trigger] es[i]),
        forall|i: int| 0 <= i < out.len() ==> es.contains(#[trigger] out[i]),
{
    let p = choose|p: Seq<usize>|
        #![trigger is_stable_order(sort_keys(es), p)]
        is_stable_order(sort_keys(es), p) && out == reordered(es, p);
    assert forall|i: int| 0 <= i < es.len() implies out.contains(#[trigger] es[i]) by {
        assert(p.contains(i as usize));
        let j = choose|j: int| 0 <= j < p.len() && p[j] == i as usize;
        assert(out[j] == es[i]);
    }
    assert forall|i: int| 0 <= i < out.len() implies es.contains(#[trigger] out[i]) by {
        assert(p[i] < sort_keys(es).len());
        assert(es[p[i] as int] == out[i]);
    }
}

/// A finished import is what was there and what was taken over, in the order of time
/// and id, less the least recently used entries that are too many.
pub proof fn finished_is_sorted_and_limited(im: Import, max: usize, s: Store)
    requires
        call_ensures(Import::finish, (im, max), s),
    ensures
        s.dir@ == im.dir@,
        s.next_id == im.next_id,
        exists|sorted: Seq<EntryView>|
            {
                &&& #[trigger] is_sorted(sorted)
                &&& sorted.len() == im.entries@.len()
                &&& forall|i: int|
                    0 <= i < im.entries@.len() ==> sorted.contains((#[trigger] im.entries@[i])@)
                &&& forall|i: int|
                    0 <= i < sorted.len() ==> entry_views(im.entries@).contains(
                        #[trigger] sorted[i],
                    )
                &&& least_recent_went(sorted, entry_views(s.entries@), max as nat)
            },
{
    let es = im@.entries;
    let sorted = choose|sorted: Seq<EntryView>| #[trigger]
        is_sorted_form(es, sorted) && s@.entries == evicted(sorted, max as nat);
    crate::import::sorting_sorts(es, sorted);
    assert(es.len() == im.entries@.len());
    assert(im.entries.len() == im.entries@.len());
    sorting_moves_entries(es, sorted);
    eviction_is_least_recently_used(sorted, max as nat);
    assert forall|i: int| 0 <= i < im.entries@.len() implies sorted.contains(
        (#[trigger] im.entries@[i])@,
    ) by {
        assert(es[i] == im.entries@[i]@);
    }
    assert(is_sorted(sorted));
}

/// A payload can be taken over exactly where it is there, is a PNG, and nothing else
/// stands at its place; its size is the number of its bytes.
pub proof fn payload_must_be_sound(
    source: &PayloadSource,
    existing: &Option<Vec<u8>>,
    from: &str,
    to: &str,
    res: Result<u64, ImportError>,
)
    requires
        call_ensures(check_payload, (source, existing, from, to), res),
    ensures
        res is Ok <==> (*source matches PayloadSource::Found(b) && decoded_png(b@) is Some && (
        *existing matches Some(x) ==> x@ == b@)),
        *source matches PayloadSource::Found(b) ==> (res matches Ok(n) ==> n == b@.len() as u64),
        *source is NoDirectory ==> (res matches Err(e) && e is NoDirectory),
        *source is Missing ==> (res matches Err(ImportError::MissingPayload(p)) && p@ == from@),
        *source matches PayloadSource::Found(b) ==> (decoded_png(b@) is None ==> (res matches Err(
            ImportError::InvalidPng(p),
        ) && p@ == from@)),
        *source matches PayloadSource::Found(b) ==> (decoded_png(b@) is Some && (*existing matches Some(
            x,
        ) && x@ != b@) ==> (res matches Err(ImportError::Collision(p)) && p@ == to@)),
{
}

// ---------------------------------------------------------------------------
// Locking and replacing

/// A lock that is free is taken; one that is held is tried again while there is time,
/// and given up afterwards, at once where there is none; any other failure ends the
/// attempt.
pub proof fn lock_is_tried_while_there_is_time(
    attempt: LockTry,
    wait: Option<u128>,
    elapsed: u128,
    step: LockStep,
)
    requires
        call_ensures(lock_step, (attempt, wait, elapsed), step),
    ensures
        attempt is Acquired <==> step is Proceed,
        attempt is Failed <==> step is Fail,
        attempt is Busy && (wait matches Some(w) && elapsed < w) ==> step == LockStep::RetryAfter(20),
        attempt is Busy && (wait matches Some(w) ==> elapsed >= w) ==> step is Contended,
{
}

/// Whatever steps a replacement takes, stopping it between any two of them loses
/// nothing: recovery finds the old content or the new one. All of them together put
/// the new content in place.
pub proof fn replacing_survives_a_crash(
    s: FileTriple,
    rename_replaces: bool,
    ops: Vec<FileOp>,
    done: nat,
    op: Option<FileOp>,
)
    requires
        call_ensures(replacement, (rename_replaces, s.file is Some), ops),
        s.tmp is Some,
        s.file is None ==> s.backup is None,
        done <= ops@.len(),
        ({
            let found = s.after_all(ops@.take(done as int));
            call_ensures(
                recovery,
                (found.file is Some, found.backup is Some, found.tmp is Some),
                op,
            )
        }),
    ensures
        ({
            let found = s.after_all(ops@.take(done as int));
            let back = match op {
                Some(o) => found.after(o),
                None => found,
            };
            &&& s.file is Some && back.file == s.file || back.file == s.tmp
            &&& done == ops@.len() ==> back.file == s.tmp
        }),
{
    crate::replace::crash_is_recovered(s, rename_replaces, done);
    crate::replace::replaced(s, rename_replaces);
    assert(ops@.take(ops@.len() as int) =~= ops@);
}

/// A missing file comes back from its backup where there is one, else from its
/// replacement.
pub proof fn recovery_prefers_the_backup(s: FileTriple, op: Option<FileOp>)
    requires
        s.file is None,
        call_ensures(recovery, (false, s.backup is Some, s.tmp is Some), op),
    ensures
        s.backup is Some ==> (op matches Some(o) && s.after(o).file == s.backup),
        s.backup is None && s.tmp is Some ==> (op matches Some(o) && s.after(o).file == s.tmp),
        s.backup is None && s.tmp is None ==> op is None,
{
}

/// A file that is there is left alone by recovery.
pub proof fn recovery_leaves_what_is_there(backup: bool, tmp: bool, op: Option<FileOp>)
    requires
        call_ensures(recovery, (true, backup, tmp), op),
    ensures
        op is None,
{
}

/// Where a replacement cannot be put in place, undoing brings the old content back.
pub proof fn undoing_brings_back(s: FileTriple, op: Option<FileOp>)
    requires
        s.file is Some,
        call_ensures(
            undo,
            (false, s.after(FileOp::DropBackup).after(FileOp::FileToBackup).backup is Some),
            op,
        ),
    ensures
        op matches Some(o) && s.after(FileOp::DropBackup).after(FileOp::FileToBackup).after(o).file
            == s.file,
{
}

/// Content is known exactly where an entry has it, letter for letter.
pub proof fn knows_what_is_there(im: &Import, e: &Entry, res: bool)
    requires
        call_ensures(Import::knows, (im, e), res),
    ensures
        res <==> exists|i: int|
            0 <= i < im.entries@.len() && has_content(#[trigger] im.entries@[i], e.kind, e.text@),
{
    known_by_fields(im.entries@, e.kind, e.text@);
}

/// The report of an import has both counts, as they are.
pub proof fn import_reports_its_counts(im: &Import, out: String)
    requires
        call_ensures(Import::summary, (im,), out),
    ensures
        out@ == "imported "@ + decimal(im.added as nat) + " new entries, skipped "@ + decimal(
            im.skipped as nat,
        ) + " already present"@,
{
}

} // verus!
