//! What the picker promises, told of the keys that are pressed and of what it shows.

use crate::entry::{Entry, EntryView};
use crate::picker::{
    action_of, fuzzy_score, listed_above, pins_of, rank, scores_of, Action, Key,
    Outcome, Picker, Screen,
};
use crate::store::{entry_views, first_with_id_sound, Store};
use crate::text::decimal;
use vstd::prelude::*;

verus! {

// ---------------------------------------------------------------------------
// What is listed

/// Whether a list of rows shows entries in the right order: pinned ones above all
/// others; among those alike the better score above the worse; and where scores are
/// equal, the one that stands first in the history.
pub open spec fn rows_in_order(es: Seq<Entry>, score: spec_fn(int) -> int, view: Seq<usize>) -> bool {
    forall|i: int, j: int|
        #![trigger view[i], view[j]]
        0 <= i < j < view.len() ==> {
            let a = view[i] as int;
            let b = view[j] as int;
            ||| es[a].pinned && !es[b].pinned
            ||| es[a].pinned == es[b].pinned && score(a) > score(b)
            ||| es[a].pinned == es[b].pinned && score(a) == score(b) && a < b
        }
}

/// Whether rows and selection are as they should be: every entry that is found is
/// listed once and nothing else is; where nothing is searched for, every entry is
/// found, the later the better; otherwise an entry is found where the query matches
/// its text. A row is selected where there is one.
pub open spec fn shown_rightly(p: Picker, s: Store) -> bool {
    let es = s.entries@;
    let q = p.query@;
    let view = p.view@;
    &&& forall|i: int|
        0 <= i < view.len() ==> #[trigger] view[i] < es.len() && (q.len() == 0 || fuzzy_score(
            es[view[i] as int].text@,
            q,
        ) is Some)
    &&& forall|k: usize|
        k < es.len() && (q.len() == 0 || fuzzy_score((#[trigger] es[k as int]).text@, q) is Some)
            ==> view.contains(k)
    &&& match p.selected {
        Some(row) => row < view.len(),
        None => view.len() == 0,
    }
    &&& q.len() == 0 ==> rows_in_order(es, |k: int| k, view)
    &&& q.len() > 0 ==> rows_in_order(es, |k: int| fuzzy_score(es[k].text@, q)->0 as int, view)
}

/// Whether every score of a query is a 32-bit number, as the matcher's are.
pub open spec fn scores_small(es: Seq<Entry>, q: Seq<char>) -> bool {
    &&& es.len() < 0x4000_0000_0000_0000
    &&& forall|k: int|
        0 <= k < es.len() ==> (fuzzy_score((#[trigger] es[k]).text@, q) matches Some(n) ==> i32::MIN
            <= n <= i32::MAX)
}

/// What the picker shows is what should be shown.
pub proof fn picker_shows_rightly(p: Picker, s: Store)
    requires
        p.shows(s@.entries),
        scores_small(s.entries@, p.query@),
    ensures
        shown_rightly(p, s),
{
    let es = s.entries@;
    let vs = s@.entries;
    let q = p.query@;
    let view = p.view@;
    let pins = pins_of(vs);
    let scores = scores_of(vs, q);
    assert(vs.len() == es.len());
    assert forall|k: int| 0 <= k < es.len() implies #[trigger] vs[k] == es[k]@ by {}
    assert forall|i: int| 0 <= i < view.len() implies #[trigger] view[i] < es.len() && (q.len() == 0
        || fuzzy_score(es[view[i] as int].text@, q) is Some) by {
        assert(scores[view[i] as int] is Some);
    }
    assert forall|k: usize|
        k < es.len() && (q.len() == 0 || fuzzy_score(
            (#[trigger] es[k as int]).text@,
            q,
        ) is Some) implies view.contains(k) by {
        assert(scores[k as int] is Some);
    }
    assert forall|i: int, j: int|
        #![trigger view[i], view[j]]
        0 <= i < j < view.len() implies {
        let a = view[i] as int;
        let b = view[j] as int;
        let x = if q.len() == 0 {
            a
        } else {
            fuzzy_score(es[a].text@, q)->0 as int
        };
        let y = if q.len() == 0 {
            b
        } else {
            fuzzy_score(es[b].text@, q)->0 as int
        };
        ||| es[a].pinned && !es[b].pinned
        ||| es[a].pinned == es[b].pinned && x > y
        ||| es[a].pinned == es[b].pinned && x == y && a < b
    } by {
        let a = view[i] as int;
        let b = view[j] as int;
        assert(listed_above(pins, scores, a, b));
        assert(view[i] < es.len() && view[j] < es.len());
        assert(vs[a] == es[a]@ && vs[b] == es[b]@);
        assert(scores[a] is Some && scores[b] is Some);
        if q.len() > 0 {
            assert(fuzzy_score(es[a].text@, q) == scores[a]);
            assert(fuzzy_score(es[b].text@, q) == scores[b]);
        }
    }
}

/// A new picker lists every entry, pinned ones first, then the newest first, and
/// selects the first row.
pub proof fn opens_with_everything(s: &Store, p: Picker)
    requires
        call_ensures(Picker::new, (s,), p),
        s.entries@.len() < 0x4000_0000_0000_0000,
    ensures
        p.query@.len() == 0,
        p.selected == if s.entries@.len() == 0 {
            None
        } else {
            Some(0usize)
        },
        forall|k: usize| k < s.entries@.len() ==> #[trigger] p.view@.contains(k),
        forall|i: int, j: int|
            #![trigger p.view@[i], p.view@[j]]
            0 <= i < j < p.view@.len() ==> {
                let a = s.entries@[p.view@[i] as int];
                let b = s.entries@[p.view@[j] as int];
                ||| a.pinned && !b.pinned
                ||| a.pinned == b.pinned && p.view@[i] > p.view@[j]
            },
{
    let vs = s@.entries;
    let es = s.entries@;
    let scores = scores_of(vs, p.query@);
    assert(vs.len() == es.len());
    assert forall|k: usize| k < es.len() implies #[trigger] p.view@.contains(k) by {
        assert(scores[k as int] is Some);
    }
    if es.len() > 0 {
        assert(p.view@.contains(0usize));
        assert(p.view@.len() > 0);
    } else if p.view@.len() > 0 {
        assert(p.view@[0] < scores.len());
    }
    assert forall|i: int, j: int|
        #![trigger p.view@[i], p.view@[j]]
        0 <= i < j < p.view@.len() implies {
        let a = es[p.view@[i] as int];
        let b = es[p.view@[j] as int];
        ||| a.pinned && !b.pinned
        ||| a.pinned == b.pinned && p.view@[i] > p.view@[j]
    } by {
        let a = p.view@[i] as int;
        let b = p.view@[j] as int;
        assert(listed_above(pins_of(vs), scores, a, b));
        assert(p.view@[i] < scores.len() && p.view@[j] < scores.len());
        assert(vs[a] == es[a]@ && vs[b] == es[b]@);
    }
}

/// A ranking lists exactly what has a score, pinned entries first, then by falling
/// score, then as they stand.
pub proof fn rank_is_by_pin_and_score(
    pins: &Vec<bool>,
    scores: &Vec<Option<i64>>,
    view: Vec<usize>,
)
    requires
        call_ensures(rank, (pins, scores), view),
        pins@.len() == scores@.len(),
        forall|k: int|
            0 <= k < scores@.len() ==> ((#[trigger] scores@[k]) matches Some(n) ==> i32::MIN <= n
                <= i32::MAX),
    ensures
        forall|k: usize|
            k < scores@.len() ==> (#[trigger] view@.contains(k) <==> scores@[k as int] is Some),
        forall|i: int, j: int|
            #![trigger view@[i], view@[j]]
            0 <= i < j < view@.len() ==> {
                let a = view@[i] as int;
                let b = view@[j] as int;
                ||| pins@[a] && !pins@[b]
                ||| pins@[a] == pins@[b] && scores@[a]->0 > scores@[b]->0
                ||| pins@[a] == pins@[b] && scores@[a]->0 == scores@[b]->0 && a < b
            },
{
    assert forall|k: usize| k < scores@.len() implies (#[trigger] view@.contains(k)
        <==> scores@[k as int] is Some) by {
        if view@.contains(k) {
            let i = choose|i: int| 0 <= i < view@.len() && view@[i] == k;
            assert(scores@[view@[i] as int] is Some);
        }
    }
    assert forall|i: int, j: int|
        #![trigger view@[i], view@[j]]
        0 <= i < j < view@.len() implies {
        let a = view@[i] as int;
        let b = view@[j] as int;
        ||| pins@[a] && !pins@[b]
        ||| pins@[a] == pins@[b] && scores@[a]->0 > scores@[b]->0
        ||| pins@[a] == pins@[b] && scores@[a]->0 == scores@[b]->0 && a < b
    } by {
        assert(listed_above(pins@, scores@, view@[i] as int, view@[j] as int));
        assert(scores@[view@[i] as int] is Some && scores@[view@[j] as int] is Some);
    }
}

/// Listing anew keeps the query, shows what it finds, and keeps the selected row as
/// far as there are rows.
pub proof fn refilter_shows_what_is_found(p: &mut Picker, s: &Store)
    requires
        call_ensures(Picker::refilter, (p, s), ()),
        scores_small(s.entries@, (*p).query@),
    ensures
        final(p).query@ == old(p).query@,
        shown_rightly(*final(p), *s),
        selection_kept(old(p).selected, final(p).selected, final(p).view@.len()),
{
    picker_shows_rightly(*final(p), *s);
}

/// Whether a selection was kept as far as there are rows.
pub open spec fn selection_kept(before: Option<usize>, after: Option<usize>, rows: nat) -> bool {
    let row = match before {
        Some(r) => r as int,
        None => 0,
    };
    match after {
        None => rows == 0,
        Some(r) => if row < rows {
            r == row
        } else {
            rows > 0 && r == rows - 1
        },
    }
}

// ---------------------------------------------------------------------------
// What keys do

/// Whether a key types a character: any character without Ctrl does, and with Ctrl
/// those that mean nothing else.
pub open spec fn types_a_character(key: Key, c: char) -> bool {
    ||| key == Key::Char(c, false)
    ||| key == Key::Char(c, true) && c != 'c' && c != 'p' && c != 'd'
}

/// Typing a character, whichever it is, adds it to the query, lists what the query
/// finds then, and leaves the history alone.
pub proof fn characters_are_typed(
    p: &mut Picker,
    s: &mut Store,
    key: Key,
    c: char,
    out: Outcome,
)
    requires
        call_ensures(Picker::on_key, (p, s, key), out),
        types_a_character(key, c),
        scores_small((*s).entries@, (*p).query@.push(c)),
    ensures
        out is Continue,
        final(p).query@ == old(p).query@.push(c),
        final(s)@ == old(s)@,
        shown_rightly(*final(p), *final(s)),
        selection_kept(old(p).selected, final(p).selected, final(p).view@.len()),
{
    same_entries_same_scores(*s, *final(s), (*p).query@.push(c));
    picker_shows_rightly(*final(p), *final(s));
}

proof fn same_entries_same_scores(a: Store, b: Store, q: Seq<char>)
    requires
        a@ == b@,
        scores_small(a.entries@, q),
    ensures
        scores_small(b.entries@, q),
{
    assert(entry_views(a.entries@).len() == a.entries@.len());
    assert(entry_views(b.entries@).len() == b.entries@.len());
    assert forall|k: int| 0 <= k < b.entries@.len() implies (fuzzy_score(
        (#[trigger] b.entries@[k]).text@,
        q,
    ) matches Some(n) ==> i32::MIN <= n <= i32::MAX) by {
        assert(a@.entries[k] == a.entries@[k]@);
        assert(b@.entries[k] == b.entries@[k]@);
    }
}

/// Backspace takes the last character of the query back.
pub proof fn backspace_takes_back(p: &mut Picker, s: &mut Store, out: Outcome)
    requires
        call_ensures(Picker::on_key, (p, s, Key::Backspace), out),
    ensures
        out is Continue,
        final(s)@ == old(s)@,
        old(p).query@.len() == 0 ==> final(p).query@.len() == 0,
        old(p).query@.len() > 0 ==> final(p).query@ == old(p).query@.take(
            old(p).query@.len() - 1,
        ),
        selection_kept(old(p).selected, final(p).selected, final(p).view@.len()),
{
}

/// What was typed and taken back leaves the query as it was.
pub proof fn typed_and_taken_back(
    p: &mut Picker,
    s: &mut Store,
    c: char,
    q: &mut Picker,
    t: &mut Store,
    out: Outcome,
    then: Outcome,
)
    requires
        call_ensures(Picker::on_key, (p, s, Key::Char(c, false)), out),
        *q == *final(p),
        *t == *final(s),
        call_ensures(Picker::on_key, (q, t, Key::Backspace), then),
    ensures
        final(q).query@ == old(p).query@,
        final(t)@ == old(s)@,
{
    assert((*p).query@.push(c).drop_last() =~= (*p).query@);
}

/// Esc and Ctrl+C close the picker with nothing chosen and nothing changed.
pub proof fn cancel_changes_nothing(p: &mut Picker, s: &mut Store, key: Key, out: Outcome)
    requires
        call_ensures(Picker::on_key, (p, s, key), out),
        key == Key::Esc || key == Key::Char('c', true),
    ensures
        out == Outcome::Done(None),
        final(s)@ == old(s)@,
        *final(p) == *old(p),
{
}

/// Enter closes the picker with the entry that the selected row shows, and changes
/// nothing.
pub proof fn enter_picks_the_selected(p: &mut Picker, s: &mut Store, out: Outcome)
    requires
        call_ensures(Picker::on_key, (p, s, Key::Enter), out),
        (*p).shows((*s)@.entries),
    ensures
        match old(p).selected {
            Some(row) => out == Outcome::Done(
                Some(old(s).entries@[old(p).view@[row as int] as int].id),
            ),
            None => out == Outcome::Done(None),
        },
        final(s)@ == old(s)@,
        *final(p) == *old(p),
{
    if let Some(row) = (*p).selected {
        let i = (*p).view@[row as int] as int;
        assert((*p).view@[row as int] < (*s)@.entries.len());
        assert((*s)@.entries[i] == (*s).entries@[i]@);
    }
}

/// Ctrl+P turns over the pin of the selected entry, changes nothing else in the
/// history, and has it saved.
pub proof fn ctrl_p_pins_the_selected(p: &mut Picker, s: &mut Store, out: Outcome, row: usize)
    requires
        call_ensures(Picker::on_key, (p, s, Key::Char('p', true)), out),
        (*p).shows((*s)@.entries),
        (*p).selected == Some(row),
        forall|i: int, j: int|
            0 <= i < j < (*s).entries@.len() ==> (#[trigger] (*s).entries@[i]).id != (
            #[trigger] (*s).entries@[j]).id,
    ensures
        ({
            let k = old(p).view@[row as int] as int;
            &&& out is Save
            &&& final(s).entries@.len() == old(s).entries@.len()
            &&& final(s).entries@[k]@ == (EntryView {
                pinned: !old(s).entries@[k].pinned,
                ..old(s).entries@[k]@
            })
            &&& forall|i: int|
                0 <= i < old(s).entries@.len() && i != k ==> (#[trigger] final(s).entries@[i])@
                    == old(s).entries@[i]@
            &&& final(p).query@ == old(p).query@
        }),
{
    let before = (*s)@;
    let after = final(s)@;
    let k = (*p).view@[row as int] as int;
    assert((*p).view@[row as int] < before.entries.len());
    assert forall|i: int| 0 <= i < before.entries.len() implies #[trigger] before.entries[i]
        == (*s).entries@[i]@ by {}
    let id = before.entries[k].id;
    first_with_id_sound(before.entries, id);
    assert(crate::store::first_with_id(before.entries, id) == Some(k)) by {
        if let Some(m) = crate::store::first_with_id(before.entries, id) {
            if m < k {
                assert((*s).entries@[m].id != (*s).entries@[k].id);
            }
            if m > k {
                assert(before.entries[k].id != id);
            }
        } else {
            assert(before.entries[k].id != id);
        }
    }
    assert(entry_views(final(s).entries@).len() == final(s).entries@.len());
    assert(after.entries[k] == final(s).entries@[k]@);
    assert forall|i: int| 0 <= i < before.entries.len() && i != k implies (
    #[trigger] final(s).entries@[i])@ == (*s).entries@[i]@ by {
        assert(after.entries[i] == before.entries[i]);
        assert(after.entries[i] == final(s).entries@[i]@);
    }
}

/// Delete and Ctrl+D take the selected entry out, nothing else, and have the history
/// saved.
pub proof fn delete_removes_the_selected(
    p: &mut Picker,
    s: &mut Store,
    key: Key,
    out: Outcome,
    row: usize,
)
    requires
        call_ensures(Picker::on_key, (p, s, key), out),
        key == Key::Delete || key == Key::Char('d', true),
        (*p).shows((*s)@.entries),
        (*p).selected == Some(row),
    ensures
        out is Save,
        entry_views(final(s).entries@) == entry_views(old(s).entries@).filter(
            |e: EntryView| e.id != old(s).entries@[old(p).view@[row as int] as int].id,
        ),
        final(p).query@ == old(p).query@,
        selection_kept(old(p).selected, final(p).selected, final(p).view@.len()),
{
    let k = (*p).view@[row as int] as int;
    assert((*p).view@[row as int] < (*s)@.entries.len());
    assert((*s)@.entries[k] == (*s).entries@[k]@);
    let id = (*s).entries@[k].id;
    assert(entry_views(final(s).entries@) =~= entry_views((*s).entries@).filter(
        |e: EntryView| e.id != id,
    ));
}

/// Where a key leads from a selected row: one up or down, ten up or down, to the
/// first row or to the last, and never out of the list.
pub open spec fn leads_to(key: Key, row: int, rows: int) -> Option<int> {
    match key {
        Key::Up => Some(if row > 0 {
            row - 1
        } else {
            0
        }),
        Key::Down => Some(if row < rows - 1 {
            row + 1
        } else {
            rows - 1
        }),
        Key::PageUp => Some(if row > 10 {
            row - 10
        } else {
            0
        }),
        Key::PageDown => Some(if row + 10 < rows {
            row + 10
        } else {
            rows - 1
        }),
        Key::Home => Some(0),
        Key::End => Some(rows - 1),
        _ => None,
    }
}

/// The movement keys move the selection, and change neither the list, the query nor
/// the history.
pub proof fn movement_keys_move(p: &mut Picker, s: &mut Store, key: Key, out: Outcome, row: usize)
    requires
        call_ensures(Picker::on_key, (p, s, key), out),
        (*p).selected == Some(row),
        row < (*p).view@.len(),
        (*p).view@.len() <= isize::MAX / 2,
        leads_to(key, row as int, (*p).view@.len() as int) is Some,
    ensures
        out is Continue,
        final(p).selected == Some(
            leads_to(key, row as int, old(p).view@.len() as int)->0 as usize,
        ),
        final(p).view@ == old(p).view@,
        final(p).query@ == old(p).query@,
        final(s)@ == old(s)@,
{
}

/// Moving down and up again leads back, unless the end stopped the way down.
pub proof fn down_and_up_again(row: int, rows: int)
    requires
        0 <= row < rows - 1,
    ensures
        leads_to(Key::Up, leads_to(Key::Down, row, rows)->0, rows) == Some(row),
{
}

// ---------------------------------------------------------------------------
// What is drawn

/// Every row shows its entry: a mark where it is pinned, its preview, a mark where it
/// has more lines; and the selected row, and no other, is highlighted. The prompt
/// shows the query.
pub proof fn rows_show_their_entries(
    p: &Picker,
    s: &Store,
    now: i64,
    room: usize,
    screen: Screen,
    i: int,
    head: String,
)
    requires
        call_ensures(Picker::render, (p, s, now, room), screen),
        p.shows(s@.entries),
        0 <= i < p.view@.len(),
        call_ensures(Entry::preview, (&s.entries@[p.view@[i] as int], 80), head),
    ensures
        screen.rows@.len() == p.view@.len(),
        screen.rows@[i].head@ == head@,
        screen.rows@[i].pin@ == if s.entries@[p.view@[i] as int].pinned {
            "📌 "@
        } else {
            "  "@
        },
        screen.rows@[i].multi@ == if s.entries@[p.view@[i] as int].kind is Text
            && s.entries@[p.view@[i] as int].text@.contains('\n') {
            " ⏎"@
        } else {
            ""@
        },
        screen.rows@[i].selected <==> p.selected == Some(i as usize),
        screen.prompt@ == "❯ "@ + p.query@,
{
    let rows = crate::picker::row_views(screen.rows@);
    assert(rows.len() == screen.rows@.len());
    assert(p.view@[i] < s@.entries.len());
    assert(s@.entries[p.view@[i] as int] == s.entries@[p.view@[i] as int]@);
    assert(rows[i] == screen.rows@[i]@);
}

/// The preview pane shows the first lines of the selected text, each as it is, as
/// many as there is room for, and an ellipsis where there are more.
pub proof fn pane_shows_first_lines(
    p: &Picker,
    s: &Store,
    now: i64,
    room: usize,
    screen: Screen,
    row: usize,
    lines: Vec<String>,
    i: int,
)
    requires
        call_ensures(Picker::render, (p, s, now, room), screen),
        p.shows(s@.entries),
        p.selected == Some(row),
        s.entries@[p.view@[row as int] as int].kind is Text,
        crate::text::views(lines@) == crate::text::lines(
            s.entries@[p.view@[row as int] as int].text@,
        ),
    ensures
        0 <= i < lines@.len() && i < room ==> i < screen.body@.len() && screen.body@[i].text@
            == lines@[i]@ && !screen.body@[i].dim,
        lines@.len() > room ==> screen.body@.len() == room + 1 && screen.body@[room as int].text@
            == "…"@ && screen.body@[room as int].dim,
        lines@.len() <= room ==> screen.body@.len() <= room,
{
    let e = s@.entries[p.view@[row as int] as int];
    assert(p.view@[row as int] < s@.entries.len());
    assert(e == s.entries@[p.view@[row as int] as int]@);
    let body = crate::picker::preview_views(screen.body@);
    let ls = crate::text::lines(e.text);
    assert(ls.len() == lines@.len());
    assert(body.len() == screen.body@.len());
    assert(body == crate::picker::text_preview(ls, room as nat));
    if 0 <= i < lines@.len() && i < room {
        assert(crate::text::views(lines@)[i] == lines@[i]@);
        assert(body[i] == (ls[i], false));
        assert(body[i] == (screen.body@[i].text@, screen.body@[i].dim));
    }
    if lines@.len() > room {
        assert(body[room as int] == ("…"@, true));
        assert(body[room as int] == (
            screen.body@[room as int].text@,
            screen.body@[room as int].dim,
        ));
    }
}

/// Every character without Ctrl is typed, and Ctrl turns only C, P and D into
/// something else.
pub proof fn plain_characters_mean_themselves(c: char)
    ensures
        action_of(Key::Char(c, false)) == Action::Type(c),
        action_of(Key::Char(c, true)) == Action::Type(c) <==> c != 'c' && c != 'p' && c != 'd',
{
}

/// The pane says which entry it shows, and shows no text for an image, nor for
/// nothing.
pub proof fn pane_names_its_entry(
    p: &Picker,
    s: &Store,
    now: i64,
    room: usize,
    screen: Screen,
    size: String,
)
    requires
        call_ensures(Picker::render, (p, s, now, room), screen),
        p.shows(s@.entries),
        p.selected matches Some(row) ==> call_ensures(
            Entry::human_size,
            (&s.entries@[p.view@[row as int] as int],),
            size,
        ),
    ensures
        p.selected matches Some(row) ==> screen.title@ == " preview · #"@ + decimal(
            s.entries@[p.view@[row as int] as int].id as nat,
        ) + " · "@ + size@ + " "@,
        p.selected matches Some(row) ==> (s.entries@[p.view@[row as int] as int].kind is Image
            ==> screen.body@.len() == 1 && screen.body@[0].text@ == "[image payload]"@),
        p.selected is None ==> screen.title@ == " preview "@ && screen.body@.len() == 1
            && screen.body@[0].text@ == "(no matches)"@,
        room < 0xfffe ==> screen.pane_height == room + 2,
{
    let body = crate::picker::preview_views(screen.body@);
    assert(body.len() == screen.body@.len());
    if let Some(row) = p.selected {
        let k = p.view@[row as int] as int;
        assert(p.view@[row as int] < s@.entries.len());
        assert(s@.entries[k] == s.entries@[k]@);
        if s.entries@[k].kind is Image {
            assert(body[0] == (screen.body@[0].text@, screen.body@[0].dim));
        }
    } else {
        assert(body[0] == (screen.body@[0].text@, screen.body@[0].dim));
    }
}

/// Details of a row are its age and its size.
pub proof fn rows_show_age_and_size(
    p: &Picker,
    s: &Store,
    now: i64,
    room: usize,
    screen: Screen,
    i: int,
    age: String,
    size: String,
)
    requires
        call_ensures(Picker::render, (p, s, now, room), screen),
        p.shows(s@.entries),
        0 <= i < p.view@.len(),
        call_ensures(Entry::age, (&s.entries@[p.view@[i] as int], now), age),
        call_ensures(Entry::human_size, (&s.entries@[p.view@[i] as int],), size),
    ensures
        screen.rows@[i].details@ == "  "@ + age@ + " · "@ + size@,
{
    let rows = crate::picker::row_views(screen.rows@);
    assert(rows.len() == screen.rows@.len());
    assert(p.view@[i] < s@.entries.len());
    assert(s@.entries[p.view@[i] as int] == s.entries@[p.view@[i] as int]@);
    assert(rows[i] == screen.rows@[i]@);
}

/// Keys that search for nothing are always taken, and the others are where the query
/// and the texts are of ordinary length.
pub proof fn keys_are_taken(p: &Picker, s: &Store, key: Key, res: bool)
    requires
        call_ensures(Picker::takes, (p, s, key), res),
    ensures
        key is Esc || key is Enter || key is Other || key == Key::Char('c', true) || leads_to(
            key,
            0,
            1,
        ) is Some ==> res,
        p.query@.len() == 0 && (key is Delete || key is Backspace || key == Key::Char('p', true)
            || key == Key::Char('d', true)) ==> res,
        p.query@.len() < 1_000_000 && (forall|i: int|
            0 <= i < s.entries@.len() ==> (#[trigger] s.entries@[i]).text@.len() <= 10_000_000)
            ==> res,
{
    let es = s@.entries;
    if forall|i: int|
        0 <= i < s.entries@.len() ==> (#[trigger] s.entries@[i]).text@.len() <= 10_000_000 {
        assert forall|i: int| 0 <= i < es.len() implies crate::picker::fits(
            (#[trigger] es[i]).text.len(),
        ) by {
            assert(es[i] == s.entries@[i]@);
            assert(s.entries@[i].text@.len() <= 10_000_000);
        }
    }
}

} // verus!
