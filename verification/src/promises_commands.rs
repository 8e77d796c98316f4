//! What the commands promise, told of what goes in and what comes out.

use crate::cli::{
    add_message, add_source, check_addable, clear, export_copies, find_id, list_line, listed,
    may_export_to, may_pick, payload_files, picked, pin, preview_room, resolve_id, retention_limit, watch_config, AddError, AddSource,
    ClearError, Findings, IdError, Picked,
};
use crate::config::{
    add_pattern, apply_set, clamp_poll, deny_add, Config, ConfigError, ConfigRead, ConfigView,
    DedupMode, SetError,
};
use crate::entry::{Entry, EntryView};
use crate::pattern::compiled;
use crate::promises_watch::{long_enough, patterns_by_fields, some_pattern_matches};
use crate::store::{entry_views, first_with_id, first_with_id_sound, Store};
use crate::text::{decimal, decimal_digits, decimal_reads_back, is_digit, number, views};
use vstd::prelude::*;

verus! {

// ---------------------------------------------------------------------------
// Naming entries

/// In any history that is not empty, of whatever length, `-` names the entry at its
/// end; in an empty one it names nothing.
pub proof fn dash_names_the_newest(s: &Store, word: &str, res: Result<&Entry, IdError>)
    requires
        call_ensures(resolve_id, (s, word), res),
        word@ == seq!['-'],
    ensures
        s.entries@.len() > 0 ==> (res matches Ok(e) && e@ == s.entries@[s.entries@.len() - 1]@),
        s.entries@.len() == 0 ==> res == Err::<&Entry, IdError>(IdError::Empty),
{
    reveal_strlit("-");
    assert("-"@ =~= seq!['-']);
    let n = s.entries@.len();
    assert(s@.entries.len() == n);
    if n > 0 {
        assert(s@.entries[n - 1] == s.entries@[n - 1]@);
    }
}

proof fn named_by_id(s: Store, id: u64)
    ensures
        match crate::cli::entry_with(s@.entries, id) {
            Ok(e) => e.id == id && exists|i: int|
                0 <= i < s.entries@.len() && (#[trigger] s.entries@[i])@ == e && forall|j: int|
                    0 <= j < i ==> (#[trigger] s.entries@[j]).id != id,
            Err(why) => why == IdError::NoEntry(id) && forall|i: int|
                0 <= i < s.entries@.len() ==> (#[trigger] s.entries@[i]).id != id,
        },
{
    let es = s@.entries;
    first_with_id_sound(es, id);
    assert forall|i: int| 0 <= i < es.len() implies #[trigger] es[i] == s.entries@[i]@ by {}
    match first_with_id(es, id) {
        Some(i) => {
            assert(s.entries@[i]@ == es[i]);
            assert forall|j: int| 0 <= j < i implies (#[trigger] s.entries@[j]).id != id by {
                assert(es[j].id != id);
            }
        },
        None => {
            assert forall|i: int| 0 <= i < s.entries@.len() implies (#[trigger] s.entries@[i]).id
                != id by {
                assert(es[i].id != id);
            }
        },
    }
}

/// An id in decimal names the first entry that has it, and nothing where none has
/// it.
pub proof fn number_names_its_entry(s: &Store, word: &str, id: u64, res: Result<&Entry, IdError>)
    requires
        call_ensures(resolve_id, (s, word), res),
        word@ == decimal(id as nat),
    ensures
        match res {
            Ok(e) => e.id == id && exists|i: int|
                0 <= i < s.entries@.len() && (#[trigger] s.entries@[i])@ == e@ && forall|j: int|
                    0 <= j < i ==> (#[trigger] s.entries@[j]).id != id,
            Err(why) => why == IdError::NoEntry(id) && forall|i: int|
                0 <= i < s.entries@.len() ==> (#[trigger] s.entries@[i]).id != id,
        },
{
    crate::cli::printed_id_resolves(s@.entries, id);
    named_by_id(*s, id);
}

/// A word that is neither `-` nor made of digits names nothing.
pub proof fn other_words_name_nothing(s: &Store, word: &str, i: int, res: Result<&Entry, IdError>)
    requires
        call_ensures(resolve_id, (s, word), res),
        word@ != seq!['-'],
        0 <= i < word@.len(),
        !is_digit(word@[i]),
        i == 0 ==> word@[0] != '+',
    ensures
        res == Err::<&Entry, IdError>(IdError::NotANumber),
{
    reveal_strlit("-");
    assert("-"@ =~= seq!['-']);
    let d = crate::text::without_plus(word@);
    if word@[0] == '+' {
        assert(d[i - 1] == word@[i]);
    } else {
        assert(d[i] == word@[i]);
    }
}

/// Looking an id up finds the first entry that has it.
pub proof fn find_finds_the_id(s: &Store, id: u64, res: Result<&Entry, IdError>)
    requires
        call_ensures(find_id, (s, id), res),
    ensures
        match res {
            Ok(e) => e.id == id && exists|i: int|
                0 <= i < s.entries@.len() && (#[trigger] s.entries@[i])@ == e@ && forall|j: int|
                    0 <= j < i ==> (#[trigger] s.entries@[j]).id != id,
            Err(why) => why == IdError::NoEntry(id) && forall|i: int|
                0 <= i < s.entries@.len() ==> (#[trigger] s.entries@[i]).id != id,
        },
{
    named_by_id(*s, id);
}

// ---------------------------------------------------------------------------
// Numbers

/// A number is written with decimal digits, without leading zeros, the last digit
/// being what is left over after dividing by ten.
pub proof fn decimal_is_positional(n: nat)
    ensures
        n >= 10 ==> decimal(n) == decimal(n / 10).push((48 + n % 10) as char),
        n < 10 ==> decimal(n) == seq![(48 + n) as char],
        n > 0 ==> decimal(n)[0] != '0',
    decreases n,
{
    if n >= 10 {
        decimal_is_positional(n / 10);
        decimal_digits(n / 10);
        assert(decimal(n)[0] == decimal(n / 10)[0]);
    } else {
        assert(decimal(n)[0] == (48 + n) as char);
    }
}

/// What is read as a number is that number written out, but for a plus sign and
/// leading zeros.
pub proof fn number_reads_what_is_written(s: Seq<char>, max: nat)
    requires
        s.len() > 0,
        forall|i: int| 0 <= i < s.len() ==> is_digit(#[trigger] s[i]),
        s[0] != '0' || s.len() == 1,
    ensures
        number(s, max) matches Some(n) ==> n <= max && decimal(n) == s,
        number(s, max) is None ==> forall|n: nat| n <= max ==> #[trigger] decimal(n) != s,
{
    digits_are_decimal(s);
    assert(is_digit(s[0]));
    assert(crate::text::without_plus(s) == s);
    if number(s, max) is None {
        assert forall|n: nat| n <= max implies #[trigger] decimal(n) != s by {
            decimal_reads_back(n, max);
        }
    }
}

proof fn digits_are_decimal(s: Seq<char>)
    requires
        s.len() > 0,
        forall|i: int| 0 <= i < s.len() ==> is_digit(#[trigger] s[i]),
        s[0] != '0' || s.len() == 1,
    ensures
        decimal(crate::text::digits_value(s)) == s,
        s[0] != '0' ==> crate::text::digits_value(s) > 0,
    decreases s.len(),
{
    let v = crate::text::digits_value(s);
    let d = (s.last() as nat - 48) as nat;
    assert(is_digit(s[s.len() - 1]));
    assert(d < 10 && (48 + d) as char == s.last());
    if s.len() == 1 {
        assert(s.drop_last() =~= Seq::<char>::empty());
        assert(crate::text::digits_value(s.drop_last()) == 0);
        assert(decimal(v) =~= s);
    } else {
        let head = s.drop_last();
        assert forall|i: int| 0 <= i < head.len() implies is_digit(#[trigger] head[i]) by {
            assert(head[i] == s[i]);
        }
        assert(head[0] == s[0]);
        digits_are_decimal(head);
        let h = crate::text::digits_value(head);
        assert(v == h * 10 + d);
        assert(v / 10 == h && v % 10 == d);
        assert(decimal(v) =~= s);
    }
}

// ---------------------------------------------------------------------------
// Listing and picking

/// A listing shows the newest entries first, as many as are asked for or there are.
pub proof fn listing_is_newest_first(s: &Store, limit: usize, out: Vec<&Entry>)
    requires
        call_ensures(listed, (s, limit), out),
    ensures
        out@.len() <= limit,
        out@.len() <= s.entries@.len(),
        out@.len() == limit || out@.len() == s.entries@.len(),
        forall|i: int|
            0 <= i < out@.len() ==> (#[trigger] out@[i])@ == s.entries@[s.entries@.len() - 1 - i]@,
{
    assert(s@.entries.len() == s.entries@.len());
    assert forall|i: int| 0 <= i < out@.len() implies (#[trigger] out@[i])@
        == s.entries@[s.entries@.len() - 1 - i]@ by {
        let k = s.entries@.len() - 1 - i;
        assert(s@.entries[k] == s.entries@[k]@);
    }
}

/// A line of a listing begins with the id, right-aligned in six columns, shows a star
/// exactly where the entry is pinned, and ends with the preview, behind which a mark
/// tells of more lines.
pub proof fn line_shows_id_pin_and_preview(e: &Entry, now: i64, line: String, head: String)
    requires
        call_ensures(list_line, (e, now), line),
        call_ensures(Entry::preview, (e, 70), head),
    ensures
        ({
            let id = decimal(e.id as nat);
            let w = if id.len() < 6 {
                6
            } else {
                id.len() as int
            };
            let tail = if e.kind is Text && e.text@.contains('\n') {
                head@ + " ⏎"@
            } else {
                head@
            };
            &&& line@.len() >= w + 3 + tail.len()
            &&& line@.subrange(w - id.len(), w) == id
            &&& forall|i: int| 0 <= i < w - id.len() ==> line@[i] == ' '
            &&& line@[w + 1] == if e.pinned {
                '*'
            } else {
                ' '
            }
            &&& line@.skip(line@.len() - tail.len()) == tail
        }),
{
    reveal_strlit(" ");
    reveal_strlit("*");
    reveal_strlit("  ");
    reveal_strlit("");
    let id = decimal(e.id as nat);
    let w = if id.len() < 6 {
        6
    } else {
        id.len() as int
    };
    let tail = if e.kind is Text && e.text@.contains('\n') {
        head@ + " ⏎"@
    } else {
        head@
    };
    assert(crate::text::padded(id, 6).len() == w);
    assert(line@.subrange(w - id.len(), w) =~= id);
    assert(line@.skip(line@.len() - tail.len()) =~= tail);
}

/// A picked text is printed as it is, with a line feed behind it exactly where that
/// was asked for, or goes to the clipboard as it is; a picked image goes to the
/// clipboard.
pub proof fn picked_text_is_the_text(e: &Entry, newline: bool, copy: bool, out: Picked)
    requires
        call_ensures(picked, (e, newline, copy), out),
    ensures
        e.kind is Text && copy ==> (out matches Picked::CopyText(t) && t@ == e.text@),
        e.kind is Text && !copy && !newline ==> (out matches Picked::Print(t) && t@ == e.text@),
        e.kind is Text && !copy && newline ==> (out matches Picked::Print(t) && t@ == e.text@
            + seq!['\n']),
        e.kind is Image ==> (out matches Picked::CopyImage(m) && m@ == "copied image #"@ + decimal(
            e.id as nat,
        ) + " back to the clipboard"@),
{
    assert(e.text@.push('\n') =~= e.text@ + seq!['\n']);
}

/// There is something to pick exactly where the history is not empty.
pub proof fn picking_needs_entries(s: &Store, res: Result<(), String>)
    requires
        call_ensures(may_pick, (s,), res),
    ensures
        res is Ok <==> s.entries@.len() > 0,
{
    assert(s@.entries.len() == s.entries@.len());
}

// ---------------------------------------------------------------------------
// Adding

/// A text comes from where it was given, from standard input where nothing was, and
/// giving two places is an error.
pub proof fn source_is_what_was_given(
    text: Option<String>,
    file: Option<String>,
    res: Result<AddSource, AddError>,
)
    requires
        call_ensures(add_source, (text, file), res),
    ensures
        res is Err <==> text is Some && file is Some,
        res matches Ok(AddSource::Text(t)) ==> text == Some(t),
        res matches Ok(AddSource::File(f)) ==> file == Some(f),
        res matches Ok(AddSource::Stdin) ==> text is None && file is None,
{
}

/// A text can be added exactly where every pattern compiles, its length in bytes is
/// within bounds, and no pattern matches it.
pub proof fn addable_by_length_and_patterns(cfg: &Config, text: &str, res: Result<(), AddError>)
    requires
        call_ensures(check_addable, (cfg, text), res),
    ensures
        res is Ok <==> {
            &&& forall|i: int|
                0 <= i < cfg.deny_patterns@.len() ==> compiled(
                    (#[trigger] cfg.deny_patterns@[i])@,
                ) is Ok
            &&& long_enough(*cfg, text@)
            &&& !some_pattern_matches(*cfg, text@)
        },
        res matches Err(AddError::Rejected) ==> !long_enough(*cfg, text@) || some_pattern_matches(
            *cfg,
            text@,
        ),
{
    patterns_by_fields(*cfg);
    crate::promises_watch::denied_by_fields(*cfg, text@);
}

/// Adding says the new id, or that the text was there.
pub proof fn added_says_the_id(id: Option<u64>, out: String)
    requires
        call_ensures(add_message, (id,), out),
    ensures
        id matches Some(n) ==> number(out@, u64::MAX as nat) == Some(n as nat),
        id is None ==> out@ == "already in history"@,
{
    if let Some(n) = id {
        decimal_reads_back(n as nat, u64::MAX as nat);
    }
}

// ---------------------------------------------------------------------------
// Clearing and pinning

/// `clear --all` leaves the pinned entries, all of them and as they stand.
pub proof fn clear_all_leaves_pins(
    s: &mut Store,
    id: Option<u64>,
    last: bool,
    res: Result<String, ClearError>,
)
    requires
        call_ensures(clear, (s, id, last, true), res),
    ensures
        entry_views(final(s).entries@) == entry_views(old(s).entries@).filter(
            |e: EntryView| e.pinned,
        ),
        final(s).entries@.len() <= old(s).entries@.len(),
        res matches Ok(m) && m@ == if final(s).entries@.len() == old(s).entries@.len()
            && final(s).entries@.len() > 0 {
            "only pinned entries remain (unpin with `clipcrate pin <id>`)"@
        } else {
            "deleted "@ + decimal((old(s).entries@.len() - final(s).entries@.len()) as nat)
        },
{
    crate::laws::clearing_keeps_pins((*s)@);
    assert(entry_views(final(s).entries@).len() == final(s).entries@.len());
    assert(entry_views((*s).entries@).len() == (*s).entries@.len());
}

/// `clear --last` takes out the entry at the end of the history, with whatever has
/// its id, and nothing else.
pub proof fn clear_last_takes_the_newest(
    s: &mut Store,
    id: Option<u64>,
    res: Result<String, ClearError>,
)
    requires
        call_ensures(clear, (s, id, true, false), res),
    ensures
        res matches Ok(m) && m@ == "deleted "@ + decimal(
            if old(s).entries@.len() > 0 {
                1
            } else {
                0
            },
        ),
        old(s).entries@.len() == 0 ==> final(s)@ == old(s)@,
        old(s).entries@.len() > 0 ==> entry_views(final(s).entries@) == entry_views(
            old(s).entries@,
        ).filter(|e: EntryView| e.id != old(s).entries@[old(s).entries@.len() - 1].id),
{
    let n = (*s).entries@.len();
    assert((*s)@.entries.len() == n);
    if n > 0 {
        assert((*s)@.entries[n - 1] == (*s).entries@[n - 1]@);
        let last = (*s).entries@[n - 1].id;
        assert(entry_views(final(s).entries@) =~= entry_views((*s).entries@).filter(
            |e: EntryView| e.id != last,
        ));
    }
}

/// `clear <id>` takes out what has the id, and nothing else; an id that nothing has
/// is an error.
pub proof fn clear_id_takes_the_id(s: &mut Store, id: u64, res: Result<String, ClearError>)
    requires
        call_ensures(clear, (s, Some(id), false, false), res),
    ensures
        entry_views(final(s).entries@) == entry_views(old(s).entries@).filter(
            |e: EntryView| e.id != id,
        ),
        res is Ok <==> exists|i: int|
            0 <= i < old(s).entries@.len() && (#[trigger] old(s).entries@[i]).id == id,
        res matches Ok(m) ==> m@ == "deleted "@ + decimal(1),
        res matches Err(e) ==> e == ClearError::NoEntry(id),
{
    let es = (*s)@.entries;
    first_with_id_sound(es, id);
    assert forall|i: int| 0 <= i < es.len() implies #[trigger] es[i] == (*s).entries@[i]@ by {}
    if res is Ok {
        let i = first_with_id(es, id)->0;
        assert((*s).entries@[i].id == id);
    } else {
        assert forall|i: int| 0 <= i < (*s).entries@.len() implies (#[trigger] (*s).entries@[i]).id
            != id by {
            assert(es[i].id != id);
        }
        none_filtered(es, id);
    }
}

proof fn none_filtered(es: Seq<EntryView>, id: u64)
    requires
        forall|i: int| 0 <= i < es.len() ==> (#[trigger] es[i]).id != id,
    ensures
        es.filter(|e: EntryView| e.id != id) == es,
    decreases es.len(),
{
    reveal(Seq::filter);
    if es.len() > 0 {
        let head = es.drop_last();
        assert forall|i: int| 0 <= i < head.len() implies (#[trigger] head[i]).id != id by {
            assert(head[i] == es[i]);
        }
        none_filtered(head, id);
        assert(es[es.len() - 1].id != id);
        assert(head.push(es.last()) =~= es);
    } else {
        assert(es.filter(|e: EntryView| e.id != id) =~= es);
    }
}

/// Clearing without saying what is an error, and changes nothing.
pub proof fn clear_of_nothing(s: &mut Store, res: Result<String, ClearError>)
    requires
        call_ensures(clear, (s, None, false, false), res),
    ensures
        res == Err::<String, ClearError>(ClearError::NothingNamed),
        final(s)@ == old(s)@,
{
}

/// Pinning turns over the pin of the first entry with the id, nothing else, and says
/// which way; an id that nothing has is an error.
pub proof fn pin_command_turns_one_over(
    s: &mut Store,
    id: u64,
    res: Result<String, IdError>,
    i: int,
)
    requires
        call_ensures(pin, (s, id), res),
        0 <= i < (*s).entries@.len(),
        (*s).entries@[i].id == id,
        forall|j: int| 0 <= j < i ==> (#[trigger] (*s).entries@[j]).id != id,
    ensures
        res matches Ok(m) && m@ == (if old(s).entries@[i].pinned {
            "unpinned #"@
        } else {
            "pinned #"@
        }) + decimal(id as nat),
        entry_views(final(s).entries@) == entry_views(old(s).entries@).update(
            i,
            EntryView { pinned: !old(s).entries@[i].pinned, ..old(s).entries@[i]@ },
        ),
{
    let es = (*s)@.entries;
    first_with_id_sound(es, id);
    assert forall|k: int| 0 <= k < es.len() implies #[trigger] es[k] == (*s).entries@[k]@ by {}
    assert(first_with_id(es, id) == Some(i)) by {
        if let Some(m) = first_with_id(es, id) {
            if m < i {
                assert((*s).entries@[m].id != id);
            }
            if m > i {
                assert(es[i].id != id);
            }
        } else {
            assert(es[i].id != id);
        }
    }
}

/// An export copies nothing but the payloads of images.
pub proof fn export_has_payloads_only(s: &Store, out: Vec<String>, i: int)
    requires
        call_ensures(payload_files, (s,), out),
        0 <= i < out@.len(),
    ensures
        exists|k: int|
            0 <= k < s.entries@.len() && (#[trigger] s.entries@[k]).kind is Image && out@[i]@
                == crate::path::joined(s.dir@, s.entries@[k].text@),
{
    let es = s@.entries;
    assert(views(out@)[i] == out@[i]@);
    files_are_of_images(es, s.dir@, i);
    let k = choose|k: int|
        0 <= k < es.len() && (#[trigger] es[k]).kind is Image && crate::cli::image_files(
            es,
            s.dir@,
        )[i] == crate::path::joined(s.dir@, es[k].text);
    assert(es[k] == s.entries@[k]@);
}

proof fn files_are_of_images(es: Seq<EntryView>, dir: Seq<char>, i: int)
    requires
        0 <= i < crate::cli::image_files(es, dir).len(),
    ensures
        exists|k: int|
            0 <= k < es.len() && (#[trigger] es[k]).kind is Image && crate::cli::image_files(
                es,
                dir,
            )[i] == crate::path::joined(dir, es[k].text),
    decreases es.len(),
{
    let head = es.drop_last();
    let hs = crate::cli::image_files(head, dir);
    if i < hs.len() {
        files_are_of_images(head, dir, i);
        let k = choose|k: int|
            0 <= k < head.len() && (#[trigger] head[k]).kind is Image && hs[i]
                == crate::path::joined(dir, head[k].text);
        assert(es[k] == head[k]);
    } else {
        assert(es[es.len() - 1].kind is Image);
    }
}

/// An export copies the payload of every image.
pub proof fn export_has_every_payload(s: &Store, out: Vec<String>, k: int)
    requires
        call_ensures(payload_files, (s,), out),
        0 <= k < s.entries@.len(),
        s.entries@[k].kind is Image,
    ensures
        exists|i: int|
            0 <= i < out@.len() && (#[trigger] out@[i])@ == crate::path::joined(
                s.dir@,
                s.entries@[k].text@,
            ),
        out@.len() <= s.entries@.len(),
{
    let es = s@.entries;
    assert(es[k] == s.entries@[k]@);
    files_of_images(es, s.dir@, k);
    let p = crate::path::joined(s.dir@, s.entries@[k].text@);
    let fs = crate::cli::image_files(es, s.dir@);
    let i = choose|i: int| 0 <= i < fs.len() && #[trigger] fs[i] == p;
    assert(views(out@)[i] == out@[i]@);
}

proof fn files_of_images(es: Seq<EntryView>, dir: Seq<char>, k: int)
    requires
        0 <= k < es.len(),
        es[k].kind is Image,
    ensures
        exists|i: int|
            0 <= i < crate::cli::image_files(es, dir).len() && #[trigger] crate::cli::image_files(
                es,
                dir,
            )[i] == crate::path::joined(dir, es[k].text),
        crate::cli::image_files(es, dir).len() <= es.len(),
    decreases es.len(),
{
    let fs = crate::cli::image_files(es, dir);
    let head = es.drop_last();
    let hs = crate::cli::image_files(head, dir);
    files_bounded(es, dir);
    if k == es.len() - 1 {
        assert(fs[fs.len() - 1] == crate::path::joined(dir, es[k].text));
    } else {
        files_of_images(head, dir, k);
        assert(head[k] == es[k]);
        let i = choose|i: int|
            0 <= i < hs.len() && #[trigger] hs[i] == crate::path::joined(dir, es[k].text);
        assert(fs[i] == hs[i]);
    }
}

proof fn files_bounded(es: Seq<EntryView>, dir: Seq<char>)
    ensures
        crate::cli::image_files(es, dir).len() <= es.len(),
    decreases es.len(),
{
    if es.len() > 0 {
        files_bounded(es.drop_last(), dir);
    }
}

// ---------------------------------------------------------------------------
// Settings

proof fn keys_differ()
    ensures
        "max_entries"@ != "min_length"@,
        "max_entries"@ != "max_length"@,
        "max_entries"@ != "preview_lines"@,
        "max_entries"@ != "poll_ms"@,
        "max_entries"@ != "dedup"@,
        "min_length"@ != "max_length"@,
        "min_length"@ != "preview_lines"@,
        "min_length"@ != "poll_ms"@,
        "min_length"@ != "dedup"@,
        "max_length"@ != "preview_lines"@,
        "max_length"@ != "poll_ms"@,
        "max_length"@ != "dedup"@,
        "preview_lines"@ != "poll_ms"@,
        "preview_lines"@ != "dedup"@,
        "poll_ms"@ != "dedup"@,
{
    reveal_strlit("max_entries");
    reveal_strlit("min_length");
    reveal_strlit("max_length");
    reveal_strlit("preview_lines");
    reveal_strlit("poll_ms");
    reveal_strlit("dedup");
    assert("max_entries"@.len() == 11 && "min_length"@.len() == 10 && "max_length"@.len() == 10);
    assert("preview_lines"@.len() == 13 && "poll_ms"@.len() == 7 && "dedup"@.len() == 5);
    assert("min_length"@[1] == 'i' && "max_length"@[1] == 'a');
}

/// Setting a key to a number sets that very field to that very number, but for the
/// lower bound of the polling interval, and leaves every other field alone.
pub proof fn set_sets_its_field(
    cfg: &mut Config,
    key: &str,
    value: &str,
    n: usize,
    res: Result<(), SetError>,
)
    requires
        call_ensures(apply_set, (cfg, key, value), res),
        value@ == decimal(n as nat),
    ensures
        key@ == "max_entries"@ ==> res is Ok && final(cfg)@ == (ConfigView {
            max_entries: n,
            ..old(cfg)@
        }),
        key@ == "min_length"@ ==> res is Ok && final(cfg)@ == (ConfigView {
            min_length: n,
            ..old(cfg)@
        }),
        key@ == "max_length"@ ==> res is Ok && final(cfg)@ == (ConfigView {
            max_length: n,
            ..old(cfg)@
        }),
        key@ == "preview_lines"@ ==> res is Ok && final(cfg)@ == (ConfigView {
            preview_lines: n,
            ..old(cfg)@
        }),
        key@ == "poll_ms"@ ==> res is Ok && final(cfg)@ == (ConfigView {
            poll_ms: if n < 50 {
                50u64
            } else {
                n as u64
            },
            ..old(cfg)@
        }),
{
    keys_differ();
    decimal_reads_back(n as nat, usize::MAX as nat);
}

/// The dedup mode is set by its name, and by no other word.
pub proof fn dedup_is_set_by_name(
    cfg: &mut Config,
    key: &str,
    value: &str,
    res: Result<(), SetError>,
)
    requires
        call_ensures(apply_set, (cfg, key, value), res),
        key@ == "dedup"@,
    ensures
        value@ == "bump"@ ==> res is Ok && final(cfg)@ == (ConfigView {
            dedup: DedupMode::Bump,
            ..old(cfg)@
        }),
        value@ == "update"@ ==> res is Ok && final(cfg)@ == (ConfigView {
            dedup: DedupMode::Update,
            ..old(cfg)@
        }),
        value@ == "all"@ ==> res is Ok && final(cfg)@ == (ConfigView {
            dedup: DedupMode::All,
            ..old(cfg)@
        }),
        value@ != "bump"@ && value@ != "update"@ && value@ != "all"@ ==> res is Err,
        res is Err ==> final(cfg)@ == old(cfg)@,
{
    keys_differ();
    reveal_strlit("bump");
    reveal_strlit("update");
    reveal_strlit("all");
    assert("bump"@.len() == 4 && "update"@.len() == 6 && "all"@.len() == 3);
}

/// What is not a number, and what is no key, is refused, and changes nothing.
pub proof fn bad_setting_changes_nothing(
    cfg: &mut Config,
    key: &str,
    value: &str,
    res: Result<(), SetError>,
)
    requires
        call_ensures(apply_set, (cfg, key, value), res),
        key@ != "dedup"@,
        value@.len() == 0 || (exists|i: int|
            0 <= i < value@.len() && !is_digit(#[trigger] value@[i]) && (i > 0 || value@[0] != '+'))
            || !(key@ == "max_entries"@ || key@ == "min_length"@ || key@ == "max_length"@ || key@
            == "preview_lines"@ || key@ == "poll_ms"@),
    ensures
        res is Err,
        final(cfg)@ == old(cfg)@,
{
    keys_differ();
    let d = crate::text::without_plus(value@);
    if exists|i: int|
        0 <= i < value@.len() && !is_digit(#[trigger] value@[i]) && (i > 0 || value@[0] != '+') {
        let i = choose|i: int|
            0 <= i < value@.len() && !is_digit(#[trigger] value@[i]) && (i > 0 || value@[0] != '+');
        if value@[0] == '+' {
            assert(d[i - 1] == value@[i]);
        } else {
            assert(d[i] == value@[i]);
        }
    }
}

/// An added pattern is there, at the end where it is new; the others stay as they
/// are, and so does every other setting. A pattern that does not compile is refused,
/// and changes nothing.
pub proof fn deny_add_adds_the_pattern(
    cfg: &mut Config,
    pattern: &str,
    res: Result<bool, ConfigError>,
)
    requires
        call_ensures(deny_add, (cfg, pattern), res),
    ensures
        res is Ok <==> compiled(pattern@) is Ok,
        res matches Ok(added) ==> {
            &&& added <==> forall|i: int|
                0 <= i < old(cfg).deny_patterns@.len() ==> (#[trigger] old(cfg).deny_patterns@[i])@
                    != pattern@
            &&& final(cfg)@.deny_patterns.contains(pattern@)
            &&& final(cfg)@.deny_patterns.len() == old(cfg)@.deny_patterns.len() + if added {
                1int
            } else {
                0
            }
            &&& old(cfg)@.deny_patterns.is_prefix_of(final(cfg)@.deny_patterns)
            &&& (ConfigView { deny_patterns: old(cfg)@.deny_patterns, ..final(cfg)@ }) == old(cfg)@
        },
        res is Err ==> final(cfg)@ == old(cfg)@,
{
    pattern_is_added((*cfg)@, final(cfg)@, pattern@, (*cfg).deny_patterns@);
}

proof fn pattern_is_added(
    before: ConfigView,
    after: ConfigView,
    pattern: Seq<char>,
    raw: Seq<String>,
)
    requires
        before.deny_patterns == views(raw),
    ensures
        after == crate::config::with_pattern(before, pattern) ==> {
            &&& after.deny_patterns.contains(pattern)
            &&& before.deny_patterns.is_prefix_of(after.deny_patterns)
        },
        !before.deny_patterns.contains(pattern) <==> forall|i: int|
            0 <= i < raw.len() ==> (#[trigger] raw[i])@ != pattern,
{
    let ps = before.deny_patterns;
    if ps.contains(pattern) {
        let i = choose|i: int| 0 <= i < ps.len() && ps[i] == pattern;
        assert(raw[i]@ == pattern);
    } else {
        assert forall|i: int| 0 <= i < raw.len() implies (#[trigger] raw[i])@ != pattern by {
            assert(ps[i] == raw[i]@);
            if raw[i]@ == pattern {
                assert(ps.contains(pattern));
            }
        }
    }
    if after == crate::config::with_pattern(before, pattern) {
        if !ps.contains(pattern) {
            assert(after.deny_patterns[ps.len() as int] == pattern);
        }
        assert(after.deny_patterns.take(ps.len() as int) =~= ps);
    }
}

/// A pattern that compiles is added in the same way.
pub proof fn add_pattern_adds(cfg: &mut Config, pattern: &str, added: bool)
    requires
        call_ensures(add_pattern, (cfg, pattern), added),
    ensures
        added <==> forall|i: int|
            0 <= i < old(cfg).deny_patterns@.len() ==> (#[trigger] old(cfg).deny_patterns@[i])@
                != pattern@,
        final(cfg)@.deny_patterns.contains(pattern@),
        old(cfg)@.deny_patterns.is_prefix_of(final(cfg)@.deny_patterns),
        (ConfigView { deny_patterns: old(cfg)@.deny_patterns, ..final(cfg)@ }) == old(cfg)@,
{
    pattern_is_added((*cfg)@, final(cfg)@, pattern@, (*cfg).deny_patterns@);
}

/// A configuration can be used exactly where its bounds do not cross and every
/// pattern compiles, and then it is used as it is.
pub proof fn load_takes_what_is_sound(cfg: Config, res: Result<Config, ConfigError>)
    requires
        call_ensures(Config::load, (ConfigRead::Parsed(cfg),), res),
    ensures
        res is Ok <==> cfg.min_length <= cfg.max_length && forall|i: int|
            0 <= i < cfg.deny_patterns@.len() ==> compiled((#[trigger] cfg.deny_patterns@[i])@) is Ok,
        res matches Ok(out) ==> out == cfg,
        res matches Err(e) ==> (e is MinExceedsMax <==> cfg.min_length > cfg.max_length),
{
    patterns_by_fields(cfg);
}

/// Patterns are compiled one by one, in their order; the first that does not compile is
/// the one that is reported.
pub proof fn first_bad_pattern_is_reported(
    cfg: &Config,
    res: Result<Vec<regex::Regex>, ConfigError>,
)
    requires
        call_ensures(Config::compile_denies, (cfg,), res),
    ensures
        res matches Ok(v) ==> v@.len() == cfg.deny_patterns@.len() && forall|i: int|
            0 <= i < v@.len() ==> compiled(cfg.deny_patterns@[i]@) == Ok::<
                regex::Regex,
                regex::Error,
            >(#[trigger] v@[i]),
        res matches Err(e) ==> exists|i: int|
            {
                &&& 0 <= i < cfg.deny_patterns@.len()
                &&& compiled((#[trigger] cfg.deny_patterns@[i])@) matches Err(why) && e
                    == ConfigError::BadPattern(why)
                &&& forall|j: int|
                    0 <= j < i ==> compiled((#[trigger] cfg.deny_patterns@[j])@) is Ok
            },
{
    let ps = cfg@.deny_patterns;
    assert(ps.len() == cfg.deny_patterns@.len());
    assert forall|i: int| 0 <= i < ps.len() implies #[trigger] ps[i] == cfg.deny_patterns@[i]@ by {}
    match res {
        Ok(v) => {
            assert forall|i: int| 0 <= i < v@.len() implies compiled(cfg.deny_patterns@[i]@)
                == Ok::<regex::Regex, regex::Error>(#[trigger] v@[i]) by {
                assert(compiled(ps[i]) == Ok::<regex::Regex, regex::Error>(v@[i]));
            }
        },
        Err(e) => {
            let i = bad_one(ps);
            assert(compiled(cfg.deny_patterns@[i]@) is Err);
            assert forall|j: int| 0 <= j < i implies compiled(
                (#[trigger] cfg.deny_patterns@[j])@,
            ) is Ok by {
                assert(compiled(ps[j]) is Ok);
            }
        },
    }
}

proof fn bad_one(ps: Seq<Seq<char>>) -> (i: int)
    requires
        crate::pattern::first_bad(ps) is Some,
    ensures
        0 <= i < ps.len(),
        compiled(ps[i]) == Err::<regex::Regex, regex::Error>(crate::pattern::first_bad(ps)->0),
        forall|j: int| 0 <= j < i ==> compiled(#[trigger] ps[j]) is Ok,
    decreases ps.len(),
{
    if compiled(ps[0]) is Err {
        0
    } else {
        let rest = ps.drop_first();
        let k = bad_one(rest);
        assert forall|j: int| 0 <= j < k + 1 implies compiled(#[trigger] ps[j]) is Ok by {
            if j > 0 {
                assert(rest[j - 1] == ps[j]);
            }
        }
        k + 1
    }
}

/// What cannot be used is not saved, and what can be is.
pub proof fn save_takes_what_is_sound(
    cfg: &Config,
    path: &str,
    res: Result<crate::replace::SideFiles, ConfigError>,
)
    requires
        call_ensures(Config::save, (cfg, path), res),
    ensures
        res is Ok <==> cfg.min_length <= cfg.max_length && forall|i: int|
            0 <= i < cfg.deny_patterns@.len() ==> compiled((#[trigger] cfg.deny_patterns@[i])@) is Ok,
{
    patterns_by_fields(*cfg);
}

/// The directory given comes first, unless it is empty, then the platform's.
pub proof fn data_dir_is_the_first_given(
    home: Option<String>,
    platform: Option<String>,
    out: String,
)
    requires
        call_ensures(Config::data_dir, (home, platform), out),
    ensures
        home matches Some(h) ==> (h@.len() > 0 ==> out@ == h@),
        (home matches Some(h) ==> h@.len() == 0) && platform is Some ==> out@ == platform->0@,
        (home matches Some(h) ==> h@.len() == 0) && platform is None ==> out@ == ".clipcrate"@,
{
}

/// The configured limits are used as they are, and the defaults where none could be
/// read.
pub proof fn limits_are_the_configured(cfg: &Config, kept: usize, lines: usize)
    requires
        call_ensures(retention_limit, (Some(cfg),), kept),
        call_ensures(preview_room, (Some(cfg),), lines),
    ensures
        kept == cfg.max_entries,
        lines == cfg.preview_lines,
{
}

/// A polling interval is never below 50 milliseconds, and is otherwise as given.
pub proof fn interval_is_as_given(ms: u64, out: u64)
    requires
        call_ensures(clamp_poll, (ms,), out),
    ensures
        out >= 50,
        ms >= 50 ==> out == ms,
        ms < 50 ==> out == 50,
{
}

/// A watcher told how often to poll polls so, and is otherwise configured as before.
pub proof fn watch_polls_as_told(cfg: Config, ms: Option<u64>, out: Config)
    requires
        call_ensures(watch_config, (cfg, ms), out),
    ensures
        ms matches Some(p) ==> out.poll_ms == if p < 50 {
            50
        } else {
            p
        },
        ms is None ==> out.poll_ms == cfg.poll_ms,
        (ConfigView { poll_ms: cfg.poll_ms, ..out@ }) == cfg@,
{
}

// ---------------------------------------------------------------------------
// Doctor

/// The doctor is content exactly where the clipboard, the history and the
/// configuration are sound, and counts what is not.
pub proof fn doctor_tells_what_is_wrong(
    f: &Findings,
    out: (Vec<String>, Result<String, String>),
)
    requires
        call_ensures(Findings::report, (f,), out),
    ensures
        out.1 is Ok <==> f.clipboard is None && f.store is Ok && f.config is Sound,
        out.1 matches Err(m) ==> {
            let n = (if f.clipboard is Some {
                1nat
            } else {
                0nat
            }) + (if f.store is Err {
                1nat
            } else {
                0nat
            }) + (if f.config is Sound {
                0nat
            } else {
                1nat
            });
            m@ == decimal(n) + " check(s) failed"@
        },
        out.0@.len() == 6,
        f.store matches Ok(n) ==> out.0@[3]@ == "  store    : OK ("@ + decimal(n as nat)
            + " entries, "@ + f.data_dir@ + ")"@,
        f.clipboard matches Some(e) ==> out.0@[2]@ == "  clipboard: FAIL ("@ + e@ + ")"@,
        f.store matches Err(e) ==> out.0@[3]@ == "  store    : FAIL ("@ + e@ + ")"@,
{
    let ls = views(out.0@);
    assert(ls.len() == out.0@.len());
    assert(ls.len() == 6);
    assert(ls[3] == out.0@[3]@);
    assert(ls[2] == out.0@[2]@);
}

// ---------------------------------------------------------------------------
// Exporting

/// An export spares the history and the configuration, and nothing else.
pub proof fn export_spares_own_files(
    is_history: bool,
    is_config: bool,
    res: Result<(), String>,
)
    requires
        call_ensures(may_export_to, (is_history, is_config), res),
    ensures
        res is Err <==> is_history || is_config,
{
}

/// A payload is copied unless it is there already, and must be there to begin with.
pub proof fn export_copies_what_is_elsewhere(
    path: &str,
    is_file: bool,
    same_file: bool,
    res: Result<bool, String>,
)
    requires
        call_ensures(export_copies, (path, is_file, same_file), res),
    ensures
        res is Err <==> !is_file,
        res matches Ok(copy) ==> (copy <==> !same_file),
{
}

/// A line of a listing has the age in four columns and the size in nine between the pin
/// and the preview.
pub proof fn line_shows_age_and_size(
    e: &Entry,
    now: i64,
    line: String,
    age: String,
    size: String,
    head: String,
)
    requires
        call_ensures(list_line, (e, now), line),
        call_ensures(Entry::age, (e, now), age),
        call_ensures(Entry::human_size, (e,), size),
        call_ensures(Entry::preview, (e, 70), head),
    ensures
        exists|front: Seq<char>, back: Seq<char>|
            {
                &&& line@ == #[trigger] (front + " "@ + crate::text::padded(age@, 4) + " "@
                    + crate::text::padded(size@, 9) + "  "@ + back)
                &&& front.len() == if decimal(e.id as nat).len() < 6 {
                    8
                } else {
                    decimal(e.id as nat).len() + 2
                }
                &&& head@.is_prefix_of(back)
            },
{
    reveal_strlit(" ");
    reveal_strlit("*");
    reveal_strlit("  ");
    let front = crate::text::padded(decimal(e.id as nat), 6) + " "@ + (if e.pinned {
        "*"@
    } else {
        " "@
    });
    let back = e@.preview(70) + (if e@.is_multiline() {
        " ⏎"@
    } else {
        ""@
    });
    assert(line@ =~= front + " "@ + crate::text::padded(age@, 4) + " "@ + crate::text::padded(
        size@,
        9,
    ) + "  "@ + back);
    assert(back.take(head@.len() as int) =~= head@);
}

/// A plus sign and leading zeros do not change a number.
pub proof fn plus_and_zeros_do_not_count(s: Seq<char>, max: nat)
    requires
        s.len() > 0,
        forall|i: int| 0 <= i < s.len() ==> is_digit(#[trigger] s[i]),
    ensures
        number(seq!['+'] + s, max) == number(s, max),
        number(seq!['0'] + s, max) == number(s, max),
{
    assert(is_digit(s[0]));
    assert(crate::text::without_plus(s) == s);
    assert((seq!['+'] + s).drop_first() =~= s);
    let z = seq!['0'] + s;
    assert(crate::text::without_plus(z) == z);
    zero_in_front(s);
    assert(forall|i: int| 0 <= i < z.len() ==> is_digit(#[trigger] z[i]));
}

proof fn zero_in_front(s: Seq<char>)
    ensures
        crate::text::digits_value(seq!['0'] + s) == crate::text::digits_value(s),
    decreases s.len(),
{
    let z = seq!['0'] + s;
    if s.len() == 0 {
        assert(z.drop_last() =~= Seq::<char>::empty());
        assert(crate::text::digits_value(z.drop_last()) == 0);
        assert(crate::text::digits_value(s) == 0);
    } else {
        zero_in_front(s.drop_last());
        assert(z.drop_last() =~= seq!['0'] + s.drop_last());
    }
}

} // verus!
