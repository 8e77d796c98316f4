//! What the commands decide and print.

use crate::config::{clamp_poll, poll_at_least, Config, ConfigError, ConfigView};
use crate::entry::{Entry, EntryView, Kind};
use crate::filter::{accepted, Filter};
use crate::pattern::first_bad;
use crate::store::{first_with_id, unpinned_count, Store};
use crate::text::{
    decimal, decimal_of, number, pad_left, padded, parse_number, push_decimal, same, views,
};
use vstd::prelude::*;

verus! {

// ---------------------------------------------------------------------------
// Naming entries

/// Why no entry could be found.
#[derive(Debug, PartialEq, Eq, Clone, Copy, Structural)]
pub enum IdError {
    /// There is no newest entry.
    Empty,
    NotANumber,
    NoEntry(u64),
}

/// The failure in words.
pub open spec fn id_error_message(e: IdError) -> Seq<char> {
    match e {
        IdError::Empty => "history is empty"@,
        IdError::NotANumber => "id must be a number or '-'"@,
        IdError::NoEntry(n) => "no entry #"@ + decimal(n as nat),
    }
}

impl IdError {
    /// The failure in words.
    pub fn message(&self) -> (out: String)
        ensures
            out@ == id_error_message(*self),
    {
        match self {
            IdError::Empty => "history is empty".to_owned(),
            IdError::NotANumber => "id must be a number or '-'".to_owned(),
            IdError::NoEntry(n) => "no entry #".to_owned().concat(decimal_of(*n).as_str()),
        }
    }
}

/// The entry that has an id.
pub open spec fn entry_with(es: Seq<EntryView>, id: u64) -> Result<EntryView, IdError> {
    match first_with_id(es, id) {
        Some(i) => Ok(es[i]),
        None => Err(IdError::NoEntry(id)),
    }
}

/// The entry that a word names: `-` is the newest, anything else is an id.
pub open spec fn entry_named(es: Seq<EntryView>, word: Seq<char>) -> Result<EntryView, IdError> {
    if word == "-"@ {
        if es.len() == 0 {
            Err(IdError::Empty)
        } else {
            Ok(es.last())
        }
    } else {
        match number(word, u64::MAX as nat) {
            Some(n) => entry_with(es, n as u64),
            None => Err(IdError::NotANumber),
        }
    }
}

/// Find the entry that has an id.
pub fn find_id(s: &Store, id: u64) -> (res: Result<&Entry, IdError>)
    ensures
        match (entry_with(s@.entries, id), res) {
            (Ok(want), Ok(e)) => e@ == want,
            (Err(why), Err(e)) => e == why,
            _ => false,
        },
{
    match s.get(id) {
        Some(e) => Ok(e),
        None => Err(IdError::NoEntry(id)),
    }
}

/// Find the entry that a word names.
pub fn resolve_id<'a>(s: &'a Store, id: &str) -> (res: Result<&'a Entry, IdError>)
    ensures
        match (entry_named(s@.entries, id@), res) {
            (Ok(want), Ok(e)) => e@ == want,
            (Err(why), Err(e)) => e == why,
            _ => false,
        },
{
    if same(id, "-") {
        let n: usize = s.entries.len();
        if n == 0 {
            return Err(IdError::Empty);
        }
        assert(s@.entries.last() == s.entries@[n - 1]@);
        return Ok(&s.entries[n - 1]);
    }
    match parse_number(id, u64::MAX) {
        Some(n) => find_id(s, n),
        None => Err(IdError::NotANumber),
    }
}

/// An id as it is printed names its entry.
pub proof fn printed_id_resolves(es: Seq<EntryView>, id: u64)
    ensures
        entry_named(es, decimal(id as nat)) == entry_with(es, id),
{
    reveal_strlit("-");
    crate::text::decimal_reads_back(id as nat, u64::MAX as nat);
    crate::text::decimal_digits(id as nat);
    if decimal(id as nat) == "-"@ {
        assert(decimal(id as nat)[0] == '-');
    }
}

// ---------------------------------------------------------------------------
// Listing

/// How many entries a listing shows.
pub open spec fn listed_count(len: nat, limit: nat) -> nat {
    if limit < len {
        limit
    } else {
        len
    }
}

/// The entries that a listing shows, newest first.
pub fn listed(s: &Store, limit: usize) -> (out: Vec<&Entry>)
    ensures
        out@.len() == listed_count(s@.entries.len(), limit as nat),
        forall|i: int|
            0 <= i < out@.len() ==> (#[trigger] out@[i])@ == s@.entries[s@.entries.len() - 1 - i],
{
    let mut out: Vec<&Entry> = Vec::new();
    let n: usize = s.entries.len();
    let mut i: usize = 0;
    while i < n && i < limit
        invariant
            n == s.entries@.len(),
            i <= n,
            i <= limit,
            out@.len() == i,
            forall|k: int| 0 <= k < i ==> (#[trigger] out@[k])@ == s@.entries[n - 1 - k],
        decreases n - i,
    {
        out.push(&s.entries[n - 1 - i]);
        i = i + 1;
    }
    out
}

/// An entry on one line of a listing: id, pin, age, size, preview.
pub open spec fn line_of(e: EntryView, now: i64) -> Seq<char> {
    padded(decimal(e.id as nat), 6) + " "@ + (if e.pinned {
        "*"@
    } else {
        " "@
    }) + " "@ + padded(e.age(now), 4) + " "@ + padded(e.human_size(), 9) + "  "@ + e.preview(70)
        + (if e.is_multiline() {
        " ⏎"@
    } else {
        ""@
    })
}

/// An entry on one line of a listing.
pub fn list_line(e: &Entry, now: i64) -> (out: String)
    requires
        i64::MIN <= now - e.ts <= i64::MAX,
    ensures
        out@ == line_of(e@, now),
{
    let mut out: String = pad_left(decimal_of(e.id).as_str(), 6);
    out.append(" ");
    if e.pinned {
        out.append("*");
    } else {
        out.append(" ");
    }
    out.append(" ");
    out.append(pad_left(e.age(now).as_str(), 4).as_str());
    out.append(" ");
    out.append(pad_left(e.human_size().as_str(), 9).as_str());
    out.append("  ");
    out.append(e.preview(70).as_str());
    if e.is_multiline() {
        out.append(" ⏎");
    } else {
        out.append("");
    }
    out
}

// ---------------------------------------------------------------------------
// Adding

/// Where the text to add comes from.
#[derive(Debug, PartialEq, Eq)]
pub enum AddSource {
    Text(String),
    File(String),
    Stdin,
}

/// Why a text was not added.
#[derive(Debug)]
pub enum AddError {
    /// Both a text and a file were given.
    TwoSources,
    /// The capture rules keep it out.
    Rejected,
    Config(ConfigError),
}

/// Where the text to add comes from, given what was said.
pub fn add_source(text: Option<String>, file: Option<String>) -> (res: Result<AddSource, AddError>)
    ensures
        match (text, file) {
            (Some(t), None) => res == Ok::<AddSource, AddError>(AddSource::Text(t)),
            (None, Some(f)) => res == Ok::<AddSource, AddError>(AddSource::File(f)),
            (None, None) => res == Ok::<AddSource, AddError>(AddSource::Stdin),
            (Some(_), Some(_)) => res == Err::<AddSource, AddError>(AddError::TwoSources),
        },
{
    match text {
        Some(t) => match file {
            Some(_) => Err(AddError::TwoSources),
            None => Ok(AddSource::Text(t)),
        },
        None => match file {
            Some(f) => Ok(AddSource::File(f)),
            None => Ok(AddSource::Stdin),
        },
    }
}

/// Whether a text may be added, given whether the capture rules accept it.
pub fn admission(accepted_by_rules: bool) -> (res: Result<(), AddError>)
    ensures
        res == if accepted_by_rules {
            Ok::<(), AddError>(())
        } else {
            Err(AddError::Rejected)
        },
{
    if accepted_by_rules {
        Ok(())
    } else {
        Err(AddError::Rejected)
    }
}

/// Whether a text may be added under a configuration.
pub fn check_addable(cfg: &Config, payload: &str) -> (res: Result<(), AddError>)
    ensures
        match first_bad(cfg@.deny_patterns) {
            Some(why) => res == Err::<(), AddError>(AddError::Config(ConfigError::BadPattern(why))),
            None => res == if accepted(cfg@, payload@) {
                Ok::<(), AddError>(())
            } else {
                Err(AddError::Rejected)
            },
        },
{
    match Filter::new(cfg) {
        Err(e) => Err(AddError::Config(e)),
        Ok(f) => match f.accepts(payload) {
            Ok(b) => admission(b),
            Err(e) => Err(AddError::Config(e)),
        },
    }
}

impl AddError {
    /// The failure in words; `None` where it is for the configuration to say.
    pub fn message(&self) -> (out: Option<String>)
        ensures
            match (*self, out) {
                (AddError::TwoSources, Some(m)) => m@ == "pass either TEXT or --file, not both"@,
                (AddError::Rejected, Some(m)) => m@
                    == "content rejected by current filters (length bounds or deny pattern)"@,
                (AddError::Config(_), None) => true,
                _ => false,
            },
    {
        match self {
            AddError::TwoSources => Some("pass either TEXT or --file, not both".to_owned()),
            AddError::Rejected => Some(
                "content rejected by current filters (length bounds or deny pattern)".to_owned(),
            ),
            AddError::Config(_) => None,
        }
    }
}

/// What is printed once a text was added, or found in the history.
pub fn add_message(id: Option<u64>) -> (out: String)
    ensures
        out@ == (match id {
            Some(n) => decimal(n as nat),
            None => "already in history"@,
        }),
{
    match id {
        Some(n) => decimal_of(n),
        None => "already in history".to_owned(),
    }
}

// ---------------------------------------------------------------------------
// Picking

/// Whether there is anything to pick from: an empty history is refused before the
/// picker opens.
pub fn may_pick(s: &Store) -> (res: Result<(), String>)
    ensures
        match res {
            Ok(()) => s@.entries.len() > 0,
            Err(m) => s@.entries.len() == 0 && m@
                == "history is empty — copy something while `clipcrate watch` runs"@,
        },
{
    if s.is_empty() {
        Err("history is empty — copy something while `clipcrate watch` runs".to_owned())
    } else {
        Ok(())
    }
}

/// What becomes of the entry that was picked.
#[derive(Debug, PartialEq, Eq)]
pub enum Picked {
    /// Print this.
    Print(String),
    /// Put this text on the clipboard.
    CopyText(String),
    /// Put the image on the clipboard, then print this.
    CopyImage(String),
}

/// What becomes of the entry that was picked. A text is printed as it is, so that
/// a shell can use it, or goes to the clipboard where that was asked for; an
/// image always goes to the clipboard.
pub fn picked(e: &Entry, newline: bool, copy: bool) -> (out: Picked)
    ensures
        match (e.kind, out) {
            (Kind::Image, Picked::CopyImage(m)) => m@ == "copied image #"@ + decimal(e.id as nat)
                + " back to the clipboard"@,
            (Kind::Text, Picked::CopyText(t)) => copy && t@ == e@.text,
            (Kind::Text, Picked::Print(t)) => !copy && t@ == (if newline {
                e@.text.push('\n')
            } else {
                e@.text
            }),
            _ => false,
        },
{
    match e.kind {
        Kind::Image => Picked::CopyImage(
            "copied image #".to_owned().concat(decimal_of(e.id).as_str()).concat(
                " back to the clipboard",
            ),
        ),
        Kind::Text => if copy {
            Picked::CopyText(e.text.clone())
        } else {
            let mut t: String = e.text.clone();
            if newline {
                t.push('\n');
            }
            Picked::Print(t)
        },
    }
}

// ---------------------------------------------------------------------------
// Clearing and pinning

/// Why nothing was cleared.
#[derive(Debug, PartialEq, Eq, Clone, Copy, Structural)]
pub enum ClearError {
    NoEntry(u64),
    /// Nothing was named.
    NothingNamed,
}

impl ClearError {
    /// The failure in words.
    pub fn message(&self) -> (out: String)
        ensures
            out@ == (match self {
                ClearError::NoEntry(n) => id_error_message(IdError::NoEntry(*n)),
                ClearError::NothingNamed => "specify an id, --last, or --all"@,
            }),
    {
        match self {
            ClearError::NoEntry(n) => IdError::NoEntry(*n).message(),
            ClearError::NothingNamed => "specify an id, --last, or --all".to_owned(),
        }
    }
}

fn deleted_message(n: usize) -> (out: String)
    ensures
        out@ == "deleted "@ + decimal(n as nat),
{
    let mut out = "deleted ".to_owned();
    push_decimal(&mut out, n as u64);
    out
}

/// Delete entries: all that are not pinned, the newest, or the one with an id.
/// Says what is to be reported.
pub fn clear(s: &mut Store, id: Option<u64>, last: bool, all: bool) -> (res: Result<
    String,
    ClearError,
>)
    ensures
        ({
            let es = old(s)@.entries;
            if all {
                let n = unpinned_count(es);
                &&& final(s)@ == old(s)@.cleared()
                &&& res matches Ok(m) && m@ == (if n == 0 && es.len() > 0 {
                    "only pinned entries remain (unpin with `clipcrate pin <id>`)"@
                } else {
                    "deleted "@ + decimal(n)
                })
            } else if last {
                if es.len() == 0 {
                    &&& final(s)@ == old(s)@
                    &&& res matches Ok(m) && m@ == "deleted "@ + decimal(0)
                } else {
                    &&& final(s)@ == old(s)@.without(es.last().id)
                    &&& res matches Ok(m) && m@ == "deleted "@ + decimal(1)
                }
            } else {
                match id {
                    Some(n) => if first_with_id(es, n) is Some {
                        &&& final(s)@ == old(s)@.without(n)
                        &&& res matches Ok(m) && m@ == "deleted "@ + decimal(1)
                    } else {
                        &&& final(s)@ == old(s)@
                        &&& res == Err::<String, ClearError>(ClearError::NoEntry(n))
                    },
                    None => final(s)@ == old(s)@ && res == Err::<String, ClearError>(
                        ClearError::NothingNamed,
                    ),
                }
            }
        }),
{
    if all {
        proof {
            crate::laws::clearing_keeps_pins(old(s)@);
        }
        let n: usize = s.clear_unpinned();
        if n == 0 && !s.is_empty() {
            return Ok("only pinned entries remain (unpin with `clipcrate pin <id>`)".to_owned());
        }
        return Ok(deleted_message(n));
    }
    if last {
        let n: usize = s.entries.len();
        if n == 0 {
            return Ok(deleted_message(0));
        }
        assert(s@.entries.last() == s.entries@[n - 1]@);
        let id: u64 = s.entries[n - 1].id;
        s.delete(id);
        return Ok(deleted_message(1));
    }
    match id {
        Some(n) => {
            if s.get(n).is_none() {
                return Err(ClearError::NoEntry(n));
            }
            s.delete(n);
            Ok(deleted_message(1))
        },
        None => Err(ClearError::NothingNamed),
    }
}

/// Turn the pin of an entry over. Says what is to be reported.
pub fn pin(s: &mut Store, id: u64) -> (res: Result<String, IdError>)
    ensures
        final(s)@ == old(s)@.pin_toggled(id),
        match (entry_with(old(s)@.entries, id), res) {
            (Ok(e), Ok(m)) => m@ == (if e.pinned {
                "unpinned #"@
            } else {
                "pinned #"@
            }) + decimal(id as nat),
            (Err(why), Err(e)) => e == why,
            _ => false,
        },
{
    match s.toggle_pin(id) {
        Some(true) => Ok("pinned #".to_owned().concat(decimal_of(id).as_str())),
        Some(false) => Ok("unpinned #".to_owned().concat(decimal_of(id).as_str())),
        None => Err(IdError::NoEntry(id)),
    }
}

// ---------------------------------------------------------------------------
// Exporting

/// Whether an export may go to a file, given whether that file is the history or
/// the configuration itself.
pub fn may_export_to(is_history: bool, is_config: bool) -> (res: Result<(), String>)
    ensures
        match res {
            Ok(()) => !is_history && !is_config,
            Err(m) => (is_history || is_config) && m@
                == "refusing to overwrite clipcrate's internal data file"@,
        },
{
    if is_history || is_config {
        Err("refusing to overwrite clipcrate's internal data file".to_owned())
    } else {
        Ok(())
    }
}

/// Where the payloads of the images lie that some entries refer to.
pub open spec fn image_files(es: Seq<EntryView>, dir: Seq<char>) -> Seq<Seq<char>>
    decreases es.len(),
{
    if es.len() == 0 {
        seq![]
    } else {
        match es.last().payload_path(dir) {
            Some(p) => image_files(es.drop_last(), dir).push(p),
            None => image_files(es.drop_last(), dir),
        }
    }
}

/// The payload files that an export has to copy, in the order of the history.
pub fn payload_files(s: &Store) -> (out: Vec<String>)
    ensures
        views(out@) == image_files(s@.entries, s@.dir),
{
    let ghost v = s@.entries;
    let mut out: Vec<String> = Vec::new();
    let mut i: usize = 0;
    assert(v.take(0) =~= Seq::<EntryView>::empty());
    assert(views(out@) =~= image_files(v.take(0), s@.dir));
    while i < s.entries.len()
        invariant
            v == s@.entries,
            i <= s.entries@.len(),
            views(out@) == image_files(v.take(i as int), s@.dir),
        decreases s.entries@.len() - i,
    {
        let ghost before = views(out@);
        proof {
            assert(v.take(i + 1).drop_last() =~= v.take(i as int));
            assert(v.take(i + 1).last() == s.entries@[i as int]@);
        }
        match s.entries[i].payload_path(s.dir.as_str()) {
            Some(p) => {
                out.push(p);
                assert(views(out@) =~= before.push(p@));
            },
            None => {},
        }
        i = i + 1;
    }
    assert(v.take(i as int) =~= v);
    out
}

/// Whether an export copies a payload file, given whether it is there and whether
/// it is the very file it would be copied to. A payload that is missing ends the
/// export.
pub fn export_copies(path: &str, is_file: bool, same_file: bool) -> (res: Result<bool, String>)
    ensures
        match res {
            Ok(copy) => is_file && copy == !same_file,
            Err(m) => !is_file && m@ == "missing image payload "@ + path@,
        },
{
    if !is_file {
        Err("missing image payload ".to_owned().concat(path))
    } else {
        Ok(!same_file)
    }
}

/// What is printed once a history was exported.
pub fn export_message(count: usize, path: &str) -> (out: String)
    ensures
        out@ == "exported "@ + decimal(count as nat) + " entries (+ images/ if present) → "@ + path@,
{
    let mut out = "exported ".to_owned();
    push_decimal(&mut out, count as u64);
    out.append(" entries (+ images/ if present) → ");
    out.append(path);
    out
}

// ---------------------------------------------------------------------------
// Settings

/// What is printed once a setting was changed.
pub fn set_message(key: &str) -> (out: String)
    ensures
        out@ == key@ + " updated"@,
{
    key.to_owned().concat(" updated")
}

/// Whether a change of a setting can put entries beyond the limit.
pub fn affects_retention(key: &str) -> (res: bool)
    ensures
        res == (key@ == "max_entries"@),
{
    same(key, "max_entries")
}

/// What is printed once a deny pattern was added, or found there.
pub fn deny_message(added: bool, pattern: &str) -> (out: String)
    ensures
        out@ == if added {
            "deny pattern added: "@ + pattern@
        } else {
            "pattern already present"@
        },
{
    if added {
        "deny pattern added: ".to_owned().concat(pattern)
    } else {
        "pattern already present".to_owned()
    }
}

/// How many entries are kept, given the configuration in force, if one could be
/// read.
pub fn retention_limit(cfg: Option<&Config>) -> (n: usize)
    ensures
        n == (match cfg {
            Some(c) => c.max_entries,
            None => 1000,
        }),
{
    match cfg {
        Some(c) => c.max_entries,
        None => 1000,
    }
}

/// How many lines the preview pane has, given the configuration in force, if one
/// could be read.
pub fn preview_room(cfg: Option<&Config>) -> (n: usize)
    ensures
        n == (match cfg {
            Some(c) => c.preview_lines,
            None => 8,
        }),
{
    match cfg {
        Some(c) => c.preview_lines,
        None => 8,
    }
}

/// The configuration of a watcher that was told how often to poll.
pub fn watch_config(cfg: Config, poll_ms: Option<u64>) -> (out: Config)
    ensures
        out@ == (match poll_ms {
            Some(p) => ConfigView { poll_ms: poll_at_least(p), ..cfg@ },
            None => cfg@,
        }),
{
    let mut out = cfg;
    match poll_ms {
        Some(p) => {
            out.poll_ms = clamp_poll(p);
        },
        None => {},
    }
    out
}

/// What a watcher prints at its start.
pub fn watch_banner(poll_ms: u64, data_dir: &str) -> (out: String)
    ensures
        out@ == "clipcrate watching (poll="@ + decimal(poll_ms as nat) + "ms, data="@ + data_dir@
            + ") — Ctrl+C to stop"@,
{
    let mut out = "clipcrate watching (poll=".to_owned();
    push_decimal(&mut out, poll_ms);
    out.append("ms, data=");
    out.append(data_dir);
    out.append(") — Ctrl+C to stop");
    out
}

// ---------------------------------------------------------------------------
// Doctor

/// The state of the configuration.
pub enum ConfigHealth {
    Sound,
    /// Its deny patterns do not compile, in words.
    Invalid(String),
    /// It cannot be read, in words.
    Unreadable(String),
}

/// What a health check found.
pub struct Findings {
    pub version: String,
    /// What is wrong with the clipboard, if anything is.
    pub clipboard: Option<String>,
    /// How many entries the history has, or why it cannot be opened.
    pub store: Result<usize, String>,
    pub data_dir: String,
    pub config: ConfigHealth,
    pub config_path: String,
    pub service_installed: bool,
}

impl Findings {
    /// How many checks failed.
    pub open spec fn problems(self) -> nat {
        (if self.clipboard is Some {
            1nat
        } else {
            0
        }) + (if self.store is Err {
            1nat
        } else {
            0
        }) + (if self.config is Sound {
            0nat
        } else {
            1
        })
    }

    /// The report, line by line.
    pub open spec fn lines(self) -> Seq<Seq<char>> {
        seq![
            "clipcrate doctor"@,
            "  version  : "@ + self.version@,
            match self.clipboard {
                None => "  clipboard: OK"@,
                Some(e) => "  clipboard: FAIL ("@ + e@ + ")"@,
            },
            match self.store {
                Ok(n) => "  store    : OK ("@ + decimal(n as nat) + " entries, "@ + self.data_dir@
                    + ")"@,
                Err(e) => "  store    : FAIL ("@ + e@ + ")"@,
            },
            match self.config {
                ConfigHealth::Sound => "  config   : OK ("@ + self.config_path@ + ")"@,
                ConfigHealth::Invalid(e) => "  config   : INVALID ("@ + e@ + ")"@,
                ConfigHealth::Unreadable(e) => "  config   : UNREADABLE ("@ + e@ + ")"@,
            },
            if self.service_installed {
                "  service  : installed"@
            } else {
                "  service  : not installed (run `clipcrate install-service`)"@
            },
        ]
    }

    /// Report what was found, line by line, and how it ends: all is well, or so
    /// many checks failed.
    pub fn report(&self) -> (out: (Vec<String>, Result<String, String>))
        ensures
            views(out.0@) == self.lines(),
            match out.1 {
                Ok(m) => self.problems() == 0 && m@ == "all checks passed"@,
                Err(m) => self.problems() > 0 && m@ == decimal(self.problems())
                    + " check(s) failed"@,
            },
    {
        let mut problems: u64 = 0;
        let version: String = "  version  : ".to_owned().concat(self.version.as_str());
        let clipboard: String = match &self.clipboard {
            None => "  clipboard: OK".to_owned(),
            Some(e) => {
                problems = problems + 1;
                "  clipboard: FAIL (".to_owned().concat(e.as_str()).concat(")")
            },
        };
        let store: String = match &self.store {
            Ok(n) => "  store    : OK (".to_owned().concat(decimal_of(*n as u64).as_str()).concat(
                " entries, ",
            ).concat(self.data_dir.as_str()).concat(")"),
            Err(e) => {
                problems = problems + 1;
                "  store    : FAIL (".to_owned().concat(e.as_str()).concat(")")
            },
        };
        let config: String = match &self.config {
            ConfigHealth::Sound => "  config   : OK (".to_owned().concat(
                self.config_path.as_str(),
            ).concat(")"),
            ConfigHealth::Invalid(e) => {
                problems = problems + 1;
                "  config   : INVALID (".to_owned().concat(e.as_str()).concat(")")
            },
            ConfigHealth::Unreadable(e) => {
                problems = problems + 1;
                "  config   : UNREADABLE (".to_owned().concat(e.as_str()).concat(")")
            },
        };
        let service: String = if self.service_installed {
            "  service  : installed".to_owned()
        } else {
            "  service  : not installed (run `clipcrate install-service`)".to_owned()
        };
        let mut out: Vec<String> = Vec::new();
        out.push("clipcrate doctor".to_owned());
        out.push(version);
        out.push(clipboard);
        out.push(store);
        out.push(config);
        out.push(service);
        assert(views(out@) =~= self.lines());
        if problems > 0 {
            (out, Err(decimal_of(problems).concat(" check(s) failed")))
        } else {
            (out, Ok("all checks passed".to_owned()))
        }
    }
}

} // verus!
