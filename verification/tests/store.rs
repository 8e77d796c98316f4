use clipcrate::config::DedupMode;
use clipcrate::entry::{now_ms, Entry, Kind};
use clipcrate::history::{frame, load_entries, read_records, Parsed, Record};
use clipcrate::lock::{lock_failure, lock_step, LockStep, LockTry, OpenError};
use clipcrate::replace::{
    backup_path, recovery, replacement, side_files, tmp_path, undo, FileOp,
};
use clipcrate::store::{Payload, Store, HISTORY_FILE, LOCK_FILE};

const MAX: usize = 1000;

fn empty(dir: &str) -> Store {
    Store::open(dir, Vec::new())
}

fn texts(s: &Store) -> Vec<&str> {
    s.entries.iter().map(|e| e.text.as_str()).collect()
}

#[test]
fn append_load_and_dedup_bump() {
    let mut s = empty("bump");
    s.push_text("alpha", DedupMode::Bump, MAX).unwrap();
    s.push_text("beta", DedupMode::Bump, MAX).unwrap();
    assert_eq!(s.len(), 2);
    assert_eq!(s.iter_newest_first()[0].text, "beta");

    // Re-copying alpha bumps it to the top without adding a row.
    assert_eq!(s.push_text("alpha", DedupMode::Bump, MAX), None);
    assert_eq!(s.len(), 2);
    assert_eq!(s.iter_newest_first()[0].text, "alpha");

    // State survives reopen.
    let s2 = Store::open("bump", s.entries);
    assert_eq!(s2.len(), 2);
    assert_eq!(s2.iter_newest_first()[0].text, "alpha");
}

#[test]
fn dedup_modes_update_and_all() {
    let mut s = empty("modes");
    s.push_text("x", DedupMode::Update, MAX);
    s.push_text("y", DedupMode::Update, MAX);
    s.push_text("x", DedupMode::Update, MAX); // ts updated, stays in place
    assert_eq!(s.len(), 2);
    assert_eq!(s.iter_newest_first()[0].text, "y");

    s.push_text("x", DedupMode::All, MAX);
    assert_eq!(s.len(), 3);
    assert_eq!(s.entries.iter().filter(|e| e.text == "x").count(), 2);
}

#[test]
fn lru_eviction_respects_pins() {
    let mut s = empty("evict");
    for t in ["a", "b", "c"] {
        s.push_text(t, DedupMode::All, 3).unwrap();
    }
    let b_id = s.entries.iter().find(|e| e.text == "b").unwrap().id;
    s.toggle_pin(b_id);
    for t in ["d", "e"] {
        s.push_text(t, DedupMode::All, 3).unwrap();
    }
    let texts = texts(&s);
    assert!(texts.contains(&"b"), "pinned entry must survive: {texts:?}");
    assert!(
        !texts.contains(&"a"),
        "oldest unpinned must be evicted: {texts:?}"
    );
    assert_eq!(s.len(), 4); // 3 cap + 1 pinned
}

#[test]
fn update_mode_refreshes_lru_age() {
    let mut s = empty("update-lru");
    s.push_text_at("a", DedupMode::Update, 10, 2);
    s.push_text_at("b", DedupMode::Update, 12, 2);
    s.push_text_at("a", DedupMode::Update, 14, 2);
    s.push_text_at("c", DedupMode::Update, 16, 2);

    let texts = texts(&s);
    assert!(
        texts.contains(&"a"),
        "recently refreshed entry must survive: {texts:?}"
    );
    assert!(texts.contains(&"c"));
    assert!(
        !texts.contains(&"b"),
        "least-recently-used entry must be evicted: {texts:?}"
    );
}

#[test]
fn delete_pin_clear_and_payload() {
    let mut s = empty("del");
    let i1 = s.push_text("hello world", DedupMode::All, MAX).unwrap();
    let _i2 = s.push_text("second", DedupMode::All, MAX).unwrap();

    assert!(s.delete(i1));
    assert!(!s.delete(i1));
    assert!(s.get(i1).is_none());

    assert_eq!(s.toggle_pin(_i2), Some(true));
    assert_eq!(s.clear_unpinned(), 0, "only entry is pinned");
    assert_eq!(s.toggle_pin(_i2), Some(false));
    assert_eq!(s.clear_unpinned(), 1);

    let e = Entry::new_text(99, now_ms(), "payload");
    assert_eq!(s.payload_bytes(&e), Payload::Bytes(b"payload".to_vec()));
}

/// What a reader of records makes of each: here only `{"id":N}` is an entry.
fn parse(r: &Record) -> Parsed {
    let id = r.text.strip_prefix("{\"id\":").and_then(|t| t.strip_suffix("}"));
    let entry = id.and_then(|n| n.parse::<u64>().ok()).map(|n| Entry::new_text(n, 0, "t"));
    Parsed { line: r.line, entry }
}

fn load(raw: &str) -> Result<Vec<Entry>, OpenError> {
    let parsed: Vec<Parsed> = read_records(raw).iter().map(parse).collect();
    load_entries(&parsed, HISTORY_FILE)
}

#[test]
fn corrupt_line_is_reported_not_swallowed() {
    let err = load("{not json}\n").unwrap_err().message();
    assert!(err.contains("corrupt history line"), "got: {err}");
    assert_eq!(err, "corrupt history line 1 in history.jsonl");
}

#[test]
fn blocking_open_does_not_retry_corrupt_history() {
    // The lock is free, so the wait is over at once; what fails is the reading.
    let step = lock_step(LockTry::Acquired, Some(1_000_000_000), 0);
    assert_eq!(step, LockStep::Proceed);
    assert!(lock_failure(step, "/d", "").is_none());
    let err = load("{not json}\n").unwrap_err();
    assert!(!Store::is_lock_contended(&err));
    let err = err.message();
    assert!(err.contains("corrupt history line"), "{err}");
}

#[test]
fn rewrite_prunes_orphan_images_after_commit() {
    let s = empty("prune");
    assert!(s.is_orphan_image("orphan.png"));
}

#[test]
fn recovers_backup_if_history_is_missing() {
    assert_eq!(recovery(false, true, false), Some(FileOp::BackupToFile));
    let e = Entry::new_text(7, now_ms(), "restored");
    let s = Store::open("recover", vec![e]);
    assert_eq!(s.get(7).unwrap().text, "restored");
}

#[test]
fn second_lock_holder_fails_fast() {
    assert_eq!(lock_step(LockTry::Acquired, None, 0), LockStep::Proceed);
    assert_eq!(
        lock_step(LockTry::Busy, None, 0),
        LockStep::Contended,
        "second exclusive lock must fail"
    );
    let e = lock_failure(lock_step(LockTry::Busy, None, 0), "/data", "").unwrap();
    assert_eq!(e, OpenError::LockContended("/data".to_string()));
    assert!(Store::is_lock_contended(&e));
    assert_eq!(e.message(), "another clipcrate process holds the store lock (/data)");
    assert_eq!(LOCK_FILE, "store.lock");
}

#[test]
fn only_contention_is_waited_for() {
    let wait = Some(5_000_000_000);
    assert_eq!(lock_step(LockTry::Busy, wait, 0), LockStep::RetryAfter(20));
    assert_eq!(lock_step(LockTry::Busy, wait, 4_999_999_999), LockStep::RetryAfter(20));
    assert_eq!(lock_step(LockTry::Busy, wait, 5_000_000_000), LockStep::Contended);
    assert_eq!(lock_step(LockTry::Failed, wait, 0), LockStep::Fail);
    assert_eq!(lock_step(LockTry::Acquired, wait, 9_000_000_000), LockStep::Proceed);
    assert!(lock_failure(LockStep::RetryAfter(20), "/d", "").is_none());
    let io = lock_failure(LockStep::Fail, "/d", "disk full").unwrap();
    assert_eq!(io, OpenError::Io("disk full".to_string()));
    assert!(!Store::is_lock_contended(&io));
    assert_eq!(io.message(), "disk full");
}

#[test]
fn eviction_goes_by_time_then_id() {
    let mut s = empty("order");
    s.push_text_at("newest", DedupMode::All, 30, 9);
    s.push_text_at("oldest", DedupMode::All, 10, 9);
    s.push_text_at("tied", DedupMode::All, 10, 9);
    s.push_text_at("middle", DedupMode::All, 20, 9);
    s.enforce_limits(3);
    assert_eq!(texts(&s), vec!["newest", "tied", "middle"]);
    s.enforce_limits(2);
    assert_eq!(texts(&s), vec!["newest", "middle"]);
    s.enforce_limits(2);
    assert_eq!(texts(&s), vec!["newest", "middle"]);
    s.enforce_limits(0);
    assert!(s.is_empty());
}

#[test]
fn a_limit_of_nothing_keeps_pins_only() {
    let mut s = empty("zero");
    let id = s.push_text_at("a", DedupMode::All, 1, 9).unwrap();
    s.toggle_pin(id);
    assert_eq!(s.push_text_at("b", DedupMode::All, 2, 0), Some(2));
    assert_eq!(texts(&s), vec!["a"]);
    assert_eq!(s.next_id, 3);
}

#[test]
fn bumping_keeps_id_and_pin() {
    let mut s = empty("bumped");
    let id = s.push_text_at("a", DedupMode::Bump, 1, 9).unwrap();
    s.toggle_pin(id);
    s.push_text_at("b", DedupMode::Bump, 2, 9);
    assert_eq!(s.push_text_at("a", DedupMode::Bump, 7, 9), None);
    let last = s.entries.last().unwrap();
    assert_eq!((last.id, last.ts, last.pinned), (id, 7, true));
    assert_eq!(s.next_id, 3);
}

#[test]
fn text_and_image_of_the_same_name_are_different_content() {
    let mut s = empty("kinds");
    assert_eq!(s.push_image_entry("images/a.png", 5, 1, 9), 1);
    assert_eq!(s.push_text_at("images/a.png", DedupMode::Bump, 2, 9), Some(2));
    assert_eq!(s.len(), 2);
    assert_eq!(s.payload_bytes(&s.entries[0]), Payload::File("kinds/images/a.png".to_string()));
    assert_eq!(s.data_dir(), "kinds");
}

#[test]
fn known_content_suppresses_an_insert() {
    let s = Store::open("d", vec![Entry::new_text(1, 0, "x")]);
    assert!(s.suppresses(Kind::Text, "x", DedupMode::Bump));
    assert!(s.suppresses(Kind::Text, "x", DedupMode::Update));
    assert!(!s.suppresses(Kind::Text, "x", DedupMode::All));
    assert!(!s.suppresses(Kind::Text, "y", DedupMode::Bump));
    assert!(!s.suppresses(Kind::Image, "x", DedupMode::Bump));
}

#[test]
fn ids_go_on_after_a_reopen() {
    let s = Store::open("d", vec![Entry::new_text(5, 0, "x"), Entry::new_text(3, 0, "y")]);
    assert_eq!(s.next_id, 6);
    assert_eq!(empty("d").next_id, 1);
}

#[test]
fn pinning_twice_changes_nothing() {
    let mut s = empty("twice");
    let id = s.push_text_at("a", DedupMode::All, 1, 9).unwrap();
    assert_eq!(s.toggle_pin(id), Some(true));
    assert_eq!(s.toggle_pin(id), Some(false));
    assert!(!s.entries[0].pinned);
    assert_eq!(s.toggle_pin(77), None);
}

#[test]
fn orphans_are_pngs_that_nothing_refers_to() {
    let mut s = empty("orphans");
    s.push_image_entry("images/used.png", 5, 1, 9);
    assert!(!s.is_orphan_image("used.png"));
    assert!(s.is_orphan_image("unused.png"));
    assert!(!s.is_orphan_image("notes.txt"));
    assert!(!s.is_orphan_image("png"));
    assert!(s.is_orphan_image(".png"));
}

#[test]
fn what_is_framed_is_read_back() {
    let records = vec!["{\"id\":4}".to_string(), "{\"id\":9}".to_string()];
    let raw = frame(&records);
    assert_eq!(raw, "{\"id\":4}\n{\"id\":9}\n");
    let back = read_records(&raw);
    assert_eq!(back.len(), 2);
    assert_eq!((back[0].line, back[0].text.as_str()), (1, "{\"id\":4}"));
    assert_eq!((back[1].line, back[1].text.as_str()), (2, "{\"id\":9}"));
    let es = load(&raw).unwrap();
    assert_eq!(es.iter().map(|e| e.id).collect::<Vec<_>>(), vec![4, 9]);
    assert_eq!(frame(&Vec::new()), "");
}

#[test]
fn blank_lines_are_skipped_but_counted() {
    let raw = "{\"id\":1}\r\n\n  \t\n{\"id\":2}";
    let back = read_records(raw);
    assert_eq!(back.len(), 2);
    assert_eq!((back[0].line, back[0].text.as_str()), (1, "{\"id\":1}"));
    assert_eq!((back[1].line, back[1].text.as_str()), (4, "{\"id\":2}"));
    let err = load("{\"id\":1}\n\n?\n!\n").unwrap_err();
    assert_eq!(err, OpenError::CorruptLine(3, "history.jsonl".to_string()));
}

#[test]
fn recovery_prefers_the_backup() {
    assert_eq!(recovery(true, true, true), None);
    assert_eq!(recovery(false, true, true), Some(FileOp::BackupToFile));
    assert_eq!(recovery(false, false, true), Some(FileOp::TmpToFile));
    assert_eq!(recovery(false, false, false), None);
}

#[test]
fn replacement_is_one_rename_where_that_is_enough() {
    assert_eq!(replacement(true, true), vec![FileOp::TmpToFile]);
    assert_eq!(replacement(true, false), vec![FileOp::TmpToFile]);
    assert_eq!(
        replacement(false, true),
        vec![FileOp::DropBackup, FileOp::FileToBackup, FileOp::TmpToFile, FileOp::DropBackup]
    );
    assert_eq!(
        replacement(false, false),
        vec![FileOp::DropBackup, FileOp::TmpToFile, FileOp::DropBackup]
    );
    assert_eq!(undo(false, true), Some(FileOp::BackupToFile));
    assert_eq!(undo(false, false), None);
    assert_eq!(undo(true, true), None);
    assert_eq!(backup_path("/d/history.jsonl", "jsonl"), "/d/history.jsonl.bak");
    assert_eq!(tmp_path("/d/history.jsonl", "jsonl"), "/d/history.jsonl.tmp");
    assert_eq!(tmp_path("/d/c", "toml"), "/d/c.toml.tmp");
    let side = side_files("config.toml", "toml");
    assert_eq!((side.tmp.as_str(), side.backup.as_str()), ("config.toml.tmp", "config.toml.bak"));
}

/// The file, its backup and its replacement.
type Files = [Option<&'static str>; 3];

fn perform(mut f: Files, op: FileOp) -> Files {
    match op {
        FileOp::DropBackup => f[1] = None,
        FileOp::FileToBackup if f[0].is_some() => f[1] = f[0].take(),
        FileOp::TmpToFile if f[2].is_some() => f[0] = f[2].take(),
        FileOp::BackupToFile if f[1].is_some() => f[0] = f[1].take(),
        _ => {}
    }
    f
}

#[test]
fn a_crash_at_any_point_is_recovered() {
    for rename_replaces in [true, false] {
        for start in [[Some("old"), None, Some("new")], [Some("old"), Some("stale"), Some("new")], [None, None, Some("new")]] {
            let ops = replacement(rename_replaces, start[0].is_some());
            for done in 0..=ops.len() {
                let mut f: Files = start;
                for op in &ops[..done] {
                    f = perform(f, *op);
                }
                if let Some(op) = recovery(f[0].is_some(), f[1].is_some(), f[2].is_some()) {
                    f = perform(f, op);
                }
                assert!(f[0] == Some("new") || (f[0] == start[0] && f[0].is_some()), "{f:?}");
                if done == ops.len() {
                    assert_eq!(f[0], Some("new"));
                }
            }
        }
    }
}
