use clipcrate::cli::{
    add_message, add_source, admission, affects_retention, check_addable, clear, deny_message,
    export_copies, export_message, find_id, list_line, listed, may_export_to, may_pick, payload_files, picked, pin,
    preview_room, resolve_id, retention_limit, set_message, watch_banner, watch_config, AddError,
    AddSource, ClearError, ConfigHealth, Findings, IdError, Picked,
};
use clipcrate::config::{apply_set, deny_add, Config};
use clipcrate::entry::Entry;
use clipcrate::history::Parsed;
use clipcrate::import::{
    check_payload, judge_payload, Import, ImportError, PayloadSource,
};
use clipcrate::store::{Payload, Store};

/// A history with the settings it lives under.
struct Ctx {
    store: Store,
    cfg: Config,
    clock: i64,
}

impl Ctx {
    fn new(tag: &str) -> Ctx {
        Ctx { store: Store::open(tag, Vec::new()), cfg: Config::default(), clock: 0 }
    }

    fn add(&mut self, text: &str) -> Result<String, AddError> {
        check_addable(&self.cfg, text)?;
        self.clock += 1;
        let max = retention_limit(Some(&self.cfg));
        Ok(add_message(self.store.push_text_at(text, self.cfg.dedup, self.clock, max)))
    }

    fn list(&self, limit: usize) -> String {
        listed(&self.store, limit)
            .iter()
            .map(|e| list_line(e, self.clock) + "\n")
            .collect()
    }

    fn get(&self, id: &str) -> Result<Vec<u8>, IdError> {
        match self.store.payload_bytes(resolve_id(&self.store, id)?) {
            Payload::Bytes(b) => Ok(b),
            Payload::File(p) => panic!("unexpected file {p}"),
        }
    }

    fn import(&mut self, from: &[Entry]) -> String {
        let store = Store::open(self.store.data_dir(), self.store.entries.clone());
        let mut im = Import::begin(store).unwrap();
        for e in from {
            im.offer(e, e.size).unwrap();
        }
        let out = im.summary();
        self.store = im.finish(retention_limit(Some(&self.cfg)));
        out
    }
}

#[test]
fn add_list_get_roundtrip() {
    let mut ctx = Ctx::new("roundtrip");
    ctx.add("hello world").unwrap();

    let list = ctx.list(10);
    assert!(list.contains("hello world"), "list output: {list}");

    let got = ctx.get("-").unwrap();
    assert_eq!(got, b"hello world");

    // JSON mode is machine-readable.
    let mut fields = serde_json::Map::new();
    fields.insert("text".to_string(), listed(&ctx.store, 1)[0].text.as_str().into());
    let json = serde_json::Value::Object(fields).to_string();
    let v: serde_json::Value = serde_json::from_str(json.trim()).unwrap();
    assert_eq!(v["text"], "hello world");
}

#[test]
fn add_via_stdin_and_dedup_bump() {
    let mut ctx = Ctx::new("stdin");
    assert_eq!(add_source(None, None).unwrap(), AddSource::Stdin);
    let id: u64 = ctx.add("piped content\nsecond line").unwrap().parse().unwrap();

    let dup = ctx.add("piped content\nsecond line").unwrap();
    assert!(dup.contains("already"));

    let list = ctx.list(25);
    assert_eq!(list.matches("piped content").count(), 1);
    assert_eq!(id, 1);
}

#[test]
fn pin_survives_clear_all() {
    let mut ctx = Ctx::new("pin");
    for t in ["one", "two", "three"] {
        ctx.add(t).unwrap();
    }
    // Entry ids start at 1; pin #1 ("one").
    pin(&mut ctx.store, 1).unwrap();
    assert_eq!(clear(&mut ctx.store, None, false, true).unwrap(), "deleted 2");

    let list = ctx.list(25);
    assert!(list.contains("one"), "pinned must survive: {list}");
    assert!(!list.contains("two"));
    assert!(!list.contains("three"));

    // Pin toggle round-trips back to unpinned.
    assert_eq!(pin(&mut ctx.store, 1).unwrap(), "unpinned #1");
}

#[test]
fn clear_last_and_by_id() {
    let mut ctx = Ctx::new("clearlast");
    for t in ["alpha", "beta"] {
        ctx.add(t).unwrap();
    }
    assert_eq!(clear(&mut ctx.store, None, true, false).unwrap(), "deleted 1");
    let list = ctx.list(25);
    assert!(list.contains("alpha") && !list.contains("beta"));

    assert_eq!(clear(&mut ctx.store, Some(1), false, false).unwrap(), "deleted 1");
    assert!(clear(&mut ctx.store, Some(99), false, false).is_err());
}

#[test]
fn export_import_between_homes() {
    let mut src = Ctx::new("export");
    for t in ["keep me", "me too"] {
        src.add(t).unwrap();
    }

    let mut dst = Ctx::new("import");
    dst.add("pre-existing").unwrap();
    let out = dst.import(&src.store.entries);
    assert!(out.contains("imported 2"), "{out}");

    let list = dst.list(25);
    assert!(list.contains("keep me") && list.contains("me too"));

    // Re-import skips everything.
    let again = dst.import(&src.store.entries);
    assert!(again.contains("skipped 2"), "{again}");
    assert_eq!(again, "imported 0 new entries, skipped 2 already present");
}

#[test]
fn config_set_and_deny_pattern() {
    let mut ctx = Ctx::new("config");
    apply_set(&mut ctx.cfg, "max_entries", "5").unwrap();
    assert_eq!(ctx.cfg.max_entries, 5);

    ctx.add("x").unwrap();
    ctx.add("y").unwrap();
    assert_eq!(ctx.cfg.poll_ms, 700);

    // Deny pattern blocks matching adds.
    deny_add(&mut ctx.cfg, "^sk-[0-9]+$").unwrap();
    assert!(ctx.add("sk-12345678").is_err());
    assert!(ctx.add("normal text").is_ok());
}

#[test]
fn invalid_regex_rejected() {
    let mut ctx = Ctx::new("badregex");
    assert!(deny_add(&mut ctx.cfg, "(unclosed").is_err());
}

fn findings() -> Findings {
    Findings {
        version: "0.1.1".to_string(),
        clipboard: None,
        store: Ok(1),
        data_dir: "/data".to_string(),
        config: ConfigHealth::Sound,
        config_path: "/data/config.toml".to_string(),
        service_installed: false,
    }
}

#[test]
fn doctor_reports_store_state() {
    let mut ctx = Ctx::new("doctor");
    ctx.add("probe entry").unwrap();
    let mut found = findings();
    found.store = Ok(ctx.store.len());
    let text = found.report().0.join("\n");
    assert!(text.contains("store"), "doctor output: {text}");
    assert!(
        text.contains("1 entries"),
        "store line should report entry count: {text}"
    );
}

#[test]
fn get_unknown_id_fails_cleanly() {
    let ctx = Ctx::new("missing");
    let err = ctx.get("42").unwrap_err().message();
    assert!(err.contains("no entry #42"), "{err}");
}

#[test]
fn empty_history_messages_are_helpful() {
    let ctx = Ctx::new("empty");
    let list = ctx.list(25);
    assert!(list.is_empty(), "fresh store lists nothing");
    let err = ctx.get("-").unwrap_err().message();
    assert!(err.contains("history is empty"));
}

#[test]
fn ids_are_numbers_or_a_dash() {
    let mut ctx = Ctx::new("ids");
    ctx.add("a").unwrap();
    ctx.add("b").unwrap();
    assert_eq!(ctx.get("-").unwrap(), b"b");
    assert_eq!(ctx.get("1").unwrap(), b"a");
    assert_eq!(ctx.get("+2").unwrap(), b"b");
    assert_eq!(ctx.get("x").unwrap_err(), IdError::NotANumber);
    assert_eq!(IdError::NotANumber.message(), "id must be a number or '-'");
    assert_eq!(ctx.get("--").unwrap_err(), IdError::NotANumber);
    assert_eq!(find_id(&ctx.store, 2).unwrap().text, "b");
    assert_eq!(find_id(&ctx.store, 3).unwrap_err(), IdError::NoEntry(3));
}

#[test]
fn a_listing_lines_up() {
    let mut e = Entry::new_text(7, 0, "hello\nthere");
    assert_eq!(list_line(&e, 5_000), "     7     5s      11 B  hello ⏎");
    e.pinned = true;
    e.size = 2048;
    assert_eq!(list_line(&e, 7_200_000), "     7 *   2h   2.0 KiB  hello ⏎");
    let long = Entry::new_text(1_234_567, 0, &"x".repeat(71));
    assert_eq!(
        list_line(&long, 0),
        format!("1234567     0s      71 B  {}…", "x".repeat(69))
    );
}

#[test]
fn a_listing_is_newest_first_and_limited() {
    let mut ctx = Ctx::new("limit");
    for t in ["a", "b", "c"] {
        ctx.add(t).unwrap();
    }
    let texts: Vec<&str> = listed(&ctx.store, 2).iter().map(|e| e.text.as_str()).collect();
    assert_eq!(texts, vec!["c", "b"]);
    assert_eq!(listed(&ctx.store, 9).len(), 3);
    assert_eq!(listed(&ctx.store, 0).len(), 0);
}

#[test]
fn text_to_add_comes_from_one_place() {
    let some = |s: &str| Some(s.to_string());
    assert_eq!(add_source(some("t"), None).unwrap(), AddSource::Text("t".to_string()));
    assert_eq!(add_source(None, some("f")).unwrap(), AddSource::File("f".to_string()));
    let e = add_source(some("t"), some("f")).unwrap_err();
    assert!(matches!(e, AddError::TwoSources));
    assert_eq!(e.message().unwrap(), "pass either TEXT or --file, not both");
}

#[test]
fn what_the_rules_keep_out_is_not_added() {
    let cfg = Config { max_length: 3, ..Default::default() };
    assert!(check_addable(&cfg, "abc").is_ok());
    let e = check_addable(&cfg, "abcd").unwrap_err();
    assert!(matches!(e, AddError::Rejected));
    assert_eq!(
        e.message().unwrap(),
        "content rejected by current filters (length bounds or deny pattern)"
    );
    assert!(admission(true).is_ok());
    assert!(matches!(admission(false), Err(AddError::Rejected)));
    let bad = Config { deny_patterns: vec!["(".to_string()], ..Default::default() };
    let e = check_addable(&bad, "abc").unwrap_err();
    assert!(matches!(e, AddError::Config(_)));
    assert!(e.message().is_none());
    assert_eq!(add_message(Some(12)), "12");
    assert_eq!(add_message(None), "already in history");
}

#[test]
fn picking_prints_or_copies() {
    let e = Entry::new_text(3, 0, "text");
    assert_eq!(picked(&e, false, false), Picked::Print("text".to_string()));
    assert_eq!(picked(&e, true, false), Picked::Print("text\n".to_string()));
    assert_eq!(picked(&e, true, true), Picked::CopyText("text".to_string()));
    let i = Entry::new_image(4, 0, "images/a.png", 1);
    let copied = Picked::CopyImage("copied image #4 back to the clipboard".to_string());
    assert_eq!(picked(&i, false, false), copied);
    assert_eq!(picked(&i, true, true), copied);
}

#[test]
fn clearing_says_what_it_did() {
    let mut ctx = Ctx::new("clear");
    assert_eq!(clear(&mut ctx.store, None, false, true).unwrap(), "deleted 0");
    assert_eq!(clear(&mut ctx.store, None, true, false).unwrap(), "deleted 0");
    let e = clear(&mut ctx.store, None, false, false).unwrap_err();
    assert_eq!(e, ClearError::NothingNamed);
    assert_eq!(e.message(), "specify an id, --last, or --all");
    let e = clear(&mut ctx.store, Some(5), false, false).unwrap_err();
    assert_eq!(e.message(), "no entry #5");
    ctx.add("a").unwrap();
    assert_eq!(pin(&mut ctx.store, 1).unwrap(), "pinned #1");
    assert_eq!(
        clear(&mut ctx.store, None, false, true).unwrap(),
        "only pinned entries remain (unpin with `clipcrate pin <id>`)"
    );
    assert_eq!(ctx.store.len(), 1);
    assert_eq!(pin(&mut ctx.store, 9).unwrap_err(), IdError::NoEntry(9));
}

#[test]
fn exports_name_payloads_and_spare_own_files() {
    let s = Store::open(
        "/data",
        vec![
            Entry::new_image(1, 0, "images/a.png", 1),
            Entry::new_text(2, 0, "t"),
            Entry::new_image(3, 0, "images/b.png", 1),
        ],
    );
    assert_eq!(payload_files(&s), vec!["/data/images/a.png", "/data/images/b.png"]);
    assert!(may_export_to(false, false).is_ok());
    for own in [(true, false), (false, true), (true, true)] {
        assert_eq!(
            may_export_to(own.0, own.1).unwrap_err(),
            "refusing to overwrite clipcrate's internal data file"
        );
    }
    assert!(export_copies("/data/images/a.png", true, false).unwrap());
    assert!(!export_copies("/data/images/a.png", true, true).unwrap());
    assert_eq!(
        export_copies("/data/images/a.png", false, false).unwrap_err(),
        "missing image payload /data/images/a.png"
    );
    assert_eq!(
        export_message(2, "/tmp/dump.jsonl"),
        "exported 2 entries (+ images/ if present) → /tmp/dump.jsonl"
    );
}

#[test]
fn imports_are_renumbered_sorted_and_unpinned() {
    let mut old = Entry::new_text(1, 50, "here");
    old.pinned = true;
    let mut im = Import::begin(Store::open("/data", vec![old])).unwrap();
    let mut a = Entry::new_text(1, 70, "later");
    a.pinned = true;
    let b = Entry::new_text(1, 20, "earlier");
    assert!(im.offer(&a, a.size).unwrap());
    assert!(im.offer(&b, b.size).unwrap());
    assert!(!im.offer(&b, b.size).unwrap());
    assert!(im.knows(&b));
    assert_eq!(im.summary(), "imported 2 new entries, skipped 1 already present");
    let s = im.finish(1000);
    let got: Vec<(u64, &str, bool)> =
        s.entries.iter().map(|e| (e.id, e.text.as_str(), e.pinned)).collect();
    assert_eq!(got, vec![(3, "earlier", false), (1, "here", true), (2, "later", false)]);
    assert_eq!(s.next_id, 4);
    assert_eq!(s.data_dir(), "/data");
}

#[test]
fn a_bad_line_ends_an_import() {
    let mut im = Import::begin(Store::open("/data", Vec::new())).unwrap();
    let good = Parsed { line: 1, entry: Some(Entry::new_text(1, 5, "a")) };
    assert!(im.offer_line(&good, 1).unwrap());
    assert!(!im.offer_line(&good, 1).unwrap());
    let bad = Parsed { line: 4, entry: None };
    assert_eq!(im.offer_line(&bad, 0).unwrap_err(), ImportError::BadLine(4));
    assert_eq!((im.added, im.skipped, im.entries.len(), im.next_id), (1, 1, 1, 2));
}

#[test]
fn importing_again_changes_nothing() {
    let mut im = Import::begin(Store::open("/data", vec![Entry::new_text(7, 20, "x")])).unwrap();
    let a = Entry::new_image(1, 20, "images/a.png", 3);
    let b = Entry::new_text(2, 10, "b");
    im.offer(&a, 99).unwrap();
    im.offer(&b, 1).unwrap();
    let rows = |s: &Store| -> Vec<(u64, i64, String, u64)> {
        s.entries.iter().map(|e| (e.id, e.ts, e.text.clone(), e.size)).collect()
    };
    let first = im.finish(1000);
    let want = rows(&first);
    assert_eq!(want[0], (9, 10, "b".to_string(), 1));
    assert_eq!(want[2], (8, 20, "images/a.png".to_string(), 99));
    let mut im = Import::begin(first).unwrap();
    im.offer(&a, 3).unwrap();
    im.offer(&b, 1).unwrap();
    assert_eq!(im.summary(), "imported 0 new entries, skipped 2 already present");
    assert_eq!(rows(&im.finish(1000)), want);
}

#[test]
fn an_export_comes_back_whole() {
    let mut pinned = Entry::new_text(3, 30, "twice");
    pinned.pinned = true;
    let exported =
        vec![pinned, Entry::new_text(5, 10, "once"), Entry::new_text(9, 40, "twice")];
    let mut ctx = Ctx::new("fresh");
    ctx.import(&exported);
    let got: Vec<(u64, i64, &str, bool)> =
        ctx.store.entries.iter().map(|e| (e.id, e.ts, e.text.as_str(), e.pinned)).collect();
    assert_eq!(got, vec![(2, 10, "once", false), (1, 30, "twice", false)]);
}

#[test]
fn an_empty_history_cannot_be_picked_from() {
    let mut ctx = Ctx::new("pick");
    assert_eq!(
        may_pick(&ctx.store).unwrap_err(),
        "history is empty — copy something while `clipcrate watch` runs"
    );
    ctx.add("a").unwrap();
    assert!(may_pick(&ctx.store).is_ok());
}

#[test]
fn an_import_respects_the_limit() {
    let mut im = Import::begin(Store::open("/data", Vec::new())).unwrap();
    for (ts, t) in [(30, "c"), (10, "a"), (20, "b")] {
        let e = Entry::new_text(9, ts, t);
        im.offer(&e, e.size).unwrap();
    }
    let s = im.finish(2);
    let got: Vec<&str> = s.entries.iter().map(|e| e.text.as_str()).collect();
    assert_eq!(got, vec!["b", "c"]);
}

#[test]
fn ids_can_run_out() {
    let full = Store { dir: "/d".to_string(), entries: vec![Entry::new_text(u64::MAX, 0, "x")], next_id: 1 };
    let e = Import::begin(full).err().unwrap();
    assert_eq!(e, ImportError::IdsExhausted);
    assert_eq!(e.message(), "history id space exhausted");
    let mut im =
        Import::begin(Store::open("/d", vec![Entry::new_text(u64::MAX - 1, 0, "x")])).unwrap();
    let y = Entry::new_text(1, 0, "y");
    assert_eq!(im.offer(&y, 1).unwrap_err(), ImportError::IdsExhausted);
}

fn tiny_png() -> Vec<u8> {
    let img = image::RgbaImage::from_pixel(1, 1, image::Rgba([1, 2, 3, 4]));
    let mut buf = Vec::new();
    image::DynamicImage::ImageRgba8(img)
        .write_to(&mut std::io::Cursor::new(&mut buf), image::ImageFormat::Png)
        .unwrap();
    buf
}

#[test]
fn image_payloads_are_checked() {
    let png = tiny_png();
    let found = PayloadSource::Found(png.clone());
    let n = png.len() as u64;
    assert_eq!(check_payload(&found, &None, "/a", "/b").unwrap(), n);
    assert_eq!(check_payload(&found, &Some(png.clone()), "/a", "/b").unwrap(), n);

    let e = check_payload(&found, &Some(vec![1]), "/a", "/b").unwrap_err();
    assert_eq!(e.message(), "image payload collision at /b");
    let e = check_payload(&PayloadSource::Found(vec![1]), &None, "/a", "/b").unwrap_err();
    assert_eq!(e.message(), "invalid PNG payload /a");
    let e = check_payload(&PayloadSource::Missing, &None, "/a", "/b").unwrap_err();
    assert_eq!(e.message(), "missing image payload /a");
    let e = check_payload(&PayloadSource::NoDirectory, &None, "/a", "/b").unwrap_err();
    assert_eq!(
        e.message(),
        "image entries can only be imported with --file so sibling images/ payloads can be found"
    );
    assert_eq!(ImportError::BadLine(4).message(), "bad import line 4");

    assert_eq!(judge_payload(&PayloadSource::Found(vec![1]), true, &None, "/a", "/b").unwrap(), 1);
    let e = judge_payload(&found, false, &None, "/a", "/b").unwrap_err();
    assert_eq!(e, ImportError::InvalidPng("/a".to_string()));
}

#[test]
fn settings_are_reported() {
    assert_eq!(set_message("poll_ms"), "poll_ms updated");
    assert!(affects_retention("max_entries"));
    assert!(!affects_retention("poll_ms"));
    assert_eq!(deny_message(true, "^sk-"), "deny pattern added: ^sk-");
    assert_eq!(deny_message(false, "^sk-"), "pattern already present");
    let cfg = Config { max_entries: 7, preview_lines: 3, ..Default::default() };
    assert_eq!(retention_limit(Some(&cfg)), 7);
    assert_eq!(retention_limit(None), 1000);
    assert_eq!(preview_room(Some(&cfg)), 3);
    assert_eq!(preview_room(None), 8);
}

#[test]
fn watching_can_be_told_how_often_to_poll() {
    assert_eq!(watch_config(Config::default(), None).poll_ms, 700);
    assert_eq!(watch_config(Config::default(), Some(10)).poll_ms, 50);
    assert_eq!(watch_config(Config::default(), Some(120)).poll_ms, 120);
    assert_eq!(
        watch_banner(700, "/data"),
        "clipcrate watching (poll=700ms, data=/data) — Ctrl+C to stop"
    );
}

#[test]
fn doctor_reports_every_check() {
    let (lines, end) = findings().report();
    assert_eq!(
        lines,
        vec![
            "clipcrate doctor",
            "  version  : 0.1.1",
            "  clipboard: OK",
            "  store    : OK (1 entries, /data)",
            "  config   : OK (/data/config.toml)",
            "  service  : not installed (run `clipcrate install-service`)",
        ]
    );
    assert_eq!(end.unwrap(), "all checks passed");

    let mut bad = findings();
    bad.clipboard = Some("no display".to_string());
    bad.store = Err("locked".to_string());
    bad.config = ConfigHealth::Invalid("regex".to_string());
    bad.service_installed = true;
    let (lines, end) = bad.report();
    assert_eq!(lines[2], "  clipboard: FAIL (no display)");
    assert_eq!(lines[3], "  store    : FAIL (locked)");
    assert_eq!(lines[4], "  config   : INVALID (regex)");
    assert_eq!(lines[5], "  service  : installed");
    assert_eq!(end.unwrap_err(), "3 check(s) failed");

    bad.clipboard = None;
    bad.store = Ok(0);
    bad.config = ConfigHealth::Unreadable("toml".to_string());
    let (lines, end) = bad.report();
    assert_eq!(lines[4], "  config   : UNREADABLE (toml)");
    assert_eq!(end.unwrap_err(), "1 check(s) failed");
}
