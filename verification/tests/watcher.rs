use clipcrate::backend::{ClipError, Clipboard, FakeClipboard};
use clipcrate::cli::retention_limit;
use clipcrate::config::{Config, DedupMode};
use clipcrate::entry::{now_ms, Entry, Kind};
use clipcrate::filter::Filter;
use clipcrate::store::{Payload, Store};
use clipcrate::watcher::{
    capture_rules_changed, content_hash, image_rel_path, record_judged, retry_delay, Snapshot,
    Step, Tick, Watcher,
};

type Clip = FakeClipboard;

/// The payload files of a history.
type Files = Vec<(String, Vec<u8>)>;

fn shared(text: &str) -> Clip {
    let mut f = FakeClipboard::default();
    f.set_text(text).unwrap();
    f
}

fn base() -> Config {
    Config {
        poll_ms: 50,
        ..Default::default()
    }
}

fn w(clip: Clip) -> Watcher<Clip> {
    Watcher::new(clip, &base()).unwrap()
}

fn open(dir: &str) -> Store {
    Store::open(dir, Vec::new())
}

/// Record what was seen, with payload files beside the history.
fn record(
    w: &Watcher<Clip>,
    s: &mut Store,
    seen: &Snapshot,
    files: &mut Files,
    max: usize,
) -> Result<Tick, String> {
    let mut existing = None;
    if let Snapshot::Image(png) = seen {
        let rel = image_rel_path(png);
        existing = files.iter().find(|f| f.0 == rel).map(|f| f.1.clone());
        if existing.is_none() {
            files.push((rel, png.clone()));
        }
    }
    w.tick(s, seen, &existing, now_ms(), max).map_err(|e| e.message())
}

/// One poll cycle against an open history.
fn tick(
    w: &mut Watcher<Clip>,
    s: &mut Store,
    loaded: Option<Config>,
    files: &mut Files,
) -> Result<Tick, String> {
    let max = retention_limit(loaded.as_ref());
    w.reload_config(loaded).map_err(|e| format!("{e:?}"))?;
    let seen = w.look().map_err(|e| e.message)?;
    record(w, s, &seen, files, max)
}

fn png_of(pixel: [u8; 4]) -> Vec<u8> {
    let img = image::RgbaImage::from_pixel(2, 2, image::Rgba(pixel));
    let mut buf = Vec::new();
    image::DynamicImage::ImageRgba8(img)
        .write_to(&mut std::io::Cursor::new(&mut buf), image::ImageFormat::Png)
        .unwrap();
    buf
}

#[test]
fn records_ignores_and_dedups() {
    let mut w = w(shared(""));
    let mut s = open("basic");
    let mut files = Files::new();
    let cfg = || Some(Config::default());

    w.clip.set_text("first").unwrap();
    assert_eq!(tick(&mut w, &mut s, cfg(), &mut files).unwrap(), Tick::Recorded);
    assert_eq!(
        tick(&mut w, &mut s, cfg(), &mut files).unwrap(),
        Tick::Deduped,
        "same content again"
    );
    w.clip.set_text("").unwrap();
    assert_eq!(tick(&mut w, &mut s, cfg(), &mut files).unwrap(), Tick::Ignored);
    w.clip.set_text("second").unwrap();
    assert_eq!(tick(&mut w, &mut s, cfg(), &mut files).unwrap(), Tick::Recorded);
    assert_eq!(s.len(), 2);
}

#[test]
fn deny_pattern_blocks_recording() {
    let saved = Config {
        poll_ms: 50,
        deny_patterns: vec!["^sk-".into()],
        ..Default::default()
    };
    let mut w = w(shared(""));
    let mut s = open("deny");
    let mut files = Files::new();

    w.clip.set_text("sk-shouldnotsave").unwrap();
    assert_eq!(tick(&mut w, &mut s, Some(saved.clone()), &mut files).unwrap(), Tick::Ignored);
    w.clip.set_text("fine").unwrap();
    assert_eq!(tick(&mut w, &mut s, Some(saved), &mut files).unwrap(), Tick::Recorded);
    assert_eq!(s.len(), 1);
}

#[test]
fn images_stored_once_and_deduped() {
    let png = png_of([1, 2, 3, 255]);
    let fake = FakeClipboard {
        png: Some(png.clone()),
        ..Default::default()
    };
    let mut w = w(fake);
    let mut s = open("img");
    let mut files = Files::new();

    assert_eq!(tick(&mut w, &mut s, None, &mut files).unwrap(), Tick::Recorded);
    assert_eq!(tick(&mut w, &mut s, None, &mut files).unwrap(), Tick::Deduped);
    assert_eq!(s.len(), 1);
    assert_eq!(files.len(), 1);
    let path = match s.payload_bytes(s.entries.first().unwrap()) {
        Payload::File(p) => p,
        other => panic!("unexpected {other:?}"),
    };
    assert_eq!(path, format!("img/{}", files[0].0));
    assert_eq!(files[0].1, png);
}

#[test]
fn existing_image_payload_must_match_hash_target() {
    let png = png_of([11, 12, 13, 255]);
    let digest = content_hash(&png);
    let existing = Some(b"corrupt".to_vec());

    let w = w(shared(""));
    let mut s = open("img-collision");
    let err = w.record_image(&mut s, &png, &existing, now_ms(), 1000).unwrap_err().message();
    assert!(err.contains("image payload collision"), "{err}");
    assert_eq!(err, format!("image payload collision at img-collision/images/{digest}.png"));
    assert!(s.is_empty());
}

#[test]
fn image_dedup_all_records_each_event_but_reuses_payload() {
    let png = png_of([5, 6, 7, 255]);
    let fake = FakeClipboard {
        png: Some(png.clone()),
        ..Default::default()
    };
    let mut w = w(fake);
    w.dedup = DedupMode::All;
    let mut s = open("img-all");
    let mut files = Files::new();

    let seen = Snapshot::Image(png);
    assert_eq!(record(&w, &mut s, &seen, &mut files, 1000).unwrap(), Tick::Recorded);
    assert_eq!(record(&w, &mut s, &seen, &mut files, 1000).unwrap(), Tick::Recorded);
    assert_eq!(s.len(), 2);
    assert_eq!(files.len(), 1);
}

#[test]
fn run_loop_persists_across_reopens() {
    // Drive the run loop step by step, with the history reopened in between.
    let mut w = w(shared(""));
    let mut files = Files::new();
    let mut disk: Vec<Entry> = Vec::new();
    w.clip.set_text("persist me").unwrap();
    {
        let mut s = Store::open("loop", disk.clone());
        tick(&mut w, &mut s, None, &mut files).unwrap();
        disk = s.entries;
    }
    let s = Store::open("loop", disk);
    assert_eq!(s.iter_newest_first()[0].text, "persist me");
}

#[test]
fn reload_reports_capture_rule_changes_only() {
    let clip = shared("same clipboard");
    let base = base();
    let mut w = Watcher::new(clip, &base).unwrap();

    assert!(!w.reload_config(Some(base.clone())).unwrap());

    let mut changed = base.clone();
    changed.preview_lines = 20;
    assert!(!w.reload_config(Some(changed.clone())).unwrap());

    changed.deny_patterns.push("^blocked$".into());
    assert!(w.reload_config(Some(changed.clone())).unwrap());
    assert!(!w.reload_config(Some(changed)).unwrap());
}

#[test]
fn identical_images_get_same_name() {
    let a = content_hash(b"same bytes");
    let b = content_hash(b"same bytes");
    assert_eq!(a, b);
    assert_ne!(a, content_hash(b"other bytes"));
    assert_eq!(a.len(), 32);
}

#[test]
fn the_fingerprint_is_fnv() {
    // The FNV-1a offset basis.
    assert_eq!(content_hash(b""), "6c62272e07bb014262b821756295c58d");
    // The published 128-bit FNV-1a of "a".
    assert_eq!(content_hash(b"a"), "d228cb696f1a8caf78912b704e4a8964");
    assert_eq!(image_rel_path(b""), "images/6c62272e07bb014262b821756295c58d.png");
}

#[test]
fn polling_can_be_overridden() {
    let w = Watcher::new(shared(""), &Config::default()).unwrap();
    assert_eq!(w.poll_ms, 700);
    let mut w = w.with_poll_override(Some(10));
    assert_eq!(w.poll_ms, 50);
    w.reload_config(Some(Config { poll_ms: 900, ..Default::default() })).unwrap();
    assert_eq!(w.poll_ms, 50);
    let mut w = w.with_poll_override(None);
    assert_eq!(w.poll_ms, 50);
    w.reload_config(Some(Config { poll_ms: 900, ..Default::default() })).unwrap();
    assert_eq!(w.poll_ms, 900);
    w.reload_config(Some(Config { poll_ms: 1, ..Default::default() })).unwrap();
    assert_eq!(w.poll_ms, 50);
}

#[test]
fn an_unreadable_configuration_leaves_the_old_one() {
    let mut w = w(shared(""));
    assert!(!w.reload_config(None).unwrap());
    assert_eq!(w.active_config, base());
    let bad = Config { deny_patterns: vec!["(".into()], ..Default::default() };
    assert!(w.reload_config(Some(bad)).is_err());
    assert_eq!(w.active_config, base());
}

#[test]
fn a_bad_pattern_makes_no_watcher() {
    let bad = Config { deny_patterns: vec!["(".into()], ..Default::default() };
    assert!(Watcher::new(shared(""), &bad).is_err());
}

#[test]
fn every_capture_rule_counts() {
    let a = Config::default();
    assert!(!capture_rules_changed(&a, &a));
    assert!(capture_rules_changed(&Config { min_length: 2, ..Default::default() }, &a));
    assert!(capture_rules_changed(&Config { max_length: 2, ..Default::default() }, &a));
    assert!(capture_rules_changed(&Config { dedup: DedupMode::All, ..Default::default() }, &a));
    let one = Config { deny_patterns: vec!["x".into()], ..Default::default() };
    let other = Config { deny_patterns: vec!["y".into()], ..Default::default() };
    assert!(capture_rules_changed(&one, &a));
    assert!(capture_rules_changed(&one, &other));
    assert!(!capture_rules_changed(&Config { max_entries: 2, ..Default::default() }, &a));
    assert!(!capture_rules_changed(&Config { poll_ms: 2, ..Default::default() }, &a));
}

fn recorded(step: Step) -> Snapshot {
    match step {
        Step::Record(s) => s,
        Step::Sleep(ms) => panic!("sleeps {ms}"),
        Step::Exit => panic!("exits"),
    }
}

#[test]
fn an_unchanged_clipboard_is_recorded_once() {
    let mut w = w(shared("hello"));
    let seen = recorded(w.next(false, Some(base())).unwrap());
    w.settle(&seen, true);
    assert!(matches!(w.next(false, Some(base())).unwrap(), Step::Sleep(50)));

    w.clip.set_text("other").unwrap();
    let seen = recorded(w.next(false, Some(base())).unwrap());
    assert_eq!(seen.fingerprint(), "t:other");

    // What could not be recorded is offered again.
    w.settle(&seen, false);
    recorded(w.next(false, Some(base())).unwrap());
}

#[test]
fn changed_rules_make_the_clipboard_eligible_again() {
    let mut w = w(shared("hello"));
    let seen = recorded(w.next(false, Some(base())).unwrap());
    w.settle(&seen, true);
    let changed = Config { dedup: DedupMode::All, ..base() };
    recorded(w.next(false, Some(changed)).unwrap());
}

#[test]
fn a_stopped_run_ends() {
    let mut w = w(shared("hello"));
    assert!(matches!(w.next(true, None).unwrap(), Step::Exit));
}

#[test]
fn a_clipboard_that_fails_is_tried_later() {
    let mut w = w(shared("hello"));
    w.clip.fail_reads = 1;
    assert!(matches!(w.next(false, None).unwrap(), Step::Sleep(50)));
    recorded(w.next(false, None).unwrap());
    w.clip.fail_reads = 1;
    assert_eq!(w.look().err().unwrap().message, "fake clipboard failure");
}

#[test]
fn a_bad_configuration_ends_the_run() {
    let mut w = w(shared("hello"));
    let bad = Config { deny_patterns: vec!["(".into()], ..Default::default() };
    assert!(w.next(false, Some(bad)).is_err());
}

#[test]
fn images_go_before_text() {
    let mut w = w(shared("hello"));
    w.clip.set_image_png(&[1, 2, 3]).unwrap();
    let seen = recorded(w.next(false, None).unwrap());
    assert_eq!(seen.fingerprint(), format!("i:{}", content_hash(&[1, 2, 3])));

    let err = ClipError { message: "no".to_string() };
    assert!(Snapshot::of_reads(Err(err), None).is_err());
    let text = Snapshot::of_reads(Ok(None), Some(Ok("t".to_string()))).ok().unwrap();
    assert_eq!(text.fingerprint(), "t:t");
}

#[test]
fn contention_is_waited_out() {
    assert_eq!(retry_delay(true), Some(100));
    assert_eq!(retry_delay(false), None);
}

#[test]
fn images_follow_the_dedup_mode() {
    let png = png_of([7, 7, 7, 255]);
    let mut w = w(shared(""));
    let mut s = open("modes");
    assert_eq!(w.record_image(&mut s, &png, &None, 1, 9).unwrap(), Tick::Recorded);
    assert_eq!(w.record_text(&mut s, "between", 2, 9), Tick::Recorded);
    let e = &s.entries[0];
    assert_eq!(e.kind, Kind::Image);
    assert_eq!(e.text, image_rel_path(&png));
    assert_eq!(e.size, png.len() as u64);

    w.dedup = DedupMode::Update;
    let there = Some(png.clone());
    assert_eq!(w.record_image(&mut s, &png, &there, 3, 9).unwrap(), Tick::Deduped);
    assert_eq!((s.entries[0].ts, s.entries[0].kind), (3, Kind::Image));

    w.dedup = DedupMode::Bump;
    assert_eq!(w.record_image(&mut s, &png, &there, 4, 9).unwrap(), Tick::Deduped);
    assert_eq!((s.entries[1].ts, s.entries[1].kind), (4, Kind::Image));
    assert_eq!(s.len(), 2);
}

#[test]
fn a_verdict_decides_what_is_recorded() {
    let mut s = open("verdict");
    let mode = DedupMode::Bump;
    assert_eq!(record_judged(&mut s, "text", false, mode, 1, 9), Tick::Ignored);
    assert_eq!(record_judged(&mut s, "", true, mode, 1, 9), Tick::Ignored);
    assert!(s.is_empty());
    assert_eq!(record_judged(&mut s, "text", true, mode, 1, 9), Tick::Recorded);
    assert_eq!(record_judged(&mut s, "text", true, mode, 2, 9), Tick::Deduped);
    assert_eq!(s.len(), 1);
}

#[test]
fn an_adopted_configuration_is_in_force() {
    let mut w = w(shared(""));
    let cfg = Config { dedup: DedupMode::All, poll_ms: 300, max_length: 4, ..Default::default() };
    let filter = Filter::new(&cfg).unwrap();
    assert!(w.adopt(cfg.clone(), filter));
    assert_eq!((w.dedup, w.poll_ms), (DedupMode::All, 300));
    assert_eq!(w.active_config, cfg);
    let mut s = open("adopted");
    assert_eq!(w.record_text(&mut s, "12345", 1, 9), Tick::Ignored);
    assert_eq!(w.record_text(&mut s, "1234", 1, 9), Tick::Recorded);
}

#[test]
fn only_a_new_entry_takes_an_id() {
    let mut w = w(shared(""));
    let mut s = Store::open("full", vec![Entry::new_text(1, 0, "here")]);
    s.next_id = u64::MAX;
    let text = |t: &str| Snapshot::Text(t.to_string());
    let got = w.tick_if_room(&mut s, &text(""), &None, 5, 9).unwrap();
    assert_eq!(got.unwrap(), Tick::Ignored);
    let got = w.tick_if_room(&mut s, &text("here"), &None, 5, 9).unwrap();
    assert_eq!(got.unwrap(), Tick::Deduped);
    assert!(w.tick_if_room(&mut s, &text("new"), &None, 6, 9).is_none());
    let png = Snapshot::Image(vec![1, 2]);
    assert!(w.tick_if_room(&mut s, &png, &None, 6, 9).is_none());
    assert!(w.tick_if_room(&mut s, &png, &Some(vec![3]), 6, 9).unwrap().is_err());
    assert_eq!((s.len(), s.entries[0].ts), (1, 5));
    assert_eq!(w.record_text(&mut s, "", 7, 9), Tick::Ignored);

    w.dedup = DedupMode::All;
    assert!(!w.has_room(&s, &text("here"), &None));
    s.next_id = 2;
    assert!(w.has_room(&s, &text("here"), &None));
    let got = w.tick_if_room(&mut s, &text("here"), &None, 8, 9).unwrap();
    assert_eq!(got.unwrap(), Tick::Recorded);
    assert_eq!(s.len(), 2);
}
