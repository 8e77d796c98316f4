use clipcrate::entry::{now_ms, timestamp, Entry, Kind};

fn text(t: &str) -> Entry {
    Entry::new_text(1, 0, t)
}

#[test]
fn a_text_entry_counts_bytes() {
    let e = Entry::new_text(3, 9, "héllo");
    assert_eq!((e.id, e.ts, e.size, e.pinned), (3, 9, 6, false));
    assert_eq!(e.kind, Kind::Text);
    let e = Entry::new_image(4, 10, "images/a.png", 77);
    assert_eq!((e.id, e.ts, e.size, e.pinned), (4, 10, 77, false));
    assert_eq!((e.kind, e.text.as_str()), (Kind::Image, "images/a.png"));
    let copy = e.clone();
    assert_eq!((copy.id, copy.kind, copy.text), (4, Kind::Image, "images/a.png".to_string()));
}

#[test]
fn the_preview_is_the_first_line() {
    assert_eq!(text("one\ntwo").preview(80), "one");
    assert_eq!(text("one\r\ntwo").preview(80), "one");
    assert_eq!(text("").preview(80), "");
    assert_eq!(text("\nrest").preview(80), "");
    assert_eq!(text("a\tb\u{7f}c").preview(80), "abc");
    let image = Entry::new_image(1, 0, "images/a.png", 1);
    assert_eq!(image.preview(80), "[image]");
    assert_eq!(image.preview(7), "[image]");
    assert_eq!(image.preview(6), "[imag…");
    assert_eq!(image.preview(0), "");
}

#[test]
fn the_preview_is_cut_to_size() {
    assert_eq!(text("abcdef").preview(6), "abcdef");
    assert_eq!(text("abcdef").preview(5), "abcd…");
    assert_eq!(text("äöüß").preview(3), "äö…");
    assert_eq!(text("abc").preview(1), "…");
    assert_eq!(text("abc").preview(0), "");
    assert_eq!(text("").preview(0), "");
    for max in 0..9 {
        assert!(text("some longer\ttext").preview(max).chars().count() <= max);
    }
}

#[test]
fn only_texts_have_lines() {
    assert!(text("a\nb").is_multiline());
    assert!(!text("a\rb").is_multiline());
    assert!(!Entry::new_image(1, 0, "a\nb", 1).is_multiline());
}

#[test]
fn age_is_in_the_largest_unit() {
    let at = |secs: i64| text("x").age(secs * 1000);
    assert_eq!(at(-5), "0s");
    assert_eq!(at(0), "0s");
    assert_eq!(at(59), "59s");
    assert_eq!(at(60), "1m");
    assert_eq!(at(3599), "59m");
    assert_eq!(at(3600), "1h");
    assert_eq!(at(86_399), "23h");
    assert_eq!(at(86_400), "1d");
    assert_eq!(at(864_000), "10d");
    assert_eq!(text("x").age(2999), "2s");
}

/// Size for humans, by floating point.
fn by_float(size: u64) -> String {
    let units = ["B", "KiB", "MiB", "GiB"];
    let mut v = size as f64;
    let mut u = 0;
    while v >= 1024.0 && u < units.len() - 1 {
        v /= 1024.0;
        u += 1;
    }
    if u == 0 {
        format!("{} B", size)
    } else {
        format!("{v:.1} {}", units[u])
    }
}

fn human_size(size: u64) -> String {
    Entry::new_image(1, 0, "x", size).human_size()
}

#[test]
fn sizes_for_humans() {
    assert_eq!(human_size(0), "0 B");
    assert_eq!(human_size(12), "12 B");
    assert_eq!(human_size(1023), "1023 B");
    assert_eq!(human_size(1024), "1.0 KiB");
    assert_eq!(human_size(3482), "3.4 KiB");
    assert_eq!(human_size(1_048_575), "1024.0 KiB");
    assert_eq!(human_size(1_048_576), "1.0 MiB");
    assert_eq!(human_size(1 << 40), "1024.0 GiB");
    assert_eq!(human_size(u64::MAX), "17179869184.0 GiB");
}

#[test]
fn sizes_round_as_floating_point_does() {
    for size in 0..200_000u64 {
        assert_eq!(human_size(size), by_float(size), "{size}");
    }
    let mut n: u64 = 0x9e37_79b9_7f4a_7c15;
    for i in 0..20_000u32 {
        n = n.wrapping_mul(6_364_136_223_846_793_005).wrapping_add(1_442_695_040_888_963_407);
        let size = n >> (i % 64);
        assert_eq!(human_size(size), by_float(size), "{size}");
    }
    for bits in 50..64u32 {
        for off in 0..2000u64 {
            let size = (1u64 << bits) - 1000 + off;
            assert_eq!(human_size(size), by_float(size), "{size}");
        }
    }
    for gib in [1u64, 3, 5, 1000, 8_388_607, 8_388_608] {
        for part in [53_687_091u64, 53_687_092, 268_435_456, 805_306_368] {
            let size = gib * 1_073_741_824 + part;
            assert_eq!(human_size(size), by_float(size), "{size}");
        }
    }
}

#[test]
fn only_images_have_payload_files() {
    assert_eq!(text("x").payload_path("/data"), None);
    let e = Entry::new_image(1, 0, "images/a.png", 1);
    assert_eq!(e.payload_path("/data").as_deref(), Some("/data/images/a.png"));
}

#[test]
fn the_clock_reads_as_milliseconds() {
    assert_eq!(timestamp(None), 0);
    assert_eq!(timestamp(Some(1_700_000_000_123)), 1_700_000_000_123);
    for n in [1u128 << 64, 1 << 63, (1 << 63) - 1, u128::MAX, (3 << 63) + 5] {
        assert_eq!(timestamp(Some(n)), n as i64);
    }
    let before = std::time::SystemTime::now()
        .duration_since(std::time::UNIX_EPOCH)
        .unwrap()
        .as_millis() as i64;
    let now = now_ms();
    assert!(now >= before && now < before + 60_000);
}
