use clipcrate::config::{
    add_pattern, apply_set, clamp_poll, deny_add, parse_num, Config, ConfigError, ConfigRead,
    DedupMode, SetError,
};

#[test]
fn invalid_ranges_are_rejected() {
    let bad = Config {
        min_length: 10,
        max_length: 2,
        ..Default::default()
    };
    assert!(bad.validate().is_err());
}

#[test]
fn deny_patterns_compile_or_fail() {
    let bad = Config {
        deny_patterns: vec!["sk-[a-zA-Z0-9]{10,}".into(), "(bad".into()],
        ..Default::default()
    };
    assert!(bad.compile_denies().is_err());
    let good = Config {
        deny_patterns: vec!["sk-[a-zA-Z0-9]{10,}".into()],
        ..Default::default()
    };
    assert_eq!(good.compile_denies().unwrap().len(), 1);
}

#[test]
fn a_fresh_installation_has_the_defaults() {
    let cfg = Config::load(ConfigRead::Missing).unwrap();
    assert_eq!(cfg, Config::default());
    assert_eq!(cfg.max_entries, 1000);
    assert_eq!(cfg.poll_ms, 700);
    assert_eq!(cfg.min_length, 1);
    assert_eq!(cfg.max_length, 1_000_000);
    assert!(cfg.deny_patterns.is_empty());
    assert_eq!(cfg.dedup, DedupMode::Bump);
    assert_eq!(cfg.preview_lines, 8);
    assert_eq!(DedupMode::default(), DedupMode::Bump);
}

#[test]
fn what_was_read_is_validated() {
    let sound = Config { max_entries: 42, ..Default::default() };
    assert_eq!(Config::load(ConfigRead::Parsed(sound.clone())).unwrap(), sound);

    let crossed = Config { min_length: 3, max_length: 2, ..Default::default() };
    let e = Config::load(ConfigRead::Parsed(crossed)).unwrap_err();
    assert!(matches!(e, ConfigError::MinExceedsMax));
    assert_eq!(e.message().unwrap(), "min_length must not exceed max_length");
    let equal = Config { min_length: 3, max_length: 3, ..Default::default() };
    assert!(equal.validate().is_ok());

    let bad = Config { deny_patterns: vec!["(".into()], ..Default::default() };
    let e = Config::load(ConfigRead::Parsed(bad)).unwrap_err();
    assert!(matches!(e, ConfigError::BadPattern(_)));
    assert!(e.message().is_none());
}

#[test]
fn only_a_sound_configuration_is_saved() {
    let side = Config::default().save("/d/config.toml").unwrap();
    assert_eq!(side.tmp, "/d/config.toml.tmp");
    assert_eq!(side.backup, "/d/config.toml.bak");
    let crossed = Config { min_length: 3, max_length: 2, ..Default::default() };
    assert!(matches!(crossed.save("/d/config.toml"), Err(ConfigError::MinExceedsMax)));
    let bad = Config { deny_patterns: vec!["(".into()], ..Default::default() };
    assert!(matches!(bad.save("/d/config.toml"), Err(ConfigError::BadPattern(_))));
}

#[test]
fn the_first_bad_pattern_is_reported() {
    let cfg = Config {
        deny_patterns: vec!["ok".into(), "(one".into(), "[two".into()],
        ..Default::default()
    };
    let want = regex::Regex::new("(one").unwrap_err();
    match cfg.compile_denies() {
        Err(ConfigError::BadPattern(e)) => assert_eq!(e, want),
        other => panic!("unexpected {other:?}"),
    }
}

#[test]
fn compiled_patterns_are_the_configured_ones() {
    let cfg = Config {
        deny_patterns: vec!["^a+$".into(), "b{2}".into()],
        ..Default::default()
    };
    let res = cfg.compile_denies().unwrap();
    assert_eq!(res[0].as_str(), "^a+$");
    assert_eq!(res[1].as_str(), "b{2}");
}

#[test]
fn the_data_dir_can_be_overridden() {
    let some = |s: &str| Some(s.to_string());
    assert_eq!(Config::data_dir(some("/tmp/x"), some("/home/u/.local")), "/tmp/x");
    assert_eq!(Config::data_dir(some(""), some("/home/u/.local")), "/home/u/.local");
    assert_eq!(Config::data_dir(None, some("/home/u/.local")), "/home/u/.local");
    assert_eq!(Config::data_dir(None, None), ".clipcrate");
    assert_eq!(Config::default_path("/tmp/x"), "/tmp/x/config.toml");
}

#[test]
fn every_key_can_be_set() {
    let mut cfg = Config::default();
    apply_set(&mut cfg, "max_entries", "5").unwrap();
    apply_set(&mut cfg, "min_length", "2").unwrap();
    apply_set(&mut cfg, "max_length", "+30").unwrap();
    apply_set(&mut cfg, "preview_lines", "0").unwrap();
    apply_set(&mut cfg, "poll_ms", "900").unwrap();
    apply_set(&mut cfg, "dedup", "update").unwrap();
    let want = Config {
        max_entries: 5,
        min_length: 2,
        max_length: 30,
        preview_lines: 0,
        poll_ms: 900,
        dedup: DedupMode::Update,
        ..Default::default()
    };
    assert_eq!(cfg, want);
    apply_set(&mut cfg, "dedup", "all").unwrap();
    assert_eq!(cfg.dedup, DedupMode::All);
    apply_set(&mut cfg, "dedup", "bump").unwrap();
    assert_eq!(cfg.dedup, DedupMode::Bump);
}

#[test]
fn polling_has_a_lower_bound() {
    let mut cfg = Config::default();
    apply_set(&mut cfg, "poll_ms", "10").unwrap();
    assert_eq!(cfg.poll_ms, 50);
    assert_eq!(clamp_poll(49), 50);
    assert_eq!(clamp_poll(50), 50);
    assert_eq!(clamp_poll(51), 51);
}

#[test]
fn a_refused_setting_changes_nothing() {
    let mut cfg = Config::default();
    let e = apply_set(&mut cfg, "max_entries", "many").unwrap_err();
    assert_eq!(e, SetError::NotANumber);
    assert_eq!(e.message(), "expected a non-negative integer");
    let e = apply_set(&mut cfg, "dedup", "never").unwrap_err();
    assert_eq!(e.message(), "dedup must be bump|update|all, got 'never'");
    let e = apply_set(&mut cfg, "colour", "red").unwrap_err();
    assert_eq!(e, SetError::UnknownKey("colour".to_string()));
    assert_eq!(
        e.message(),
        "unknown key 'colour' (valid: max_entries, poll_ms, min_length, max_length, dedup, preview_lines)"
    );
    assert_eq!(cfg, Config::default());
}

#[test]
fn counts_are_read_as_the_standard_library_reads_them() {
    for s in ["0", "7", "+7", "007", "", "+", "-1", "1 ", " 1", "1.0", "18446744073709551615", "18446744073709551616", "٣"] {
        assert_eq!(parse_num(s).ok(), s.parse::<usize>().ok(), "{s}");
    }
}

#[test]
fn a_deny_pattern_is_added_once() {
    let mut cfg = Config::default();
    assert!(deny_add(&mut cfg, "^sk-").unwrap());
    assert!(!deny_add(&mut cfg, "^sk-").unwrap());
    assert!(add_pattern(&mut cfg, "^ghp_"));
    assert_eq!(cfg.deny_patterns, vec!["^sk-".to_string(), "^ghp_".to_string()]);
    assert!(matches!(deny_add(&mut cfg, "(unclosed"), Err(ConfigError::BadPattern(_))));
    assert_eq!(cfg.deny_patterns.len(), 2);
}

/// Settings as a table of a configuration file.
fn to_table(cfg: &Config) -> toml::Table {
    let mut t = toml::Table::new();
    t.insert("max_entries".into(), toml::Value::Integer(cfg.max_entries as i64));
    t.insert("poll_ms".into(), toml::Value::Integer(cfg.poll_ms as i64));
    let dedup = match cfg.dedup {
        DedupMode::Bump => "bump",
        DedupMode::Update => "update",
        DedupMode::All => "all",
    };
    t.insert("dedup".into(), toml::Value::String(dedup.into()));
    t
}

/// The settings of a configuration file; keys that are not there have their
/// defaults, keys that are not known are ignored.
fn from_table(t: &toml::Table) -> Config {
    let mut cfg = Config::default();
    for (key, value) in t {
        let word = match value {
            toml::Value::String(s) => s.clone(),
            other => other.to_string(),
        };
        let _ = apply_set(&mut cfg, key, &word);
    }
    cfg
}

#[test]
fn defaults_roundtrip_through_toml() {
    let raw = toml::to_string_pretty(&to_table(&Config::default())).unwrap();
    let read: toml::Table = toml::from_str(&raw).unwrap();
    let loaded = Config::load(ConfigRead::Parsed(from_table(&read))).unwrap();
    assert_eq!(loaded.max_entries, 1000);
    assert_eq!(loaded.poll_ms, 700);
    assert_eq!(loaded.dedup, DedupMode::Bump);
}

#[test]
fn unknown_keys_and_missing_file_are_tolerated() {
    let read: toml::Table = toml::from_str("max_entries = 42\nfuture_key = true\n").unwrap();
    let cfg = Config::load(ConfigRead::Parsed(from_table(&read))).unwrap();
    assert_eq!(cfg.max_entries, 42);
    assert_eq!(cfg.poll_ms, 700);

    let missing = Config::load(ConfigRead::Missing).unwrap();
    assert_eq!(missing, Config::default());
}
