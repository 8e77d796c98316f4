use clipcrate::config::{Config, DedupMode};
use clipcrate::filter::{admits, Filter};

fn cfg(denies: &[&str]) -> Config {
    Config {
        deny_patterns: denies.iter().map(|s| s.to_string()).collect(),
        ..Default::default()
    }
}

#[test]
fn length_bounds() {
    let f = Filter::new(&Config {
        min_length: 3,
        max_length: 10,
        ..Default::default()
    })
    .unwrap();
    assert!(!f.accepts("ab").unwrap());
    assert!(f.accepts("abc").unwrap());
    assert!(f.accepts("0123456789").unwrap());
    assert!(!f.accepts("0123456789x").unwrap());
}

#[test]
fn secret_patterns_denied() {
    let f = Filter::new(&cfg(&["sk-[A-Za-z0-9]{8,}", "ghp_[A-Za-z0-9]{20,}"])).unwrap();
    assert!(!f.accepts("my key is sk-abcdefgh1234 ok").unwrap());
    assert!(!f.accepts("token ghp_abcdefghijklmnopqrst here").unwrap());
    assert!(f.accepts("harmless text").unwrap());
}

#[test]
fn invalid_regex_is_error() {
    assert!(Filter::new(&cfg(&["(unclosed"])).is_err());
}

#[test]
fn default_config_accepts_typical_text() {
    let f = Filter::new(&Config::default()).unwrap();
    let sample = "cargo build --release\n".repeat(50);
    assert_eq!(
        f.accepts(&sample).unwrap(),
        DedupMode::Bump == DedupMode::Bump
    );
    assert!(f.accepts(&sample).unwrap());
}

#[test]
fn length_is_counted_in_bytes() {
    let f = Filter::new(&Config { min_length: 1, max_length: 3, ..Default::default() }).unwrap();
    assert!(f.accepts("abc").unwrap());
    assert!(f.accepts("é").unwrap());
    assert!(!f.accepts("éé").unwrap());
    assert!(!f.accepts("").unwrap());
}

#[test]
fn bounds_and_patterns_decide() {
    assert!(admits(3, 3, 10, false));
    assert!(admits(10, 3, 10, false));
    assert!(!admits(2, 3, 10, false));
    assert!(!admits(11, 3, 10, false));
    assert!(!admits(5, 3, 10, true));
}
