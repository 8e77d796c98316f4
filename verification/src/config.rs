//! User configuration, kept in `config.toml` in the data directory.

use crate::path::{join, joined, with_extension};
use crate::pattern::{compiled, first_bad, first_bad_at};
use crate::replace::{side_files, SideFiles};
use crate::text::{number, parse_number, same, views};
use vstd::prelude::*;

verus! {

/// How the watcher deduplicates repeated copies of the same content.
#[derive(Debug, Clone, Copy, PartialEq, Eq, Structural)]
pub enum DedupMode {
    /// Move the existing entry to the top instead of creating a new one.
    Bump,
    /// Keep the original position; only update the timestamp.
    Update,
    /// Record every copy as a separate entry.
    All,
}

impl Default for DedupMode {
    fn default() -> (mode: DedupMode)
        ensures
            mode == DedupMode::Bump,
    {
        DedupMode::Bump
    }
}

#[derive(Debug, PartialEq, Eq)]
pub struct Config {
    /// Maximum entries kept (excluding pinned ones).
    pub max_entries: usize,
    /// Polling interval of the watcher in milliseconds.
    pub poll_ms: u64,
    /// Ignore clips shorter than this many bytes.
    pub min_length: usize,
    /// Ignore clips longer than this many bytes.
    pub max_length: usize,
    /// Regex patterns; matching clips are not recorded.
    pub deny_patterns: Vec<String>,
    pub dedup: DedupMode,
    /// Number of preview lines shown in the picker.
    pub preview_lines: usize,
}

/// The model of a configuration.
#[verifier::ext_equal]
pub struct ConfigView {
    pub max_entries: usize,
    pub poll_ms: u64,
    pub min_length: usize,
    pub max_length: usize,
    pub deny_patterns: Seq<Seq<char>>,
    pub dedup: DedupMode,
    pub preview_lines: usize,
}

impl View for Config {
    type V = ConfigView;

    open spec fn view(&self) -> ConfigView {
        ConfigView {
            max_entries: self.max_entries,
            poll_ms: self.poll_ms,
            min_length: self.min_length,
            max_length: self.max_length,
            deny_patterns: views(self.deny_patterns@),
            dedup: self.dedup,
            preview_lines: self.preview_lines,
        }
    }
}

/// The settings of a fresh installation.
pub open spec fn default_config() -> ConfigView {
    ConfigView {
        max_entries: 1000,
        poll_ms: 700,
        min_length: 1,
        max_length: 1_000_000,
        deny_patterns: seq![],
        dedup: DedupMode::Bump,
        preview_lines: 8,
    }
}

/// What is wrong with a configuration.
#[derive(Debug)]
pub enum ConfigError {
    /// `min_length` exceeds `max_length`.
    MinExceedsMax,
    /// A deny pattern is not a valid regular expression.
    BadPattern(regex::Error),
}

impl ConfigError {
    /// What is wrong, in words; `None` where it is for the pattern's own error to
    /// say.
    pub fn message(&self) -> (out: Option<String>)
        ensures
            match (*self, out) {
                (ConfigError::MinExceedsMax, Some(m)) => m@
                    == "min_length must not exceed max_length"@,
                (ConfigError::BadPattern(_), None) => true,
                _ => false,
            },
    {
        match self {
            ConfigError::MinExceedsMax => Some("min_length must not exceed max_length".to_owned()),
            ConfigError::BadPattern(_) => None,
        }
    }
}

impl ConfigView {
    /// What is wrong with the configuration, if anything is.
    pub open spec fn fault(self) -> Option<ConfigError> {
        if self.min_length > self.max_length {
            Some(ConfigError::MinExceedsMax)
        } else {
            match first_bad(self.deny_patterns) {
                Some(e) => Some(ConfigError::BadPattern(e)),
                None => None,
            }
        }
    }
}

/// What was found where a configuration is kept.
pub enum ConfigRead {
    /// No file.
    Missing,
    /// A file, and what it says.
    Parsed(Config),
}

impl Default for Config {
    fn default() -> (cfg: Config)
        ensures
            cfg@ == default_config(),
    {
        let cfg = Config {
            max_entries: 1000,
            poll_ms: 700,
            min_length: 1,
            max_length: 1_000_000,
            deny_patterns: Vec::new(),
            dedup: DedupMode::default(),
            preview_lines: 8,
        };
        assert(cfg@ =~= default_config());
        cfg
    }
}

impl Clone for Config {
    fn clone(&self) -> (out: Config)
        ensures
            out@ == self@,
    {
        let deny_patterns: Vec<String> = self.deny_patterns.clone();
        assert(deny_patterns@ =~= self.deny_patterns@);
        Config {
            max_entries: self.max_entries,
            poll_ms: self.poll_ms,
            min_length: self.min_length,
            max_length: self.max_length,
            deny_patterns,
            dedup: self.dedup,
            preview_lines: self.preview_lines,
        }
    }
}

impl Config {
    /// The configuration to use, given what was read. A missing file means the
    /// defaults.
    pub fn load(read: ConfigRead) -> (res: Result<Config, ConfigError>)
        ensures
            match (read, res) {
                (ConfigRead::Missing, Ok(cfg)) => cfg@ == default_config(),
                (ConfigRead::Parsed(p), Ok(cfg)) => cfg == p && p@.fault() is None,
                (ConfigRead::Parsed(p), Err(e)) => p@.fault() == Some(e),
                (ConfigRead::Missing, Err(_)) => false,
            },
    {
        match read {
            ConfigRead::Missing => Ok(Config::default()),
            ConfigRead::Parsed(cfg) => match cfg.validate() {
                Ok(()) => Ok(cfg),
                Err(e) => Err(e),
            },
        }
    }

    /// Whether the configuration can be used and saved.
    pub fn validate(&self) -> (res: Result<(), ConfigError>)
        ensures
            match res {
                Ok(()) => self@.fault() is None,
                Err(e) => self@.fault() == Some(e),
            },
    {
        if self.min_length > self.max_length {
            return Err(ConfigError::MinExceedsMax);
        }
        match self.compile_denies() {
            Ok(_) => Ok(()),
            Err(e) => Err(e),
        }
    }

    /// How to save the configuration to a file: where its text is written first, and
    /// where the old file steps aside to. A configuration that cannot be used is
    /// not saved.
    pub fn save(&self, path: &str) -> (res: Result<SideFiles, ConfigError>)
        ensures
            match res {
                Ok(side) => {
                    &&& self@.fault() is None
                    &&& side.tmp@ == with_extension(path@, "toml"@ + ".tmp"@)
                    &&& side.backup@ == with_extension(path@, "toml"@ + ".bak"@)
                },
                Err(e) => self@.fault() == Some(e),
            },
    {
        match self.validate() {
            Ok(()) => Ok(side_files(path, "toml")),
            Err(e) => Err(e),
        }
    }

    /// Compile deny patterns once; bad regexes are reported to the caller.
    pub fn compile_denies(&self) -> (res: Result<Vec<regex::Regex>, ConfigError>)
        ensures
            match res {
                Ok(v) => {
                    &&& first_bad(self@.deny_patterns) is None
                    &&& v@.len() == self@.deny_patterns.len()
                    &&& forall|i: int|
                        0 <= i < v@.len() ==> compiled(self@.deny_patterns[i]) == Ok::<
                            regex::Regex,
                            regex::Error,
                        >(#[trigger] v@[i])
                },
                Err(e) => first_bad(self@.deny_patterns) matches Some(why) && e
                    == ConfigError::BadPattern(why),
            },
    {
        let ghost ps = self@.deny_patterns;
        let mut out: Vec<regex::Regex> = Vec::new();
        let mut i: usize = 0;
        while i < self.deny_patterns.len()
            invariant
                ps == self@.deny_patterns,
                i <= self.deny_patterns@.len(),
                out@.len() == i,
                forall|j: int|
                    0 <= j < i ==> compiled(ps[j]) == Ok::<regex::Regex, regex::Error>(
                        #[trigger] out@[j],
                    ),
                forall|j: int| 0 <= j < i ==> compiled(#[trigger] ps[j]) is Ok,
            decreases self.deny_patterns@.len() - i,
        {
            assert(ps[i as int] == self.deny_patterns@[i as int]@);
            match regex::Regex::new(self.deny_patterns[i].as_str()) {
                Ok(re) => {
                    out.push(re);
                },
                Err(e) => {
                    proof {
                        first_bad_at(ps, i as int);
                    }
                    return Err(ConfigError::BadPattern(e));
                },
            }
            i = i + 1;
        }
        proof {
            first_bad_at(ps, i as int);
        }
        Ok(out)
    }

    /// Data directory: the override where there is one and it is not empty, else
    /// the platform's, else one below the working directory.
    pub fn data_dir(home: Option<String>, platform: Option<String>) -> (out: String)
        ensures
            out@ == (match home {
                Some(p) if p@.len() > 0 => p@,
                _ => match platform {
                    Some(d) => d@,
                    None => ".clipcrate"@,
                },
            }),
    {
        match home {
            Some(p) => {
                if !p.as_str().is_empty() {
                    return p;
                }
            },
            None => {},
        }
        match platform {
            Some(d) => d,
            None => ".clipcrate".to_owned(),
        }
    }

    /// Where the configuration of a data directory lies.
    pub fn default_path(data_dir: &str) -> (out: String)
        ensures
            out@ == joined(data_dir@, "config.toml"@),
    {
        join(data_dir, "config.toml")
    }
}

// ---------------------------------------------------------------------------
// Changing settings

/// Why a setting was refused.
#[derive(Debug, PartialEq, Eq)]
pub enum SetError {
    UnknownKey(String),
    BadDedup(String),
    NotANumber,
}

/// The model of a refusal.
#[verifier::ext_equal]
pub enum SetErrorView {
    UnknownKey(Seq<char>),
    BadDedup(Seq<char>),
    NotANumber,
}

impl View for SetError {
    type V = SetErrorView;

    open spec fn view(&self) -> SetErrorView {
        match self {
            SetError::UnknownKey(k) => SetErrorView::UnknownKey(k@),
            SetError::BadDedup(v) => SetErrorView::BadDedup(v@),
            SetError::NotANumber => SetErrorView::NotANumber,
        }
    }
}

impl SetErrorView {
    /// The refusal in words.
    pub open spec fn message(self) -> Seq<char> {
        match self {
            SetErrorView::UnknownKey(k) => "unknown key '"@ + k
                + "' (valid: max_entries, poll_ms, min_length, max_length, dedup, preview_lines)"@,
            SetErrorView::BadDedup(v) => "dedup must be bump|update|all, got '"@ + v + "'"@,
            SetErrorView::NotANumber => "expected a non-negative integer"@,
        }
    }
}

impl SetError {
    /// The refusal in words.
    pub fn message(&self) -> (out: String)
        ensures
            out@ == self@.message(),
    {
        match self {
            SetError::UnknownKey(k) => "unknown key '".to_owned().concat(k.as_str()).concat(
                "' (valid: max_entries, poll_ms, min_length, max_length, dedup, preview_lines)",
            ),
            SetError::BadDedup(v) => "dedup must be bump|update|all, got '".to_owned().concat(
                v.as_str(),
            ).concat("'"),
            SetError::NotANumber => "expected a non-negative integer".to_owned(),
        }
    }
}

/// The dedup mode that a word names.
pub open spec fn dedup_named(word: Seq<char>) -> Option<DedupMode> {
    if word == "bump"@ {
        Some(DedupMode::Bump)
    } else if word == "update"@ {
        Some(DedupMode::Update)
    } else if word == "all"@ {
        Some(DedupMode::All)
    } else {
        None
    }
}

/// A polling interval is never below this many milliseconds.
pub const MIN_POLL_MS: u64 = 50;

/// A polling interval raised to the lower bound.
pub open spec fn poll_at_least(ms: u64) -> u64 {
    if ms < MIN_POLL_MS {
        MIN_POLL_MS
    } else {
        ms
    }
}

/// Raise a polling interval to the lower bound.
pub fn clamp_poll(ms: u64) -> (out: u64)
    ensures
        out == poll_at_least(ms),
{
    if ms < MIN_POLL_MS {
        MIN_POLL_MS
    } else {
        ms
    }
}

/// The configuration with one key set, or why it is refused.
pub open spec fn with_setting(cfg: ConfigView, key: Seq<char>, value: Seq<char>) -> Result<
    ConfigView,
    SetErrorView,
> {
    let n = number(value, usize::MAX as nat);
    let k = n.unwrap() as usize;
    if key == "max_entries"@ {
        if n is Some {
            Ok(ConfigView { max_entries: k, ..cfg })
        } else {
            Err(SetErrorView::NotANumber)
        }
    } else if key == "min_length"@ {
        if n is Some {
            Ok(ConfigView { min_length: k, ..cfg })
        } else {
            Err(SetErrorView::NotANumber)
        }
    } else if key == "max_length"@ {
        if n is Some {
            Ok(ConfigView { max_length: k, ..cfg })
        } else {
            Err(SetErrorView::NotANumber)
        }
    } else if key == "preview_lines"@ {
        if n is Some {
            Ok(ConfigView { preview_lines: k, ..cfg })
        } else {
            Err(SetErrorView::NotANumber)
        }
    } else if key == "poll_ms"@ {
        if n is Some {
            Ok(ConfigView { poll_ms: poll_at_least(k as u64), ..cfg })
        } else {
            Err(SetErrorView::NotANumber)
        }
    } else if key == "dedup"@ {
        match dedup_named(value) {
            Some(mode) => Ok(ConfigView { dedup: mode, ..cfg }),
            None => Err(SetErrorView::BadDedup(value)),
        }
    } else {
        Err(SetErrorView::UnknownKey(key))
    }
}

/// Read a count.
pub fn parse_num(value: &str) -> (res: Result<usize, SetError>)
    ensures
        match res {
            Ok(n) => number(value@, usize::MAX as nat) == Some(n as nat),
            Err(e) => number(value@, usize::MAX as nat) is None && e == SetError::NotANumber,
        },
{
    match parse_number(value, usize::MAX as u64) {
        Some(n) => Ok(n as usize),
        None => Err(SetError::NotANumber),
    }
}

/// Set one key. A refused setting changes nothing.
pub fn apply_set(cfg: &mut Config, key: &str, value: &str) -> (res: Result<(), SetError>)
    ensures
        match (with_setting(old(cfg)@, key@, value@), res) {
            (Ok(new), Ok(())) => final(cfg)@ == new,
            (Err(why), Err(e)) => e@ == why && final(cfg)@ == old(cfg)@,
            _ => false,
        },
{
    if same(key, "max_entries") {
        match parse_num(value) {
            Ok(n) => {
                cfg.max_entries = n;
            },
            Err(e) => {
                return Err(e);
            },
        }
    } else if same(key, "min_length") {
        match parse_num(value) {
            Ok(n) => {
                cfg.min_length = n;
            },
            Err(e) => {
                return Err(e);
            },
        }
    } else if same(key, "max_length") {
        match parse_num(value) {
            Ok(n) => {
                cfg.max_length = n;
            },
            Err(e) => {
                return Err(e);
            },
        }
    } else if same(key, "preview_lines") {
        match parse_num(value) {
            Ok(n) => {
                cfg.preview_lines = n;
            },
            Err(e) => {
                return Err(e);
            },
        }
    } else if same(key, "poll_ms") {
        match parse_num(value) {
            Ok(n) => {
                cfg.poll_ms = clamp_poll(n as u64);
            },
            Err(e) => {
                return Err(e);
            },
        }
    } else if same(key, "dedup") {
        if same(value, "bump") {
            cfg.dedup = DedupMode::Bump;
        } else if same(value, "update") {
            cfg.dedup = DedupMode::Update;
        } else if same(value, "all") {
            cfg.dedup = DedupMode::All;
        } else {
            return Err(SetError::BadDedup(value.to_owned()));
        }
    } else {
        return Err(SetError::UnknownKey(key.to_owned()));
    }
    Ok(())
}

/// A configuration with a deny pattern at the end, unless it is there already.
pub open spec fn with_pattern(cfg: ConfigView, pattern: Seq<char>) -> ConfigView {
    if cfg.deny_patterns.contains(pattern) {
        cfg
    } else {
        ConfigView { deny_patterns: cfg.deny_patterns.push(pattern), ..cfg }
    }
}

/// Add a deny pattern that compiles. Tells whether it was new.
pub fn add_pattern(cfg: &mut Config, pattern: &str) -> (added: bool)
    ensures
        added == !old(cfg)@.deny_patterns.contains(pattern@),
        final(cfg)@ == with_pattern(old(cfg)@, pattern@),
{
    let ghost ps = cfg@.deny_patterns;
    let wanted: String = pattern.to_owned();
    let mut i: usize = 0;
    while i < cfg.deny_patterns.len()
        invariant
            cfg@ == old(cfg)@,
            ps == cfg@.deny_patterns,
            wanted@ == pattern@,
            i <= cfg.deny_patterns@.len(),
            forall|j: int| 0 <= j < i ==> #[trigger] ps[j] != pattern@,
        decreases cfg.deny_patterns@.len() - i,
    {
        assert(ps[i as int] == cfg.deny_patterns@[i as int]@);
        if cfg.deny_patterns[i] == wanted {
            assert(ps.contains(pattern@));
            return false;
        }
        i = i + 1;
    }
    cfg.deny_patterns.push(wanted);
    assert(views(cfg.deny_patterns@) =~= ps.push(pattern@));
    true
}

/// Add a deny pattern. Tells whether it was new; a pattern that does not compile
/// is refused.
pub fn deny_add(cfg: &mut Config, pattern: &str) -> (res: Result<bool, ConfigError>)
    ensures
        match res {
            Err(e) => compiled(pattern@) matches Err(why) && e == ConfigError::BadPattern(why)
                && final(cfg)@ == old(cfg)@,
            Ok(added) => {
                &&& compiled(pattern@) is Ok
                &&& added == !old(cfg)@.deny_patterns.contains(pattern@)
                &&& final(cfg)@ == with_pattern(old(cfg)@, pattern@)
            },
        },
{
    match regex::Regex::new(pattern) {
        Ok(_) => Ok(add_pattern(cfg, pattern)),
        Err(e) => Err(ConfigError::BadPattern(e)),
    }
}

} // verus!
