//! Decides whether a clipboard snapshot should be recorded.

use crate::config::{Config, ConfigError, ConfigView};
use crate::pattern::{compiled, denied, first_bad, is_matched};
use crate::text::byte_len;
use vstd::prelude::*;

verus! {

/// The capture rules of a configuration, ready to be applied.
pub struct Filter {
    denies: Vec<regex::Regex>,
    min_length: usize,
    max_length: usize,
}

/// Whether the capture rules let a text be recorded: its length in bytes is
/// within bounds and no deny pattern matches it.
pub open spec fn accepted(cfg: ConfigView, text: Seq<char>) -> bool {
    &&& cfg.min_length <= vstd::utf8::encode_utf8(text).len() <= cfg.max_length
    &&& !denied(cfg.deny_patterns, text)
}

impl Filter {
    /// Whether the filter applies the capture rules of a configuration.
    pub closed spec fn applies(self, cfg: ConfigView) -> bool {
        &&& self.min_length == cfg.min_length
        &&& self.max_length == cfg.max_length
        &&& self.denies@.len() == cfg.deny_patterns.len()
        &&& forall|i: int|
            0 <= i < self.denies@.len() ==> compiled(cfg.deny_patterns[i]) == Ok::<
                regex::Regex,
                regex::Error,
            >(#[trigger] self.denies@[i])
    }

    /// Whether the filter lets a text through.
    pub closed spec fn lets_through(self, text: Seq<char>) -> bool {
        &&& self.min_length <= vstd::utf8::encode_utf8(text).len() <= self.max_length
        &&& forall|i: int|
            0 <= i < self.denies@.len() ==> !is_matched(#[trigger] self.denies@[i], text)
    }

    /// A filter lets through what the capture rules that it applies accept.
    pub proof fn lets_through_by_rules(self, cfg: ConfigView, text: Seq<char>)
        requires
            self.applies(cfg),
        ensures
            self.lets_through(text) == accepted(cfg, text),
    {
        if denied(cfg.deny_patterns, text) {
            let j = choose|j: int|
                0 <= j < cfg.deny_patterns.len() && compiled(#[trigger] cfg.deny_patterns[j]) is Ok
                    && is_matched(compiled(cfg.deny_patterns[j])->Ok_0, text);
            assert(compiled(cfg.deny_patterns[j]) == Ok::<regex::Regex, regex::Error>(
                self.denies@[j],
            ));
        } else {
            assert forall|i: int| 0 <= i < self.denies@.len() implies !is_matched(
                #[trigger] self.denies@[i],
                text,
            ) by {
                assert(compiled(cfg.deny_patterns[i]) == Ok::<regex::Regex, regex::Error>(
                    self.denies@[i],
                ));
            }
        }
    }

    /// The filter of a configuration; a deny pattern that does not compile is an
    /// error.
    pub fn new(cfg: &Config) -> (res: Result<Filter, ConfigError>)
        ensures
            match res {
                Ok(f) => first_bad(cfg@.deny_patterns) is None && f.applies(cfg@),
                Err(e) => first_bad(cfg@.deny_patterns) matches Some(why) && e
                    == ConfigError::BadPattern(why),
            },
    {
        match cfg.compile_denies() {
            Ok(denies) => Ok(
                Filter { denies, min_length: cfg.min_length, max_length: cfg.max_length },
            ),
            Err(e) => Err(e),
        }
    }

    /// `Ok(true)` = record, `Ok(false)` = ignore by rule.
    pub fn accepts(&self, text: &str) -> (res: Result<bool, ConfigError>)
        ensures
            res == Ok::<bool, ConfigError>(self.lets_through(text@)),
            forall|cfg: ConfigView| #[trigger]
                self.applies(cfg) ==> res == Ok::<bool, ConfigError>(accepted(cfg, text@)),
    {
        let n: usize = byte_len(text);
        if !admits(n, self.min_length, self.max_length, false) {
            assert forall|cfg: ConfigView| #[trigger] self.applies(cfg) implies !accepted(
                cfg,
                text@,
            ) by {
                self.lets_through_by_rules(cfg, text@);
            }
            return Ok(false);
        }
        let mut hit: bool = false;
        let mut i: usize = 0;
        while i < self.denies.len() && !hit
            invariant
                i <= self.denies@.len(),
                !hit ==> forall|j: int|
                    0 <= j < i ==> !is_matched(#[trigger] self.denies@[j], text@),
                hit ==> exists|j: int|
                    0 <= j < i && is_matched(#[trigger] self.denies@[j], text@),
            decreases self.denies@.len() - i,
        {
            if self.denies[i].is_match(text) {
                assert(is_matched(self.denies@[i as int], text@));
                hit = true;
            }
            i = i + 1;
        }
        assert forall|cfg: ConfigView| #[trigger] self.applies(cfg) implies self.lets_through(text@)
            == accepted(cfg, text@) by {
            self.lets_through_by_rules(cfg, text@);
        }
        Ok(admits(n, self.min_length, self.max_length, hit))
    }
}

/// Whether a text of a given length in bytes is recorded, given whether a deny
/// pattern hit it.
pub fn admits(bytes: usize, min_length: usize, max_length: usize, hit: bool) -> (res: bool)
    ensures
        res == (min_length <= bytes <= max_length && !hit),
{
    min_length <= bytes && bytes <= max_length && !hit
}

/// What a deny pattern matches is never accepted, whatever else is configured.
pub proof fn denied_is_not_accepted(cfg: ConfigView, text: Seq<char>)
    requires
        denied(cfg.deny_patterns, text),
    ensures
        !accepted(cfg, text),
{
}

/// Adding deny patterns never lets more through.
pub proof fn more_patterns_accept_less(cfg: ConfigView, pattern: Seq<char>, text: Seq<char>)
    requires
        accepted(crate::config::with_pattern(cfg, pattern), text),
    ensures
        accepted(cfg, text),
{
    let more = crate::config::with_pattern(cfg, pattern).deny_patterns;
    assert forall|i: int| 0 <= i < cfg.deny_patterns.len() implies !(compiled(
        #[trigger] cfg.deny_patterns[i],
    ) is Ok && is_matched(compiled(cfg.deny_patterns[i])->Ok_0, text)) by {
        assert(more[i] == cfg.deny_patterns[i]);
    }
}

/// A text that an added deny pattern matches is not accepted any more.
pub proof fn added_pattern_denies(cfg: ConfigView, pattern: Seq<char>, text: Seq<char>)
    requires
        compiled(pattern) matches Ok(re) && is_matched(re, text),
    ensures
        !accepted(crate::config::with_pattern(cfg, pattern), text),
{
    let more = crate::config::with_pattern(cfg, pattern).deny_patterns;
    if cfg.deny_patterns.contains(pattern) {
        let i = choose|i: int| 0 <= i < more.len() && more[i] == pattern;
        assert(more[i] == pattern);
    } else {
        assert(more[more.len() - 1] == pattern);
    }
}

} // verus!
