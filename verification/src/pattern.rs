//! Deny patterns, compiled and matched by the `regex` crate.

use vstd::prelude::*;

verus! {

/// `regex::Regex`, a compiled pattern.
#[verifier::external_type_specification]
#[verifier::external_body]
pub struct ExRegex(regex::Regex);

/// `regex::Error`, why a pattern did not compile.
#[verifier::external_type_specification]
#[verifier::external_body]
pub struct ExRegexError(regex::Error);

/// What `regex::Regex::new` makes of a pattern.
pub uninterp spec fn compiled(pattern: Seq<char>) -> Result<regex::Regex, regex::Error>;

/// Whether `regex::Regex::is_match` finds a compiled pattern in a text.
pub uninterp spec fn is_matched(re: regex::Regex, text: Seq<char>) -> bool;

/// `regex::Regex::new` compiles a pattern or says why it cannot; what comes back
/// depends on the pattern alone.
pub assume_specification[ regex::Regex::new ](re: &str) -> (res: Result<regex::Regex, regex::Error>)
    ensures
        res == compiled(re@),
;

/// `regex::Regex::is_match` tells whether the pattern matches anywhere in the
/// text; the answer depends on the pattern and the text alone.
pub assume_specification[ regex::Regex::is_match ](re: &regex::Regex, haystack: &str) -> (res: bool)
    ensures
        res == is_matched(*re, haystack@),
;

/// The error of the first pattern that does not compile, if one does not.
pub open spec fn first_bad(patterns: Seq<Seq<char>>) -> Option<regex::Error>
    decreases patterns.len(),
{
    if patterns.len() == 0 {
        None
    } else {
        match compiled(patterns[0]) {
            Err(e) => Some(e),
            Ok(_) => first_bad(patterns.drop_first()),
        }
    }
}

/// Whether a text matches one of the patterns.
pub open spec fn denied(patterns: Seq<Seq<char>>, text: Seq<char>) -> bool {
    exists|i: int|
        0 <= i < patterns.len() && compiled(#[trigger] patterns[i]) is Ok && is_matched(
            compiled(patterns[i])->Ok_0,
            text,
        )
}

/// The first failing pattern is the one after which all earlier ones compiled.
pub(crate) proof fn first_bad_at(patterns: Seq<Seq<char>>, k: int)
    requires
        0 <= k <= patterns.len(),
        forall|i: int| 0 <= i < k ==> compiled(#[trigger] patterns[i]) is Ok,
    ensures
        k == patterns.len() ==> first_bad(patterns) is None,
        k < patterns.len() && compiled(patterns[k]) is Err ==> first_bad(patterns) == Some(
            compiled(patterns[k])->Err_0,
        ),
    decreases k,
{
    if k > 0 {
        let rest = patterns.drop_first();
        assert(compiled(patterns[0]) is Ok);
        assert forall|i: int| 0 <= i < k - 1 implies compiled(#[trigger] rest[i]) is Ok by {
            assert(rest[i] == patterns[i + 1]);
        }
        first_bad_at(rest, k - 1);
        if k < patterns.len() {
            assert(rest[k - 1] == patterns[k]);
        }
    }
}

/// Where no pattern fails, each of them compiles.
pub proof fn none_bad(patterns: Seq<Seq<char>>, i: int)
    requires
        first_bad(patterns) is None,
        0 <= i < patterns.len(),
    ensures
        compiled(patterns[i]) is Ok,
    decreases patterns.len(),
{
    if i > 0 {
        none_bad(patterns.drop_first(), i - 1);
        assert(patterns.drop_first()[i - 1] == patterns[i]);
    }
}

} // verus!
