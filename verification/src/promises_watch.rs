//! What the calls that watch the clipboard promise, told of what goes in and what
//! comes out.

use crate::backend::{ClipError, Clipboard, FakeClipboard};
use crate::config::{Config, ConfigError, DedupMode};
use crate::entry::Kind;
use crate::filter::Filter;
use crate::laws::recorded_is_there;
use crate::pattern::{compiled, first_bad, is_matched, none_bad};
use crate::promises::{fresh, has_content, none_later, store_is_fresh};
use crate::store::{entry_views, Store};
use crate::text::{hex, hex_injective, hex_len};
use crate::watcher::{
    content_hash, entry_for, fnv1a, image_rel_path, record_judged, retry_delay, sixteen_to_the_32nd,
    Collision, Snapshot, SnapshotView, Step, Tick, Watcher, FNV_PRIME,
};
use vstd::arithmetic::div_mod::{lemma_mod_multiples_vanish, lemma_mul_mod_noop_left, lemma_small_mod};
use vstd::prelude::*;
use vstd::wrapping::u128_specs;

verus! {

// ---------------------------------------------------------------------------
// Content hashes

/// Multiplying by the prime loses nothing: the prime is odd, so there is a number
/// that undoes it.
proof fn prime_is_undone(x: u128, y: u128)
    requires
        u128_specs::wrapping_mul(x, FNV_PRIME) == u128_specs::wrapping_mul(y, FNV_PRIME),
    ensures
        x == y,
{
    undo_prime(x);
    undo_prime(y);
}

proof fn undo_prime(x: u128)
    ensures
        (u128_specs::wrapping_mul(x, FNV_PRIME) * 0xb1041ad2562ff2ff2ff2ff2ff2ff2ff3int) % (u128::MAX
            + 1) == x,
{
    let m: int = u128::MAX + 1;
    let p: int = FNV_PRIME as int;
    let q: int = 0xb1041ad2562ff2ff2ff2ff2ff2ff2ff3;
    let k: int = 0xb1041ad2562ff2ff2ff3d9;
    assert(p * q == 1 + k * m) by (nonlinear_arith)
        requires
            p == 0x0000000001000000000000000000013b,
            q == 0xb1041ad2562ff2ff2ff2ff2ff2ff2ff3,
            k == 0xb1041ad2562ff2ff2ff3d9,
            m == u128::MAX + 1,
    ;
    let xi = x as int;
    lemma_mul_mod_noop_left(xi * p, q, m);
    assert((xi * p) * q == m * (xi * k) + xi) by (nonlinear_arith)
        requires
            p * q == 1 + k * m,
    ;
    lemma_mod_multiples_vanish(xi * k, xi, m);
    lemma_small_mod(x as nat, m as nat);
    assert(u128_specs::wrapping_mul(x, FNV_PRIME) == (xi * p) % m);
}

proof fn mixed_differ(a: u128, b: u128, x: u8, y: u8)
    requires
        (a == b && x != y) || (a != b && x == y),
    ensures
        a ^ (x as u128) != b ^ (y as u128),
{
    let u = x as u128;
    let v = y as u128;
    assert((a == b && u != v) || (a != b && u == v) ==> a ^ u != b ^ v) by (bit_vector);
}

proof fn hashes_stay_apart(a: Seq<u8>, b: Seq<u8>, rest: Seq<u8>)
    requires
        fnv1a(a) != fnv1a(b),
    ensures
        fnv1a(a + rest) != fnv1a(b + rest),
    decreases rest.len(),
{
    if rest.len() == 0 {
        assert(a + rest =~= a);
        assert(b + rest =~= b);
    } else {
        let head = rest.drop_last();
        hashes_stay_apart(a, b, head);
        assert((a + rest).drop_last() =~= a + head);
        assert((b + rest).drop_last() =~= b + head);
        let x = rest.last();
        mixed_differ(fnv1a(a + head), fnv1a(b + head), x, x);
        if fnv1a(a + rest) == fnv1a(b + rest) {
            prime_is_undone(fnv1a(a + head) ^ (x as u128), fnv1a(b + head) ^ (x as u128));
        }
    }
}

/// Every byte counts: content that differs in one byte, wherever it stands, has
/// another hash.
pub proof fn one_byte_changes_the_hash(a: &[u8], b: &[u8], i: int, x: String, y: String)
    requires
        call_ensures(content_hash, (a,), x),
        call_ensures(content_hash, (b,), y),
        a@.len() == b@.len(),
        0 <= i < a@.len(),
        a@[i] != b@[i],
        forall|j: int| 0 <= j < a@.len() && j != i ==> a@[j] == b@[j],
    ensures
        x@ != y@,
        x@.len() == 32,
        y@.len() == 32,
{
    hashes_of_one_byte(a@, b@, i);
    hex_len(fnv1a(a@) as nat, 32);
    hex_len(fnv1a(b@) as nat, 32);
    if x@ == y@ {
        sixteen_to_the_32nd();
        hex_injective(fnv1a(a@) as nat, fnv1a(b@) as nat, 32);
    }
}

/// Content that differs in one byte has another hash.
pub proof fn hashes_of_one_byte(a: Seq<u8>, b: Seq<u8>, i: int)
    requires
        a.len() == b.len(),
        0 <= i < a.len(),
        a[i] != b[i],
        forall|j: int| 0 <= j < a.len() && j != i ==> a[j] == b[j],
    ensures
        fnv1a(a) != fnv1a(b),
{
    let head = a.take(i);
    let rest = a.skip(i + 1);
    let p = head.push(a[i]);
    let q = head.push(b[i]);
    assert(p.drop_last() =~= head);
    assert(q.drop_last() =~= head);
    mixed_differ(fnv1a(head), fnv1a(head), a[i], b[i]);
    if fnv1a(p) == fnv1a(q) {
        prime_is_undone(fnv1a(head) ^ (a[i] as u128), fnv1a(head) ^ (b[i] as u128));
    }
    hashes_stay_apart(p, q, rest);
    assert(p + rest =~= a);
    assert(q + rest =~= b);
}

/// The path of an image's payload is its content hash below the image directory.
pub proof fn payload_is_named_by_hash(png: &[u8], hash: String, path: String)
    requires
        call_ensures(content_hash, (png,), hash),
        call_ensures(image_rel_path, (png,), path),
    ensures
        path@ == "images/"@ + (hash@ + ".png"@),
{
}

// ---------------------------------------------------------------------------
// Looking

/// Whether a remembered text is the mark of a snapshot: a text with `t:` in front,
/// or the hash of an image with `i:` in front.
pub open spec fn marks(mark: Seq<char>, seen: SnapshotView) -> bool {
    match seen {
        SnapshotView::Text(t) => mark == "t:"@ + t,
        SnapshotView::Image(b) => mark == "i:"@ + hex(fnv1a(b) as nat, 32),
    }
}

/// What is on the clipboard is recorded, image or text, unless it is the very thing
/// that was dealt with last. The watcher sleeps only where it is, or where nothing
/// could be read.
pub proof fn anything_new_is_recorded<C: Clipboard>(
    w: &Watcher<C>,
    seen: Option<Snapshot>,
    step: Step,
)
    requires
        call_ensures(Watcher::<C>::decide, (w, seen), step),
    ensures
        match seen {
            None => step == Step::Sleep(w.poll_ms),
            Some(s) => {
                let known = w.last_seen matches Some(mark) && marks(mark@, s@);
                &&& known ==> step == Step::Sleep(w.poll_ms)
                &&& !known ==> (step matches Step::Record(r) && r@ == s@)
            },
        },
{
}

/// Two snapshots that leave the same mark: the same text, or images with the same
/// hash.
pub proof fn marks_tell_apart(a: SnapshotView, b: SnapshotView, mark: Seq<char>)
    requires
        marks(mark, a),
        marks(mark, b),
    ensures
        match (a, b) {
            (SnapshotView::Text(s), SnapshotView::Text(t)) => s == t,
            (SnapshotView::Image(p), SnapshotView::Image(q)) => fnv1a(p) == fnv1a(q),
            _ => false,
        },
{
    reveal_strlit("t:");
    reveal_strlit("i:");
    assert(mark[0] == if a is Text {
        't'
    } else {
        'i'
    });
    match (a, b) {
        (SnapshotView::Text(s), SnapshotView::Text(t)) => {
            assert(s =~= mark.skip(2));
            assert(t =~= mark.skip(2));
        },
        (SnapshotView::Image(p), SnapshotView::Image(q)) => {
            assert(hex(fnv1a(p) as nat, 32) =~= mark.skip(2));
            assert(hex(fnv1a(q) as nat, 32) =~= mark.skip(2));
            sixteen_to_the_32nd();
            hex_injective(fnv1a(p) as nat, fnv1a(q) as nat, 32);
        },
        _ => {},
    }
}

/// Once something was recorded, the same thing is not recorded again, and anything
/// else is: another text, a text after an image, an image after a text, an image
/// with another hash.
pub proof fn settled_then_seen<C: Clipboard>(
    w: &mut Watcher<C>,
    a: &Snapshot,
    b: Snapshot,
    step: Step,
)
    requires
        call_ensures(Watcher::<C>::settle, (w, a, true), ()),
        call_ensures(Watcher::<C>::decide, (&*final(w), Some(b)), step),
    ensures
        a@ == b@ ==> step == Step::Sleep(old(w).poll_ms),
        (match (a@, b@) {
            (SnapshotView::Text(s), SnapshotView::Text(t)) => s != t,
            (SnapshotView::Image(p), SnapshotView::Image(q)) => fnv1a(p) != fnv1a(q),
            _ => true,
        }) ==> (step matches Step::Record(r) && r@ == b@),
{
    anything_new_is_recorded(&*final(w), Some(b), step);
    let mark = final(w).last_seen->0@;
    assert(marks(mark, a@));
    if marks(mark, b@) {
        marks_tell_apart(a@, b@, mark);
    }
}

/// What could not be recorded is not remembered.
pub proof fn unrecorded_is_not_remembered<C: Clipboard>(w: &mut Watcher<C>, seen: &Snapshot)
    requires
        call_ensures(Watcher::<C>::settle, (w, seen, false), ()),
    ensures
        final(w).last_seen is Some <==> old(w).last_seen is Some,
        final(w).last_seen matches Some(x) ==> x@ == old(w).last_seen->0@,
        final(w).poll_ms == old(w).poll_ms,
        final(w).active_config == old(w).active_config,
        final(w).dedup == old(w).dedup,
{
}

/// A look at a clipboard shows its image, and its text where it has none.
pub proof fn image_goes_first(
    w: &mut Watcher<FakeClipboard>,
    res: Result<Snapshot, ClipError>,
)
    requires
        call_ensures(Watcher::<FakeClipboard>::look, (w,), res),
    ensures
        old(w).clip.png matches Some(b) ==> (res matches Ok(s) && s@ == SnapshotView::Image(b@)),
        old(w).clip.png is None && old(w).clip.fail_reads == 0 ==> (res matches Ok(s) && s@
            == SnapshotView::Text(old(w).clip.text@)),
        old(w).clip.png is None && old(w).clip.fail_reads > 0 ==> res is Err,
{
}

/// One turn of the run loop records what is on the clipboard, image or text, unless
/// it is the very thing that was dealt with last.
pub proof fn turn_records_what_is_new(w: &mut Watcher<FakeClipboard>, step: Step)
    requires
        call_ensures(
            Watcher::<FakeClipboard>::next,
            (w, false, None),
            Ok::<Step, ConfigError>(step),
        ),
        (*w).clip.png is Some || (*w).clip.fail_reads == 0,
    ensures
        ({
            let seen = match old(w).clip.png {
                Some(b) => SnapshotView::Image(b@),
                None => SnapshotView::Text(old(w).clip.text@),
            };
            let known = old(w).last_seen matches Some(mark) && marks(mark@, seen);
            &&& known ==> step == Step::Sleep(old(w).poll_ms)
            &&& !known ==> (step matches Step::Record(r) && r@ == seen)
        }),
{
}

// ---------------------------------------------------------------------------
// What is let through

/// Whether a text matches one of the patterns of a configuration.
pub open spec fn some_pattern_matches(cfg: Config, text: Seq<char>) -> bool {
    exists|i: int|
        0 <= i < cfg.deny_patterns@.len() && (compiled((#[trigger] cfg.deny_patterns@[i])@) matches Ok(
            re,
        ) && is_matched(re, text))
}

/// Whether a text is as long as a configuration asks, in bytes.
pub open spec fn long_enough(cfg: Config, text: Seq<char>) -> bool {
    cfg.min_length <= vstd::utf8::encode_utf8(text).len() <= cfg.max_length
}

pub(crate) proof fn denied_by_fields(cfg: Config, text: Seq<char>)
    ensures
        crate::filter::accepted(cfg@, text) <==> long_enough(cfg, text) && !some_pattern_matches(
            cfg,
            text,
        ),
{
    let ps = cfg@.deny_patterns;
    assert forall|i: int| 0 <= i < ps.len() implies #[trigger] ps[i] == cfg.deny_patterns@[i]@ by {}
    if crate::pattern::denied(ps, text) {
        let i = choose|i: int|
            0 <= i < ps.len() && compiled(#[trigger] ps[i]) is Ok && is_matched(
                compiled(ps[i])->Ok_0,
                text,
            );
        assert(compiled(cfg.deny_patterns@[i]@) is Ok);
    }
    if some_pattern_matches(cfg, text) {
        let i = choose|i: int|
            0 <= i < cfg.deny_patterns@.len() && (compiled(
                (#[trigger] cfg.deny_patterns@[i])@,
            ) matches Ok(re) && is_matched(re, text));
        assert(compiled(ps[i]) is Ok);
    }
}

/// A filter lets a text through exactly where its length in bytes is within bounds
/// and no deny pattern matches it.
pub proof fn filter_goes_by_length_and_patterns(
    cfg: &Config,
    f: Filter,
    text: &str,
    res: Result<bool, ConfigError>,
)
    requires
        call_ensures(Filter::new, (cfg,), Ok::<Filter, ConfigError>(f)),
        call_ensures(Filter::accepts, (&f, text), res),
    ensures
        res == Ok::<bool, ConfigError>(
            long_enough(*cfg, text@) && !some_pattern_matches(*cfg, text@),
        ),
{
    f.lets_through_by_rules(cfg@, text@);
    denied_by_fields(*cfg, text@);
    assert(f.lets_through(text@) == (long_enough(*cfg, text@) && !some_pattern_matches(
        *cfg,
        text@,
    )));
}

/// A filter is refused exactly where a pattern does not compile.
pub proof fn filter_needs_sound_patterns(cfg: &Config, res: Result<Filter, ConfigError>)
    requires
        call_ensures(Filter::new, (cfg,), res),
    ensures
        res is Ok <==> forall|i: int|
            0 <= i < cfg.deny_patterns@.len() ==> compiled((#[trigger] cfg.deny_patterns@[i])@) is Ok,
{
    patterns_by_fields(*cfg);
}

/// No pattern is bad exactly where every one compiles.
pub proof fn patterns_by_fields(cfg: Config)
    ensures
        first_bad(cfg@.deny_patterns) is None <==> forall|i: int|
            0 <= i < cfg.deny_patterns@.len() ==> compiled((#[trigger] cfg.deny_patterns@[i])@) is Ok,
{
    let ps = cfg@.deny_patterns;
    assert forall|i: int| 0 <= i < ps.len() implies #[trigger] ps[i] == cfg.deny_patterns@[i]@ by {}
    if first_bad(ps) is None {
        assert forall|i: int| 0 <= i < cfg.deny_patterns@.len() implies compiled(
            (#[trigger] cfg.deny_patterns@[i])@,
        ) is Ok by {
            none_bad(ps, i);
            assert(ps[i] == cfg.deny_patterns@[i]@);
        }
    }
    if forall|i: int|
        0 <= i < cfg.deny_patterns@.len() ==> compiled((#[trigger] cfg.deny_patterns@[i])@) is Ok {
        assert forall|i: int| 0 <= i < ps.len() implies compiled(#[trigger] ps[i]) is Ok by {
            assert(compiled(cfg.deny_patterns@[i]@) is Ok);
        }
        crate::pattern::first_bad_at(ps, ps.len() as int);
    }
}

// ---------------------------------------------------------------------------
// Recording

/// A text that the rules let through is in the history afterwards, letter for
/// letter.
pub proof fn watched_text_is_kept<C: Clipboard>(
    w: &Watcher<C>,
    store: &mut Store,
    seen: &Snapshot,
    existing: &Option<Vec<u8>>,
    now: i64,
    max: usize,
    res: Result<Tick, Collision>,
)
    requires
        call_ensures(Watcher::<C>::tick, (w, store, seen, existing, now, max), res),
        seen@ is Text,
        seen@->Text_0.len() > 0,
        long_enough(w.active_config, seen@->Text_0),
        !some_pattern_matches(w.active_config, seen@->Text_0),
        fresh(*store),
        none_later(*store, now),
        max >= 1,
    ensures
        res matches Ok(t) && !(t is Ignored),
        exists|i: int|
            0 <= i < final(store).entries@.len() && has_content(
                #[trigger] final(store).entries@[i],
                Kind::Text,
                seen@->Text_0,
            ) && final(store).entries@[i].ts == now,
{
    denied_by_fields(w.active_config, seen@->Text_0);
    store_is_fresh(*store, now);
    let new = entry_for(seen@, (*store)@.next_id, now);
    let at = recorded_is_there((*store)@, new, w.dedup, max as nat);
    assert(entry_views(final(store).entries@).len() == final(store).entries@.len());
    assert(final(store)@.entries[at] == final(store).entries@[at]@);
    assert(has_content(final(store).entries@[at], Kind::Text, seen@->Text_0));
}

/// A text that the rules keep out leaves no trace: an empty one, one of another
/// length than they ask, one that a deny pattern matches.
pub proof fn denied_text_leaves_no_trace<C: Clipboard>(
    w: &Watcher<C>,
    store: &mut Store,
    seen: &Snapshot,
    existing: &Option<Vec<u8>>,
    now: i64,
    max: usize,
    res: Result<Tick, Collision>,
)
    requires
        call_ensures(Watcher::<C>::tick, (w, store, seen, existing, now, max), res),
        seen@ is Text,
        seen@->Text_0.len() == 0 || !long_enough(w.active_config, seen@->Text_0)
            || some_pattern_matches(w.active_config, seen@->Text_0),
    ensures
        res == Ok::<Tick, Collision>(Tick::Ignored),
        final(store)@ == old(store)@,
{
    denied_by_fields(w.active_config, seen@->Text_0);
}

/// An image is in the history afterwards, under the path that its hash names,
/// unless another payload stands there.
pub proof fn watched_image_is_kept<C: Clipboard>(
    w: &Watcher<C>,
    store: &mut Store,
    seen: &Snapshot,
    existing: &Option<Vec<u8>>,
    now: i64,
    max: usize,
    res: Result<Tick, Collision>,
)
    requires
        call_ensures(Watcher::<C>::tick, (w, store, seen, existing, now, max), res),
        seen@ is Image,
        *existing matches Some(b) ==> b@ == seen@->Image_0,
        fresh(*store),
        none_later(*store, now),
        max >= 1,
    ensures
        res matches Ok(t) && !(t is Ignored),
        exists|i: int|
            0 <= i < final(store).entries@.len() && has_content(
                #[trigger] final(store).entries@[i],
                Kind::Image,
                "images/"@ + (hex(fnv1a(seen@->Image_0) as nat, 32) + ".png"@),
            ) && final(store).entries@[i].ts == now,
{
    store_is_fresh(*store, now);
    let new = entry_for(seen@, (*store)@.next_id, now);
    let at = recorded_is_there((*store)@, new, w.dedup, max as nat);
    assert(entry_views(final(store).entries@).len() == final(store).entries@.len());
    assert(final(store)@.entries[at] == final(store).entries@[at]@);
    assert(has_content(
        final(store).entries@[at],
        Kind::Image,
        "images/"@ + (hex(fnv1a(seen@->Image_0) as nat, 32) + ".png"@),
    ));
}

/// A payload that stands in the way of another is an error, and nothing is
/// recorded.
pub proof fn collision_records_nothing<C: Clipboard>(
    w: &Watcher<C>,
    store: &mut Store,
    seen: &Snapshot,
    existing: &Option<Vec<u8>>,
    now: i64,
    max: usize,
    res: Result<Tick, Collision>,
)
    requires
        call_ensures(Watcher::<C>::tick, (w, store, seen, existing, now, max), res),
        seen@ is Image,
        *existing matches Some(b) && b@ != seen@->Image_0,
    ensures
        res is Err,
        final(store)@ == old(store)@,
{
}

/// The watcher says `Deduped` exactly where the very content was there and the mode
/// lets it suppress the insert.
pub proof fn deduped_means_there<C: Clipboard>(
    w: &Watcher<C>,
    store: &mut Store,
    text: &str,
    now: i64,
    max: usize,
    tick: Tick,
)
    requires
        call_ensures(Watcher::<C>::record_text, (w, store, text, now, max), tick),
    ensures
        tick is Deduped ==> !(w.dedup is All) && exists|i: int|
            0 <= i < old(store).entries@.len() && has_content(
                #[trigger] old(store).entries@[i],
                Kind::Text,
                text@,
            ),
        tick is Recorded && !(w.dedup is All) ==> forall|i: int|
            0 <= i < old(store).entries@.len() ==> !has_content(
                #[trigger] old(store).entries@[i],
                Kind::Text,
                text@,
            ),
{
    let es = (*store)@.entries;
    crate::store::last_match_sound(es, Kind::Text, text@);
    assert forall|i: int| 0 <= i < es.len() implies #[trigger] es[i] == (*store).entries@[i]@ by {}
    if tick is Deduped {
        let i = crate::store::last_match(es, Kind::Text, text@)->0;
        assert(has_content((*store).entries@[i], Kind::Text, text@));
    }
    if tick is Recorded && !(w.dedup is All) {
        assert forall|i: int| 0 <= i < (*store).entries@.len() implies !has_content(
            #[trigger] (*store).entries@[i],
            Kind::Text,
            text@,
        ) by {
            assert(es[i].text == (*store).entries@[i].text@);
        }
    }
}

// ---------------------------------------------------------------------------
// Configuration

/// Whether two configurations ask for the same patterns.
pub open spec fn same_deny_patterns(a: Config, b: Config) -> bool {
    &&& a.deny_patterns@.len() == b.deny_patterns@.len()
    &&& forall|i: int|
        0 <= i < a.deny_patterns@.len() ==> (#[trigger] a.deny_patterns@[i])@
            == b.deny_patterns@[i]@
}

/// A reload takes the new configuration over and says whether what is captured
/// changed: the bounds, the patterns or the dedup mode, and nothing else.
pub proof fn reload_tells_of_capture_rules<C: Clipboard>(
    w: &mut Watcher<C>,
    cfg: Config,
    res: Result<bool, ConfigError>,
)
    requires
        call_ensures(Watcher::<C>::reload_config, (w, Some(cfg)), res),
        forall|i: int|
            0 <= i < cfg.deny_patterns@.len() ==> compiled((#[trigger] cfg.deny_patterns@[i])@) is Ok,
    ensures
        res == Ok::<bool, ConfigError>(
            !(cfg.min_length == old(w).active_config.min_length && cfg.max_length == old(w).active_config.max_length && cfg.dedup == old(w).active_config.dedup
                && same_deny_patterns(cfg, old(w).active_config)),
        ),
        final(w).active_config == cfg,
        final(w).dedup == cfg.dedup,
        final(w).poll_override_ms is None ==> final(w).poll_ms == if cfg.poll_ms < 50 {
            50
        } else {
            cfg.poll_ms
        },
        final(w).poll_override_ms matches Some(p) ==> final(w).poll_ms == p,
{
    patterns_by_fields(cfg);
    let a = cfg@.deny_patterns;
    let b = (*w).active_config@.deny_patterns;
    assert(a.len() == cfg.deny_patterns@.len());
    assert(b.len() == (*w).active_config.deny_patterns@.len());
    if same_deny_patterns(cfg, (*w).active_config) {
        assert forall|i: int| 0 <= i < a.len() implies a[i] == b[i] by {
            assert(cfg.deny_patterns@[i]@ == (*w).active_config.deny_patterns@[i]@);
        }
        assert(a =~= b);
    }
    if a == b {
        assert forall|i: int| 0 <= i < cfg.deny_patterns@.len() implies (
        #[trigger] cfg.deny_patterns@[i])@ == (*w).active_config.deny_patterns@[i]@ by {
            assert(a[i] == b[i]);
        }
    }
}

/// Where no configuration could be read, or its patterns do not compile, nothing
/// changes.
pub proof fn bad_reload_changes_nothing<C: Clipboard>(
    w: &mut Watcher<C>,
    loaded: Option<Config>,
    res: Result<bool, ConfigError>,
)
    requires
        call_ensures(Watcher::<C>::reload_config, (w, loaded), res),
        loaded matches Some(cfg) ==> exists|i: int|
            0 <= i < cfg.deny_patterns@.len() && compiled(
                (#[trigger] cfg.deny_patterns@[i])@,
            ) is Err,
    ensures
        *final(w) == *old(w),
        loaded is None ==> res == Ok::<bool, ConfigError>(false),
        loaded is Some ==> res is Err,
{
    if let Some(cfg) = loaded {
        patterns_by_fields(cfg);
    }
}

/// A run ends when it is told to, and not otherwise.
pub proof fn run_ends_when_told<C: Clipboard>(
    w: &mut Watcher<C>,
    stop: bool,
    loaded: Option<Config>,
    step: Step,
)
    requires
        call_ensures(Watcher::<C>::next, (w, stop, loaded), Ok::<Step, ConfigError>(step)),
    ensures
        step is Exit <==> stop,
        stop ==> *final(w) == *old(w),
        !stop ==> (step matches Step::Sleep(ms) ==> ms == final(w).poll_ms),
{
}

/// A change of the capture rules makes the watcher forget what it saw last; no
/// other change of the configuration does.
pub proof fn changed_rules_forget<C: Clipboard>(
    w: &mut Watcher<C>,
    cfg: Config,
    step: Step,
)
    requires
        call_ensures(Watcher::<C>::next, (w, false, Some(cfg)), Ok::<Step, ConfigError>(step)),
    ensures
        cfg.min_length != old(w).active_config.min_length || cfg.max_length != old(w).active_config.max_length || cfg.dedup != old(w).active_config.dedup || !same_deny_patterns(
            cfg,
            old(w).active_config,
        ) ==> final(w).last_seen is None,
        cfg.min_length == old(w).active_config.min_length && cfg.max_length == old(w).active_config.max_length && cfg.dedup == old(w).active_config.dedup && same_deny_patterns(
            cfg,
            old(w).active_config,
        ) ==> final(w).last_seen == old(w).last_seen,
        final(w).active_config == cfg,
{
    let a = cfg@.deny_patterns;
    let b = (*w).active_config@.deny_patterns;
    assert(a.len() == cfg.deny_patterns@.len());
    assert(b.len() == (*w).active_config.deny_patterns@.len());
    if same_deny_patterns(cfg, (*w).active_config) {
        assert forall|i: int| 0 <= i < a.len() implies a[i] == b[i] by {
            assert(cfg.deny_patterns@[i]@ == (*w).active_config.deny_patterns@[i]@);
        }
        assert(a =~= b);
    }
    if a == b {
        assert forall|i: int| 0 <= i < cfg.deny_patterns@.len() implies (
        #[trigger] cfg.deny_patterns@[i])@ == (*w).active_config.deny_patterns@[i]@ by {
            assert(a[i] == b[i]);
        }
    }
}

/// An override of the polling interval holds, but for the lower bound.
pub proof fn override_sets_the_interval<C: Clipboard>(w: Watcher<C>, ms: u64, out: Watcher<C>)
    requires
        call_ensures(Watcher::<C>::with_poll_override, (w, Some(ms)), out),
    ensures
        ms >= 50 ==> out.poll_ms == ms,
        ms < 50 ==> out.poll_ms == 50,
        out.poll_override_ms == Some(out.poll_ms),
        out.active_config == w.active_config,
        out.clip == w.clip,
{
}

/// Whether a history has given content.
pub open spec fn store_has(s: Store, kind: Kind, text: Seq<char>) -> bool {
    exists|i: int| 0 <= i < s.entries@.len() && has_content(#[trigger] s.entries@[i], kind, text)
}

/// A text that was judged fit is in the history afterwards; one that was not, and an
/// empty one, leaves no trace.
pub proof fn judgement_is_followed(
    store: &mut Store,
    text: &str,
    keep: bool,
    mode: DedupMode,
    now: i64,
    max: usize,
    tick: Tick,
)
    requires
        call_ensures(record_judged, (store, text, keep, mode, now, max), tick),
        fresh(*store),
        none_later(*store, now),
        max >= 1,
    ensures
        tick is Ignored <==> !keep || text@.len() == 0,
        tick is Ignored ==> final(store)@ == old(store)@,
        !(tick is Ignored) ==> store_has(*final(store), Kind::Text, text@),
        tick is Deduped ==> store_has(*old(store), Kind::Text, text@) && !(mode is All),
        tick is Recorded ==> mode is All || !store_has(*old(store), Kind::Text, text@),
{
    let es = (*store)@.entries;
    crate::store::last_match_sound(es, Kind::Text, text@);
    assert forall|i: int| 0 <= i < es.len() implies #[trigger] es[i] == (*store).entries@[i]@ by {}
    if !(tick is Ignored) {
        store_is_fresh(*store, now);
        let new = entry_for(SnapshotView::Text(text@), (*store)@.next_id, now);
        let at = recorded_is_there((*store)@, new, mode, max as nat);
        assert(entry_views(final(store).entries@).len() == final(store).entries@.len());
        assert(final(store)@.entries[at] == final(store).entries@[at]@);
        assert(has_content(final(store).entries@[at], Kind::Text, text@));
    }
    if tick is Deduped {
        let i = crate::store::last_match(es, Kind::Text, text@)->0;
        assert(has_content((*store).entries@[i], Kind::Text, text@));
    }
    if tick is Recorded && !(mode is All) && store_has(*store, Kind::Text, text@) {
        let i = choose|i: int|
            0 <= i < (*store).entries@.len() && has_content(
                #[trigger] (*store).entries@[i],
                Kind::Text,
                text@,
            );
        assert(es[i].text == text@);
    }
}

/// Where there is an id left, what was seen is recorded as always; where there is none,
/// only what would become a new entry is turned away, and changes nothing.
pub proof fn only_new_content_needs_an_id<C: Clipboard>(
    w: &Watcher<C>,
    store: &mut Store,
    seen: &Snapshot,
    existing: &Option<Vec<u8>>,
    now: i64,
    max: usize,
    out: Option<Result<Tick, Collision>>,
)
    requires
        call_ensures(Watcher::<C>::tick_if_room, (w, store, seen, existing, now, max), out),
    ensures
        (*old(store)).next_id < u64::MAX ==> out is Some,
        out is None ==> final(store)@ == old(store)@,
        out is None ==> !(seen@ matches SnapshotView::Text(t) && (t.len() == 0 || !long_enough(
            w.active_config,
            t,
        ) || some_pattern_matches(w.active_config, t))),
        out is None && !(w.dedup is All) ==> (seen@ matches SnapshotView::Text(t) ==> !store_has(
            *old(store),
            Kind::Text,
            t,
        )),
        out matches Some(Ok(t)) ==> (t is Ignored <==> (seen@ matches SnapshotView::Text(x) && (
        x.len() == 0 || !long_enough(w.active_config, x) || some_pattern_matches(
            w.active_config,
            x,
        )))),
{
    if let SnapshotView::Text(t) = seen@ {
        denied_by_fields(w.active_config, t);
        let es = (*store)@.entries;
        crate::store::last_match_sound(es, Kind::Text, t);
        if store_has(*store, Kind::Text, t) {
            let i = choose|i: int|
                0 <= i < (*store).entries@.len() && has_content(
                    #[trigger] (*store).entries@[i],
                    Kind::Text,
                    t,
                );
            assert(es[i] == (*store).entries@[i]@);
        }
    }
}

/// What was seen is in the history once it was recorded, image or text.
pub proof fn roomy_tick_keeps_content<C: Clipboard>(
    w: &Watcher<C>,
    store: &mut Store,
    seen: &Snapshot,
    existing: &Option<Vec<u8>>,
    now: i64,
    max: usize,
    tick: Tick,
)
    requires
        call_ensures(
            Watcher::<C>::tick_if_room,
            (w, store, seen, existing, now, max),
            Some(Ok::<Tick, Collision>(tick)),
        ),
        !(tick is Ignored),
        fresh(*store),
        none_later(*store, now),
        max >= 1,
    ensures
        seen@ matches SnapshotView::Text(t) ==> store_has(*final(store), Kind::Text, t),
        seen@ matches SnapshotView::Image(b) ==> store_has(
            *final(store),
            Kind::Image,
            "images/"@ + (hex(fnv1a(b) as nat, 32) + ".png"@),
        ),
{
    store_is_fresh(*store, now);
    let new = entry_for(seen@, (*store)@.next_id, now);
    let at = recorded_is_there((*store)@, new, w.dedup, max as nat);
    assert(entry_views(final(store).entries@).len() == final(store).entries@.len());
    assert(final(store)@.entries[at] == final(store).entries@[at]@);
    assert(has_content(final(store).entries@[at], new.kind, new.text));
}

/// A watcher begins with the configuration it is given, remembering nothing.
pub proof fn watcher_begins_as_configured<C: Clipboard>(
    clip: C,
    cfg: &Config,
    w: Watcher<C>,
)
    requires
        call_ensures(Watcher::<C>::new, (clip, cfg), Ok::<Watcher<C>, ConfigError>(w)),
    ensures
        w.clip == clip,
        w.active_config@ == cfg@,
        w.dedup == cfg.dedup,
        w.last_seen is None,
        w.poll_ms == if cfg.poll_ms < 50 {
            50
        } else {
            cfg.poll_ms
        },
{
}

/// An image that was read is shown, a text where there is none, and a failure as the
/// failure it is.
pub proof fn reads_show_image_first(
    image: Result<Option<Vec<u8>>, ClipError>,
    text: Option<Result<String, ClipError>>,
    res: Result<Snapshot, ClipError>,
)
    requires
        call_ensures(Snapshot::of_reads, (image, text), res),
    ensures
        image matches Ok(Some(b)) ==> (res matches Ok(s) && s@ == SnapshotView::Image(b@)),
        image matches Ok(None) ==> (text matches Some(Ok(t)) ==> (res matches Ok(s) && s@
            == SnapshotView::Text(t@))),
        image matches Ok(None) ==> (text matches Some(Err(e)) ==> res is Err),
        image is Err ==> res is Err,
{
}

/// A clipboard gives back the text that was put on it, and keeps its image.
pub proof fn clipboard_gives_back_text(
    c: &mut FakeClipboard,
    text: &str,
    put: Result<(), ClipError>,
    d: &mut FakeClipboard,
    got: Result<String, ClipError>,
)
    requires
        call_ensures(FakeClipboard::set_text, (c, text), put),
        *d == *final(c),
        call_ensures(FakeClipboard::get_text, (d,), got),
    ensures
        put is Ok,
        old(c).fail_reads == 0 ==> (got matches Ok(t) && t@ == text@),
        old(c).fail_reads > 0 ==> got is Err && final(d).fail_reads == old(c).fail_reads - 1,
        final(d).text@ == text@,
{
}

/// A clipboard gives back the image that was put on it.
pub proof fn clipboard_gives_back_image(
    c: &mut FakeClipboard,
    png: &[u8],
    put: Result<(), ClipError>,
    d: &mut FakeClipboard,
    got: Result<Option<Vec<u8>>, ClipError>,
)
    requires
        call_ensures(FakeClipboard::set_image_png, (c, png), put),
        *d == *final(c),
        call_ensures(FakeClipboard::get_image_png, (d,), got),
    ensures
        put is Ok,
        got matches Ok(Some(b)) && b@ == png@,
{
}

/// Only contention is waited out.
pub proof fn only_contention_is_retried(contended: bool, ms: Option<u64>)
    requires
        call_ensures(retry_delay, (contended,), ms),
    ensures
        contended ==> ms == Some(100u64),
        !contended ==> ms is None,
{
}

} // verus!
