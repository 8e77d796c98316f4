//! The clipboard watcher: what is recorded, what is skipped, and when to look
//! again. Polling (rather than platform event hooks) keeps one code path for all
//! platforms and needs no extra privileges.

use crate::backend::{ClipError, Clipboard};
use crate::config::{clamp_poll, poll_at_least, Config, ConfigError, ConfigView, DedupMode};
use crate::entry::{image_entry, text_entry, Entry, EntryView, Kind};
use crate::filter::{accepted, Filter};
use crate::path::{join, joined};
use crate::pattern::first_bad;
use crate::store::{duplicate_of, image_path, Store, StoreView};
use crate::text::{hex, hex_injective, hex_len, hex_of, same, views};
use vstd::arithmetic::power::{lemma_pow1, lemma_pow_adds, pow};
use vstd::prelude::*;
use vstd::wrapping::u128_specs;

verus! {

// ---------------------------------------------------------------------------
// Content fingerprints

/// The 128-bit FNV-1a offset basis.
pub const FNV_OFFSET: u128 = 0x6c62272e07bb014262b821756295c58d;

/// The 128-bit FNV-1a prime.
pub const FNV_PRIME: u128 = 0x0000000001000000000000000000013b;

/// 128-bit FNV-1a: each byte is mixed in, then the sum is multiplied by the prime.
pub open spec fn fnv1a(data: Seq<u8>) -> u128
    decreases data.len(),
{
    if data.len() == 0 {
        FNV_OFFSET
    } else {
        u128_specs::wrapping_mul(fnv1a(data.drop_last()) ^ (data.last() as u128), FNV_PRIME)
    }
}

/// The fingerprint of some content: its FNV-1a hash as 32 hexadecimal digits.
pub open spec fn digest(data: Seq<u8>) -> Seq<char> {
    hex(fnv1a(data) as nat, 32)
}

/// 128-bit FNV-1a content fingerprint used for local image deduplication.
pub fn content_hash(data: &[u8]) -> (out: String)
    ensures
        out@ == digest(data@),
{
    let mut h: u128 = FNV_OFFSET;
    let mut i: usize = 0;
    while i < data.len()
        invariant
            i <= data@.len(),
            h == fnv1a(data@.take(i as int)),
        decreases data@.len() - i,
    {
        assert(data@.take(i + 1).drop_last() =~= data@.take(i as int));
        h = (h ^ (data[i] as u128)).wrapping_mul(FNV_PRIME);
        i = i + 1;
    }
    assert(data@.take(i as int) =~= data@);
    hex_of(h, 32)
}

/// The relative path under which the PNG bytes of an image are kept.
pub open spec fn image_rel(png: Seq<u8>) -> Seq<char> {
    image_path(digest(png) + ".png"@)
}

/// The relative path under which the PNG bytes of an image are kept.
pub fn image_rel_path(png: &[u8]) -> (out: String)
    ensures
        out@ == image_rel(png@),
{
    let out: String = "images/".to_owned().concat(content_hash(png).as_str()).concat(".png");
    assert(out@ =~= image_rel(png@));
    out
}

/// The number of values that 32 hexadecimal digits can write.
pub(crate) proof fn sixteen_to_the_32nd()
    ensures
        pow(16, 32) == 0x1_0000_0000_0000_0000_0000_0000_0000_0000,
{
    lemma_pow1(16);
    lemma_pow_adds(16, 1, 1);
    assert(pow(16, 2) == 0x100);
    lemma_pow_adds(16, 2, 2);
    assert(pow(16, 4) == 0x1_0000);
    lemma_pow_adds(16, 4, 4);
    assert(pow(16, 8) == 0x1_0000_0000);
    lemma_pow_adds(16, 8, 8);
    assert(pow(16, 16) == 0x1_0000_0000_0000_0000);
    lemma_pow_adds(16, 16, 16);
    assert(pow(16, 16) * pow(16, 16) == 0x1_0000_0000_0000_0000_0000_0000_0000_0000)
        by (nonlinear_arith)
        requires
            pow(16, 16) == 0x1_0000_0000_0000_0000,
    ;
}

/// Payloads share a name only where their hashes are equal: a name tells hashes
/// apart, and it always has the same length.
pub proof fn names_tell_hashes_apart(a: Seq<u8>, b: Seq<u8>)
    ensures
        digest(a).len() == 32,
        image_rel(a) == image_rel(b) <==> fnv1a(a) == fnv1a(b),
{
    hex_len(fnv1a(a) as nat, 32);
    hex_len(fnv1a(b) as nat, 32);
    if image_rel(a) == image_rel(b) {
        let k = "images/"@.len() as int;
        assert(digest(a) =~= image_rel(a).subrange(k, k + 32));
        assert(digest(b) =~= image_rel(b).subrange(k, k + 32));
        sixteen_to_the_32nd();
        hex_injective(fnv1a(a) as nat, fnv1a(b) as nat, 32);
    }
}

/// Whether two runs of bytes are the same.
pub(crate) fn same_bytes(a: &[u8], b: &[u8]) -> (res: bool)
    ensures
        res == (a@ == b@),
{
    if a.len() != b.len() {
        return false;
    }
    let mut i: usize = 0;
    while i < a.len()
        invariant
            i <= a@.len(),
            a@.len() == b@.len(),
            forall|j: int| 0 <= j < i ==> a@[j] == b@[j],
        decreases a@.len() - i,
    {
        if a[i] != b[i] {
            return false;
        }
        i = i + 1;
    }
    assert(a@ =~= b@);
    true
}

/// Whether a file that is already there holds something else than what is to be
/// kept under its name.
pub open spec fn collides(existing: Option<Vec<u8>>, bytes: Seq<u8>) -> bool {
    existing matches Some(b) && b@ != bytes
}

/// Whether a file that is already there is in the way of some bytes.
pub(crate) fn in_the_way(existing: &Option<Vec<u8>>, bytes: &[u8]) -> (res: bool)
    ensures
        res == collides(*existing, bytes@),
{
    match existing {
        Some(b) => !same_bytes(b.as_slice(), bytes),
        None => false,
    }
}

// ---------------------------------------------------------------------------
// What the watcher sees

/// What the clipboard held.
pub enum Snapshot {
    /// PNG bytes.
    Image(Vec<u8>),
    Text(String),
}

/// The model of what the clipboard held.
#[verifier::ext_equal]
pub enum SnapshotView {
    Image(Seq<u8>),
    Text(Seq<char>),
}

impl View for Snapshot {
    type V = SnapshotView;

    open spec fn view(&self) -> SnapshotView {
        match self {
            Snapshot::Image(b) => SnapshotView::Image(b@),
            Snapshot::Text(t) => SnapshotView::Text(t@),
        }
    }
}

impl SnapshotView {
    /// What tells one snapshot from the next.
    pub open spec fn fingerprint(self) -> Seq<char> {
        match self {
            SnapshotView::Image(b) => "i:"@ + digest(b),
            SnapshotView::Text(t) => "t:"@ + t,
        }
    }
}

impl Snapshot {
    /// What tells one snapshot from the next.
    pub fn fingerprint(&self) -> (out: String)
        ensures
            out@ == self@.fingerprint(),
    {
        match self {
            Snapshot::Image(b) => "i:".to_owned().concat(content_hash(b.as_slice()).as_str()),
            Snapshot::Text(t) => "t:".to_owned().concat(t.as_str()),
        }
    }

    /// What two reads of a clipboard show: its image, or where there is none its
    /// text. The text needs reading in the latter case only.
    pub fn of_reads(
        image: Result<Option<Vec<u8>>, ClipError>,
        text: Option<Result<String, ClipError>>,
    ) -> (res: Result<Snapshot, ClipError>)
        requires
            image matches Ok(None) ==> text is Some,
        ensures
            match image {
                Err(e) => res == Err::<Snapshot, ClipError>(e),
                Ok(Some(png)) => res == Ok::<Snapshot, ClipError>(Snapshot::Image(png)),
                Ok(None) => match text {
                    Some(Ok(t)) => res == Ok::<Snapshot, ClipError>(Snapshot::Text(t)),
                    Some(Err(e)) => res == Err::<Snapshot, ClipError>(e),
                    None => false,
                },
            },
    {
        match image {
            Err(e) => Err(e),
            Ok(Some(png)) => Ok(Snapshot::Image(png)),
            Ok(None) => match text.unwrap() {
                Ok(t) => Ok(Snapshot::Text(t)),
                Err(e) => Err(e),
            },
        }
    }
}

/// What a clipboard without an image shows, given what reading its text gave.
pub open spec fn text_shown(text: Result<String, ClipError>) -> Result<Snapshot, ClipError> {
    match text {
        Ok(t) => Ok(Snapshot::Text(t)),
        Err(e) => Err(e),
    }
}

/// Snapshots of different kinds, and different texts, never share a fingerprint.
pub proof fn fingerprints_differ(a: SnapshotView, b: SnapshotView)
    requires
        a != b,
        a is Image ==> b is Text,
    ensures
        a.fingerprint() != b.fingerprint(),
{
    reveal_strlit("i:");
    reveal_strlit("t:");
    let x = a.fingerprint();
    let y = b.fingerprint();
    if x == y {
        assert(x[0] == y[0]);
        match (a, b) {
            (SnapshotView::Text(s), SnapshotView::Text(t)) => {
                assert(s =~= x.skip(2));
                assert(t =~= y.skip(2));
            },
            _ => {},
        }
    }
}

// ---------------------------------------------------------------------------
// The watcher

/// What the watcher did with a snapshot.
#[derive(Debug, Clone, Copy, PartialEq, Eq, Structural)]
pub enum Tick {
    Recorded,
    Deduped,
    Ignored,
}

/// Another payload stands under the name of this one.
#[derive(Debug)]
pub struct Collision {
    pub path: String,
}

impl Collision {
    /// The failure in words.
    pub fn message(&self) -> (out: String)
        ensures
            out@ == "image payload collision at "@ + self.path@,
    {
        "image payload collision at ".to_owned().concat(self.path.as_str())
    }
}

/// The entry that a snapshot makes.
pub open spec fn entry_for(seen: SnapshotView, id: u64, now: i64) -> EntryView {
    match seen {
        SnapshotView::Text(text) => text_entry(id, now, text),
        SnapshotView::Image(png) => image_entry(id, now, image_rel(png), png.len() as u64),
    }
}

/// What the watcher did, given whether the content stood in the history already.
pub open spec fn tick_for(duplicate: Option<int>) -> Tick {
    match duplicate {
        Some(_) => Tick::Deduped,
        None => Tick::Recorded,
    }
}

/// What the run loop does next.
pub enum Step {
    /// End the run.
    Exit,
    /// Look again after so many milliseconds.
    Sleep(u64),
    /// Open the history and record this.
    Record(Snapshot),
}

/// The model of what the run loop does next.
#[verifier::ext_equal]
pub enum StepView {
    Exit,
    Sleep(u64),
    Record(SnapshotView),
}

impl View for Step {
    type V = StepView;

    open spec fn view(&self) -> StepView {
        match self {
            Step::Exit => StepView::Exit,
            Step::Sleep(ms) => StepView::Sleep(*ms),
            Step::Record(s) => StepView::Record(s@),
        }
    }
}

/// How long to wait for a history that another process holds.
pub const CONTENDED_MS: u64 = 100;

/// What follows from what was seen: a clipboard that could not be read, or one
/// that still holds what was dealt with last, is looked at again later.
pub open spec fn step_for(
    seen: Option<SnapshotView>,
    last_seen: Option<Seq<char>>,
    poll_ms: u64,
) -> StepView {
    match seen {
        None => StepView::Sleep(poll_ms),
        Some(s) => if last_seen == Some(s.fingerprint()) {
            StepView::Sleep(poll_ms)
        } else {
            StepView::Record(s)
        },
    }
}

/// What a look at a clipboard showed; nothing where it could not be read.
pub open spec fn seen_of(shown: Result<Snapshot, ClipError>) -> Option<SnapshotView> {
    match shown {
        Ok(s) => Some(s@),
        Err(_) => None,
    }
}

/// Whether two configurations differ in what they let be captured and how.
pub open spec fn rules_differ(a: ConfigView, b: ConfigView) -> bool {
    ||| a.min_length != b.min_length
    ||| a.max_length != b.max_length
    ||| a.deny_patterns != b.deny_patterns
    ||| a.dedup != b.dedup
}

/// A remembered fingerprint.
pub open spec fn seen_view(last_seen: Option<String>) -> Option<Seq<char>> {
    match last_seen {
        Some(f) => Some(f@),
        None => None,
    }
}

/// Watches a clipboard by polling it.
pub struct Watcher<C: Clipboard> {
    pub clip: C,
    /// Milliseconds between two looks at the clipboard.
    pub poll_ms: u64,
    pub filter: Filter,
    pub dedup: DedupMode,
    /// The configuration in force.
    pub active_config: Config,
    /// A polling interval that overrides the configured one.
    pub poll_override_ms: Option<u64>,
    /// The fingerprint of what was dealt with last.
    pub last_seen: Option<String>,
}

fn same_patterns(a: &Vec<String>, b: &Vec<String>) -> (res: bool)
    ensures
        res == (views(a@) == views(b@)),
{
    let ghost va = views(a@);
    let ghost vb = views(b@);
    if a.len() != b.len() {
        assert(va.len() != vb.len());
        return false;
    }
    let mut i: usize = 0;
    while i < a.len()
        invariant
            va == views(a@),
            vb == views(b@),
            a@.len() == b@.len(),
            i <= a@.len(),
            forall|j: int| 0 <= j < i ==> va[j] == vb[j],
        decreases a@.len() - i,
    {
        assert(va[i as int] == a@[i as int]@ && vb[i as int] == b@[i as int]@);
        if !same(a[i].as_str(), b[i].as_str()) {
            return false;
        }
        i = i + 1;
    }
    assert(va =~= vb);
    true
}

/// Whether a reload changes what is captured and how.
pub fn capture_rules_changed(new: &Config, active: &Config) -> (res: bool)
    ensures
        res == rules_differ(new@, active@),
{
    new.min_length != active.min_length || new.max_length != active.max_length || !same_patterns(
        &new.deny_patterns,
        &active.deny_patterns,
    ) || new.dedup != active.dedup
}

/// How long to wait before the history is opened again, where opening it failed:
/// a history that another process holds is tried again, any other failure ends
/// the run.
pub fn retry_delay(contended: bool) -> (ms: Option<u64>)
    ensures
        ms == if contended {
            Some(CONTENDED_MS)
        } else {
            None
        },
{
    if contended {
        Some(CONTENDED_MS)
    } else {
        None
    }
}

/// Record a text, given whether the capture rules accept it. An empty text is
/// never recorded.
pub fn record_judged(
    store: &mut Store,
    text: &str,
    keep: bool,
    mode: DedupMode,
    now: i64,
    max_entries: usize,
) -> (tick: Tick)
    requires
        text@.len() > 0 && keep && duplicate_of(
            old(store)@.entries,
            text_entry(old(store)@.next_id, now, text@),
            mode,
        ) is None ==> old(store)@.next_id < u64::MAX,
    ensures
        ({
            let new = text_entry(old(store)@.next_id, now, text@);
            if text@.len() == 0 || !keep {
                tick == Tick::Ignored && final(store)@ == old(store)@
            } else {
                &&& final(store)@ == old(store)@.recorded(new, mode, max_entries as nat)
                &&& tick == tick_for(duplicate_of(old(store)@.entries, new, mode))
            }
        }),
{
    if text.is_empty() || !keep {
        return Tick::Ignored;
    }
    match store.push_text_at(text, mode, now, max_entries) {
        Some(_) => Tick::Recorded,
        None => Tick::Deduped,
    }
}

impl<C: Clipboard> Watcher<C> {
    /// Whether the watcher applies the capture rules of its configuration.
    pub open spec fn wf(self) -> bool {
        self.filter.applies(self.active_config@)
    }

    /// Whether the capture rules keep out what was seen: an empty text, or one that
    /// they do not accept.
    pub open spec fn ignores(self, seen: SnapshotView) -> bool {
        seen matches SnapshotView::Text(text) && (text.len() == 0 || !accepted(
            self.active_config@,
            text,
        ))
    }

    /// Whether another payload is in the way of what was seen.
    pub open spec fn is_blocked(self, seen: SnapshotView, existing: Option<Vec<u8>>) -> bool {
        seen matches SnapshotView::Image(png) && collides(existing, png)
    }

    /// Whether what was seen becomes a new entry.
    pub open spec fn appends(
        self,
        store: StoreView,
        seen: SnapshotView,
        existing: Option<Vec<u8>>,
    ) -> bool {
        &&& !self.ignores(seen)
        &&& !self.is_blocked(seen, existing)
        &&& duplicate_of(store.entries, entry_for(seen, store.next_id, 0), self.dedup) is None
    }

    /// What becomes of what was seen, and what the history is afterwards.
    pub open spec fn ticked(
        self,
        before: StoreView,
        seen: SnapshotView,
        existing: Option<Vec<u8>>,
        now: i64,
        max_entries: usize,
        after: StoreView,
        res: Result<Tick, Collision>,
    ) -> bool {
        let new = entry_for(seen, before.next_id, now);
        if self.ignores(seen) {
            res == Ok::<Tick, Collision>(Tick::Ignored) && after == before
        } else if self.is_blocked(seen, existing) {
            &&& res matches Err(e) && e.path@ == joined(before.dir, new.text)
            &&& after == before
        } else {
            &&& res == Ok::<Tick, Collision>(
                tick_for(duplicate_of(before.entries, new, self.dedup)),
            )
            &&& after == before.recorded(new, self.dedup, max_entries as nat)
        }
    }

    /// The polling interval under a configuration.
    pub open spec fn poll_under(self, cfg: ConfigView) -> u64 {
        match self.poll_override_ms {
            Some(p) => p,
            None => poll_at_least(cfg.poll_ms),
        }
    }

    /// A watcher of a clipboard under a configuration.
    pub fn new(clip: C, cfg: &Config) -> (res: Result<Watcher<C>, ConfigError>)
        ensures
            match res {
                Ok(w) => {
                    &&& first_bad(cfg@.deny_patterns) is None
                    &&& w.wf()
                    &&& w.clip == clip
                    &&& w.poll_ms == poll_at_least(cfg.poll_ms)
                    &&& w.dedup == cfg.dedup
                    &&& w.active_config@ == cfg@
                    &&& w.poll_override_ms is None
                    &&& w.last_seen is None
                },
                Err(e) => first_bad(cfg@.deny_patterns) matches Some(why) && e
                    == ConfigError::BadPattern(why),
            },
    {
        match Filter::new(cfg) {
            Ok(filter) => Ok(
                Watcher {
                    clip,
                    poll_ms: clamp_poll(cfg.poll_ms),
                    filter,
                    dedup: cfg.dedup,
                    active_config: cfg.clone(),
                    poll_override_ms: None,
                    last_seen: None,
                },
            ),
            Err(e) => Err(e),
        }
    }

    /// Poll at a given interval, whatever the configuration says.
    pub fn with_poll_override(self, poll_ms: Option<u64>) -> (w: Watcher<C>)
        ensures
            w == (Watcher {
                poll_override_ms: match poll_ms {
                    Some(p) => Some(poll_at_least(p)),
                    None => None,
                },
                poll_ms: match poll_ms {
                    Some(p) => poll_at_least(p),
                    None => self.poll_ms,
                },
                ..self
            }),
    {
        let mut w = self;
        match poll_ms {
            Some(p) => {
                let ms: u64 = clamp_poll(p);
                w.poll_override_ms = Some(ms);
                w.poll_ms = ms;
            },
            None => {
                w.poll_override_ms = None;
            },
        }
        w
    }

    /// Take a reloaded configuration over. Where none could be read (`None`), the
    /// last valid one stays in force rather than killing a long-running watcher
    /// because an edit was momentarily incomplete. Tells whether the capture
    /// rules changed.
    pub fn reload_config(&mut self, loaded: Option<Config>) -> (res: Result<bool, ConfigError>)
        ensures
            match loaded {
                None => res == Ok::<bool, ConfigError>(false) && *final(self) == *old(self),
                Some(cfg) => match first_bad(cfg@.deny_patterns) {
                    Some(why) => res == Err::<bool, ConfigError>(ConfigError::BadPattern(why))
                        && *final(self) == *old(self),
                    None => {
                        &&& res == Ok::<bool, ConfigError>(
                            rules_differ(cfg@, old(self).active_config@),
                        )
                        &&& final(self).wf()
                        &&& final(self).active_config == cfg
                        &&& final(self).dedup == cfg.dedup
                        &&& final(self).poll_ms == old(self).poll_under(cfg@)
                        &&& final(self).poll_override_ms == old(self).poll_override_ms
                        &&& final(self).last_seen == old(self).last_seen
                        &&& final(self).clip == old(self).clip
                    },
                },
            },
    {
        match loaded {
            None => Ok(false),
            Some(cfg) => match Filter::new(&cfg) {
                Err(e) => Err(e),
                Ok(filter) => Ok(self.adopt(cfg, filter)),
            },
        }
    }

    /// Take a configuration over, with the filter made from it. Tells whether the
    /// capture rules changed.
    pub fn adopt(&mut self, cfg: Config, filter: Filter) -> (changed: bool)
        ensures
            changed == rules_differ(cfg@, old(self).active_config@),
            *final(self) == (Watcher {
                filter,
                dedup: cfg.dedup,
                poll_ms: old(self).poll_under(cfg@),
                active_config: cfg,
                ..*old(self)
            }),
    {
        let changed: bool = capture_rules_changed(&cfg, &self.active_config);
        self.filter = filter;
        self.dedup = cfg.dedup;
        self.poll_ms = match self.poll_override_ms {
            Some(p) => p,
            None => clamp_poll(cfg.poll_ms),
        };
        self.active_config = cfg;
        changed
    }

    /// Record a text, unless the capture rules keep it out.
    pub fn record_text(&self, store: &mut Store, text: &str, now: i64, max_entries: usize) -> (tick:
        Tick)
        requires
            self.wf(),
            self.appends(old(store)@, SnapshotView::Text(text@), None)
                ==> old(store)@.next_id < u64::MAX,
        ensures
            ({
                let new = text_entry(old(store)@.next_id, now, text@);
                if text@.len() == 0 || !accepted(self.active_config@, text@) {
                    tick == Tick::Ignored && final(store)@ == old(store)@
                } else {
                    &&& final(store)@ == old(store)@.recorded(new, self.dedup, max_entries as nat)
                    &&& tick == tick_for(duplicate_of(old(store)@.entries, new, self.dedup))
                }
            }),
    {
        let keep: bool = match self.filter.accepts(text) {
            Ok(b) => b,
            Err(_) => false,
        };
        record_judged(store, text, keep, self.dedup, now, max_entries)
    }

    /// Record an image, given what stands under its name already. Its PNG bytes
    /// lie under `image_rel_path`; the caller puts them there first where nothing
    /// does.
    pub fn record_image(
        &self,
        store: &mut Store,
        png: &[u8],
        existing: &Option<Vec<u8>>,
        now: i64,
        max_entries: usize,
    ) -> (res: Result<Tick, Collision>)
        requires
            !collides(*existing, png@) && duplicate_of(
                old(store)@.entries,
                image_entry(old(store)@.next_id, now, image_rel(png@), png@.len() as u64),
                self.dedup,
            ) is None ==> old(store)@.next_id < u64::MAX,
        ensures
            ({
                let rel = image_rel(png@);
                let new = image_entry(old(store)@.next_id, now, rel, png@.len() as u64);
                if collides(*existing, png@) {
                    &&& res matches Err(e) && e.path@ == joined(old(store)@.dir, rel)
                    &&& final(store)@ == old(store)@
                } else {
                    &&& res == Ok::<Tick, Collision>(
                        tick_for(duplicate_of(old(store)@.entries, new, self.dedup)),
                    )
                    &&& final(store)@ == old(store)@.recorded(new, self.dedup, max_entries as nat)
                }
            }),
    {
        let rel: String = image_rel_path(png);
        if in_the_way(existing, png) {
            return Err(Collision { path: join(store.dir.as_str(), rel.as_str()) });
        }
        let new = Entry::new_image(store.next_id, now, rel.as_str(), png.len() as u64);
        match store.record(new, self.dedup, max_entries) {
            Some(_) => Ok(Tick::Recorded),
            None => Ok(Tick::Deduped),
        }
    }

    /// Record what was seen.
    pub fn tick(
        &self,
        store: &mut Store,
        seen: &Snapshot,
        existing: &Option<Vec<u8>>,
        now: i64,
        max_entries: usize,
    ) -> (res: Result<Tick, Collision>)
        requires
            self.wf(),
            self.appends(old(store)@, seen@, *existing) ==> old(store)@.next_id < u64::MAX,
        ensures
            self.ticked(old(store)@, seen@, *existing, now, max_entries, final(store)@, res),
    {
        match seen {
            Snapshot::Text(text) => Ok(self.record_text(store, text.as_str(), now, max_entries)),
            Snapshot::Image(png) => self.record_image(
                store,
                png.as_slice(),
                existing,
                now,
                max_entries,
            ),
        }
    }

    /// Whether there is an id for what was seen, where it takes one.
    pub fn has_room(&self, store: &Store, seen: &Snapshot, existing: &Option<Vec<u8>>) -> (res: bool)
        requires
            self.wf(),
        ensures
            res == (self.appends(store@, seen@, *existing) ==> store@.next_id < u64::MAX),
    {
        if store.next_id < u64::MAX {
            return true;
        }
        match seen {
            Snapshot::Text(text) => {
                let keep: bool = match self.filter.accepts(text.as_str()) {
                    Ok(b) => b,
                    Err(_) => false,
                };
                text.as_str().is_empty() || !keep || store.suppresses(
                    Kind::Text,
                    text.as_str(),
                    self.dedup,
                )
            },
            Snapshot::Image(png) => in_the_way(existing, png.as_slice()) || store.suppresses(
                Kind::Image,
                image_rel_path(png.as_slice()).as_str(),
                self.dedup,
            ),
        }
    }

    /// Record what was seen, where there is an id for it. `None`, with the history
    /// as it was, where it would take one and there is none left.
    pub fn tick_if_room(
        &self,
        store: &mut Store,
        seen: &Snapshot,
        existing: &Option<Vec<u8>>,
        now: i64,
        max_entries: usize,
    ) -> (out: Option<Result<Tick, Collision>>)
        requires
            self.wf(),
        ensures
            match out {
                Some(res) => {
                    &&& self.appends(old(store)@, seen@, *existing) ==> old(store)@.next_id
                        < u64::MAX
                    &&& self.ticked(old(store)@, seen@, *existing, now, max_entries, final(store)@, res)
                },
                None => {
                    &&& self.appends(old(store)@, seen@, *existing)
                    &&& old(store)@.next_id == u64::MAX
                    &&& final(store)@ == old(store)@
                },
            },
    {
        if self.has_room(store, seen, existing) {
            Some(self.tick(store, seen, existing, now, max_entries))
        } else {
            None
        }
    }

    /// Look at the clipboard: its image is read first, and its text only where
    /// there is no image.
    pub fn look(&mut self) -> (res: Result<Snapshot, ClipError>)
        ensures
            *final(self) == (Watcher { clip: final(self).clip, ..*old(self) }),
            exists|i: &mut C, image: Result<Option<Vec<u8>>, ClipError>|
                {
                    &&& *i == old(self).clip
                    &&& #[trigger] call_ensures(C::get_image_png, (i,), image)
                    &&& match image {
                        Ok(Some(png)) => *final(i) == final(self).clip && res == Ok::<
                            Snapshot,
                            ClipError,
                        >(Snapshot::Image(png)),
                        Err(e) => *final(i) == final(self).clip && res == Err::<
                            Snapshot,
                            ClipError,
                        >(e),
                        Ok(None) => exists|t: &mut C, text: Result<String, ClipError>|
                            {
                                &&& *t == *final(i)
                                &&& *final(t) == final(self).clip
                                &&& #[trigger] call_ensures(C::get_text, (t,), text)
                                &&& res == text_shown(text)
                            },
                    }
                },
    {
        let image: Result<Option<Vec<u8>>, ClipError> = self.clip.get_image_png();
        let text: Option<Result<String, ClipError>> = match &image {
            Ok(None) => Some(self.clip.get_text()),
            _ => None,
        };
        Snapshot::of_reads(image, text)
    }

    /// What to do about what was seen.
    pub fn decide(&self, seen: Option<Snapshot>) -> (step: Step)
        ensures
            step@ == step_for(
                match seen {
                    Some(s) => Some(s@),
                    None => None,
                },
                seen_view(self.last_seen),
                self.poll_ms,
            ),
    {
        match seen {
            None => Step::Sleep(self.poll_ms),
            Some(s) => {
                let fingerprint: String = s.fingerprint();
                let known: bool = match &self.last_seen {
                    Some(f) => same(f.as_str(), fingerprint.as_str()),
                    None => false,
                };
                if known {
                    Step::Sleep(self.poll_ms)
                } else {
                    Step::Record(s)
                }
            },
        }
    }

    /// One turn of the run loop, up to the point where the history is needed. A
    /// change of the capture rules can make an unchanged clipboard eligible
    /// again.
    pub fn next(&mut self, stop: bool, loaded: Option<Config>) -> (res: Result<Step, ConfigError>)
        requires
            old(self).wf(),
        ensures
            final(self).wf(),
            final(self).poll_override_ms == old(self).poll_override_ms,
            stop ==> res == Ok::<Step, ConfigError>(Step::Exit) && *final(self) == *old(self),
            !stop ==> match loaded {
                None => {
                    &&& *final(self) == (Watcher { clip: final(self).clip, ..*old(self) })
                    &&& res is Ok
                },
                Some(cfg) => match first_bad(cfg@.deny_patterns) {
                    Some(why) => res == Err::<Step, ConfigError>(ConfigError::BadPattern(why))
                        && *final(self) == *old(self),
                    None => {
                        &&& res is Ok
                        &&& final(self).active_config == cfg
                        &&& final(self).dedup == cfg.dedup
                        &&& final(self).poll_ms == old(self).poll_under(cfg@)
                        &&& final(self).last_seen == if rules_differ(
                            cfg@,
                            old(self).active_config@,
                        ) {
                            None
                        } else {
                            old(self).last_seen
                        }
                    },
                },
            },
            !stop ==> (res matches Ok(step) ==> exists|shown: Result<Snapshot, ClipError>|
                {
                    &&& step@ == step_for(
                        #[trigger] seen_of(shown),
                        seen_view(final(self).last_seen),
                        final(self).poll_ms,
                    )
                    &&& exists|i: &mut C, image: Result<Option<Vec<u8>>, ClipError>|
                        {
                            &&& *i == old(self).clip
                            &&& #[trigger] call_ensures(C::get_image_png, (i,), image)
                            &&& match image {
                                Ok(Some(png)) => *final(i) == final(self).clip && shown == Ok::<
                                    Snapshot,
                                    ClipError,
                                >(Snapshot::Image(png)),
                                Err(e) => *final(i) == final(self).clip && shown == Err::<
                                    Snapshot,
                                    ClipError,
                                >(e),
                                Ok(None) => exists|t: &mut C, text: Result<String, ClipError>|
                                    {
                                        &&& *t == *final(i)
                                        &&& *final(t) == final(self).clip
                                        &&& #[trigger] call_ensures(C::get_text, (t,), text)
                                        &&& shown == text_shown(text)
                                    },
                            }
                        }
                }),
    {
        if stop {
            return Ok(Step::Exit);
        }
        match self.reload_config(loaded) {
            Err(e) => {
                return Err(e);
            },
            Ok(changed) => {
                if changed {
                    self.last_seen = None;
                }
            },
        }
        let shown: Result<Snapshot, ClipError> = self.look();
        let seen: Option<Snapshot> = match shown {
            Ok(s) => Some(s),
            Err(_) => None,
        };
        assert(seen_of(shown) == match seen {
            Some(s) => Some(s@),
            None => None,
        });
        Ok(self.decide(seen))
    }

    /// Remember what was dealt with. What could not be recorded is tried again.
    pub fn settle(&mut self, seen: &Snapshot, recorded: bool)
        ensures
            seen_view(final(self).last_seen) == if recorded {
                Some(seen@.fingerprint())
            } else {
                seen_view(old(self).last_seen)
            },
            *final(self) == (Watcher { last_seen: final(self).last_seen, ..*old(self) }),
    {
        if recorded {
            self.last_seen = Some(seen.fingerprint());
        }
    }
}

/// What was recorded is not recorded again while it stays on the clipboard and
/// the capture rules stay as they are.
pub proof fn settled_is_skipped(seen: SnapshotView, poll_ms: u64)
    ensures
        step_for(Some(seen), Some(seen.fingerprint()), poll_ms) == StepView::Sleep(poll_ms),
{
}

/// After a change of the capture rules whatever is on the clipboard is looked at
/// afresh.
pub proof fn forgotten_is_recorded(seen: SnapshotView, poll_ms: u64)
    ensures
        step_for(Some(seen), None, poll_ms) == StepView::Record(seen),
{
}

/// A text that replaces another on the clipboard, or an image, is recorded.
pub proof fn changed_text_is_recorded(last: SnapshotView, text: Seq<char>, poll_ms: u64)
    requires
        last != SnapshotView::Text(text),
    ensures
        step_for(Some(SnapshotView::Text(text)), Some(last.fingerprint()), poll_ms)
            == StepView::Record(SnapshotView::Text(text)),
{
    fingerprints_differ(SnapshotView::Text(text), last);
}

} // verus!
