//! One recorded clipboard event.
//!
//! Text payloads are held inline; image payloads lie in `images/<hash>.png`
//! next to the history file and are referenced by that relative path.

use crate::path::{join, joined};
use crate::text::{
    byte_len, chars_of, collect, decimal, has_char, is_control, is_control_char, lines, lines_of,
    push_decimal,
};
use vstd::prelude::*;

verus! {

/// Kind of payload captured from the clipboard.
#[derive(Debug, Clone, Copy, PartialEq, Eq, Structural)]
pub enum Kind {
    Text,
    Image,
}

/// One recorded clipboard event.
#[derive(Debug)]
pub struct Entry {
    pub id: u64,
    /// Unix timestamp in milliseconds.
    pub ts: i64,
    pub kind: Kind,
    /// The text itself, or the relative path of an image payload.
    pub text: String,
    /// Byte length of the original payload.
    pub size: u64,
    pub pinned: bool,
}

/// The model of an entry: its fields, with the text as characters.
#[verifier::ext_equal]
pub struct EntryView {
    pub id: u64,
    pub ts: i64,
    pub kind: Kind,
    pub text: Seq<char>,
    pub size: u64,
    pub pinned: bool,
}

impl View for Entry {
    type V = EntryView;

    open spec fn view(&self) -> EntryView {
        EntryView {
            id: self.id,
            ts: self.ts,
            kind: self.kind,
            text: self.text@,
            size: self.size,
            pinned: self.pinned,
        }
    }
}

impl Clone for Entry {
    fn clone(&self) -> (out: Entry)
        ensures
            out@ == self@,
    {
        Entry {
            id: self.id,
            ts: self.ts,
            kind: self.kind,
            text: self.text.clone(),
            size: self.size,
            pinned: self.pinned,
        }
    }
}

/// The first line of a text; nothing where the text has no line.
pub open spec fn first_line(s: Seq<char>) -> Seq<char> {
    if lines(s).len() > 0 {
        lines(s)[0]
    } else {
        seq![]
    }
}

/// A text without its control characters.
pub open spec fn without_controls(s: Seq<char>) -> Seq<char> {
    s.filter(|c: char| !is_control_char(c))
}

/// A text cut down to `max` characters, the last of them an ellipsis where
/// something was cut and there is room for one.
pub open spec fn shortened(s: Seq<char>, max: nat) -> Seq<char> {
    if s.len() <= max {
        s
    } else if max == 0 {
        seq![]
    } else {
        s.take(max - 1).push('\u{2026}')
    }
}

/// The quotient rounded to the nearest integer, a tie to the even one.
pub open spec fn rounded(n: nat, d: nat) -> nat {
    if 2 * (n % d) > d || (2 * (n % d) == d && (n / d) % 2 == 1) {
        n / d + 1
    } else {
        n / d
    }
}

/// The distance between neighbouring double-precision numbers at `n`.
pub open spec fn double_gap(n: nat) -> nat
    decreases n,
{
    if n < 0x20_0000_0000_0000 {
        1
    } else {
        2 * double_gap(n / 2)
    }
}

/// The integer that a count becomes as a double-precision number.
pub open spec fn as_double(n: nat) -> nat {
    rounded(n, double_gap(n)) * double_gap(n)
}

/// A byte count in a larger unit with one decimal, as in `3.4 KiB`.
pub open spec fn in_unit(size: nat, unit: nat, name: Seq<char>) -> Seq<char> {
    let tenths = rounded(as_double(size) * 10, unit);
    decimal(tenths / 10) + seq!['.'] + decimal(tenths % 10) + name
}

impl EntryView {
    /// Single-line summary: the first line without control characters, or a label
    /// for an image, cut to `max` characters.
    pub open spec fn preview(self, max: nat) -> Seq<char> {
        match self.kind {
            Kind::Image => shortened("[image]"@, max),
            Kind::Text => shortened(without_controls(first_line(self.text)), max),
        }
    }

    /// Whether the entry is a text of more than one line.
    pub open spec fn is_multiline(self) -> bool {
        self.kind is Text && self.text.contains('\n')
    }

    /// Whole seconds since the entry was recorded; none for a time to come.
    pub open spec fn age_secs(self, now_ms: i64) -> nat {
        if now_ms < self.ts {
            0
        } else {
            ((now_ms - self.ts) / 1000) as nat
        }
    }

    /// Age in the largest whole unit, as in `3s`, `5m`, `2h`, `4d`.
    pub open spec fn age(self, now_ms: i64) -> Seq<char> {
        let secs = self.age_secs(now_ms);
        if secs < 60 {
            decimal(secs).push('s')
        } else if secs < 3600 {
            decimal(secs / 60).push('m')
        } else if secs < 86400 {
            decimal(secs / 3600).push('h')
        } else {
            decimal(secs / 86400).push('d')
        }
    }

    /// Size for humans, as in `12 B` and `3.4 KiB`.
    pub open spec fn human_size(self) -> Seq<char> {
        let size = self.size as nat;
        if size < 1024 {
            decimal(size) + " B"@
        } else if size < 1048576 {
            in_unit(size, 1024, " KiB"@)
        } else if size < 1073741824 {
            in_unit(size, 1048576, " MiB"@)
        } else {
            in_unit(size, 1073741824, " GiB"@)
        }
    }

    /// Where the payload of an image entry lies.
    pub open spec fn payload_path(self, store_dir: Seq<char>) -> Option<Seq<char>> {
        match self.kind {
            Kind::Text => None,
            Kind::Image => Some(joined(store_dir, self.text)),
        }
    }
}

/// A new, unpinned text entry.
pub open spec fn text_entry(id: u64, ts: i64, text: Seq<char>) -> EntryView {
    EntryView {
        id,
        ts,
        kind: Kind::Text,
        text,
        size: vstd::utf8::encode_utf8(text).len() as u64,
        pinned: false,
    }
}

/// A new, unpinned image entry.
pub open spec fn image_entry(id: u64, ts: i64, rel_path: Seq<char>, size: u64) -> EntryView {
    EntryView { id, ts, kind: Kind::Image, text: rel_path, size, pinned: false }
}

fn round_half_even(n: u128, d: u128) -> (q: u128)
    requires
        0 < d < 0x1_0000_0000_0000_0000,
        n < 0x1_0000_0000_0000_0000_0000_0000,
    ensures
        q == rounded(n as nat, d as nat),
        q <= n / d + 1,
{
    let q: u128 = n / d;
    let r: u128 = n % d;
    assert(q <= n) by (nonlinear_arith)
        requires
            q == n / d,
            d > 0,
    ;
    assert(r < d) by (nonlinear_arith)
        requires
            r == n % d,
            d > 0,
    ;
    if 2 * r > d || (2 * r == d && q % 2 == 1) {
        q + 1
    } else {
        q
    }
}

fn to_double(n: u64) -> (v: u128)
    ensures
        v == as_double(n as nat),
        v <= 0x1_0000_0000_0000_1000,
{
    let mut gap: u128 = 1;
    let mut m: u64 = n;
    while m >= 0x20_0000_0000_0000
        invariant
            double_gap(n as nat) == gap * double_gap(m as nat),
            gap * m <= n,
            0 < gap,
            m >= 0x10_0000_0000_0000 || gap == 1,
        decreases m,
    {
        proof {
            assert(double_gap(m as nat) == 2 * double_gap((m / 2) as nat));
            assert((gap * 2) * double_gap((m / 2) as nat) == gap * double_gap(m as nat))
                by (nonlinear_arith)
                requires
                    double_gap(m as nat) == 2 * double_gap((m / 2) as nat),
            ;
            assert(gap * 2 * (m / 2) <= gap * m) by (nonlinear_arith);
            assert(gap <= 0x800) by (nonlinear_arith)
                requires
                    gap * m <= 0xffff_ffff_ffff_ffff,
                    m >= 0x20_0000_0000_0000,
            ;
        }
        gap = gap * 2;
        m = m / 2;
    }
    proof {
        assert(double_gap(m as nat) == 1);
        assert(gap * 1 == gap) by (nonlinear_arith);
        assert(gap <= 0x1000) by (nonlinear_arith)
            requires
                gap * m <= 0xffff_ffff_ffff_ffff,
                m >= 0x10_0000_0000_0000 || gap == 1,
        ;
    }
    let q: u128 = round_half_even(n as u128, gap);
    assert(q * gap <= n + gap) by (nonlinear_arith)
        requires
            q <= n as u128 / gap + 1,
            gap > 0,
    ;
    q * gap
}

fn push_in_unit(out: &mut String, size: u64, unit: u128, name: &str)
    requires
        1024 <= unit < 0x1_0000_0000_0000_0000,
    ensures
        final(out)@ == old(out)@ + in_unit(size as nat, unit as nat, name@),
{
    let v: u128 = to_double(size);
    let tenths: u128 = round_half_even(v * 10, unit);
    assert(v * 10 / unit as int <= v * 10 / 1024) by (nonlinear_arith)
        requires
            unit >= 1024,
            v >= 0,
    ;
    push_decimal(out, (tenths / 10) as u64);
    out.push('.');
    push_decimal(out, (tenths % 10) as u64);
    out.append(name);
    assert(out@ =~= old(out)@ + in_unit(size as nat, unit as nat, name@));
}

/// Drop the control characters of a text.
fn strip_controls(s: &str) -> (out: Vec<char>)
    ensures
        out@ == without_controls(s@),
{
    let mut out: Vec<char> = Vec::new();
    let ghost keep = |c: char| !is_control_char(c);
    assert(s@.take(0) =~= Seq::<char>::empty());
    reveal(Seq::filter);
    for c in it: s.chars()
        invariant
            it.seq() == s@,
            keep == (|c: char| !is_control_char(c)),
            out@ == s@.take(it.index() as int).filter(keep),
    {
        proof {
            let k = it.index() as int;
            assert(s@.take(k + 1).drop_last() =~= s@.take(k));
            assert(s@.take(k + 1).last() == c);
            reveal(Seq::filter);
        }
        if !is_control(c) {
            out.push(c);
        }
    }
    assert(s@.take(s@.len() as int) =~= s@);
    out
}

impl Entry {
    /// Build a text entry. The timestamp is given so that callers can fix it.
    pub fn new_text(id: u64, ts: i64, text: &str) -> (e: Entry)
        ensures
            e@ == text_entry(id, ts, text@),
            e.size == vstd::utf8::encode_utf8(text@).len(),
    {
        let size: u64 = byte_len(text) as u64;
        Entry { id, ts, kind: Kind::Text, text: text.to_owned(), size, pinned: false }
    }

    /// Build an image entry pointing at a stored PNG file.
    pub fn new_image(id: u64, ts: i64, rel_path: &str, size: u64) -> (e: Entry)
        ensures
            e@ == image_entry(id, ts, rel_path@, size),
    {
        Entry { id, ts, kind: Kind::Image, text: rel_path.to_owned(), size, pinned: false }
    }

    /// Single-line summary used by list views: first line only (a label for an
    /// image), control characters stripped, hard-truncated to `max` characters.
    pub fn preview(&self, max: usize) -> (out: String)
        ensures
            out@ == self@.preview(max as nat),
            out@.len() <= max,
    {
        let line: Vec<char> = match self.kind {
            Kind::Image => chars_of("[image]"),
            Kind::Text => {
                let all = lines_of(self.text.as_str());
                if all.len() > 0 {
                    assert(all@[0]@ == crate::text::views(all@)[0]);
                    strip_controls(all[0].as_str())
                } else {
                    assert(without_controls(seq![]) =~= seq![]) by {
                        reveal(Seq::filter);
                    }
                    Vec::new()
                }
            },
        };
        if line.len() <= max {
            let whole = collect(&line, 0, line.len());
            assert(whole@ =~= line@);
            whole
        } else if max == 0 {
            let none = String::new();
            assert(none@ =~= Seq::<char>::empty());
            none
        } else {
            let mut cut = collect(&line, 0, max - 1);
            cut.push('\u{2026}');
            assert(cut@ =~= self@.preview(max as nat));
            cut
        }
    }

    /// Whether the entry is a text of more than one line.
    pub fn is_multiline(&self) -> (res: bool)
        ensures
            res == self@.is_multiline(),
    {
        match self.kind {
            Kind::Text => has_char(self.text.as_str(), '\n'),
            Kind::Image => false,
        }
    }

    /// Human-readable age like "3s", "5m", "2h", "4d".
    pub fn age(&self, now_ms: i64) -> (out: String)
        requires
            i64::MIN <= now_ms - self.ts <= i64::MAX,
        ensures
            out@ == self@.age(now_ms),
    {
        let ms: i64 = now_ms - self.ts;
        let secs: u64 = if ms < 0 {
            0
        } else {
            (ms / 1000) as u64
        };
        assert(secs == self@.age_secs(now_ms));
        let mut out = String::new();
        let unit: char = if secs < 60 {
            push_decimal(&mut out, secs);
            's'
        } else if secs < 3600 {
            push_decimal(&mut out, secs / 60);
            'm'
        } else if secs < 86400 {
            push_decimal(&mut out, secs / 3600);
            'h'
        } else {
            push_decimal(&mut out, secs / 86400);
            'd'
        };
        out.push(unit);
        assert(out@ =~= self@.age(now_ms));
        out
    }

    /// Size rendered for humans ("12 B", "3.4 KiB", ...).
    pub fn human_size(&self) -> (out: String)
        ensures
            out@ == self@.human_size(),
    {
        let mut out = String::new();
        if self.size < 1024 {
            push_decimal(&mut out, self.size);
            out.append(" B");
        } else if self.size < 1048576 {
            push_in_unit(&mut out, self.size, 1024, " KiB");
        } else if self.size < 1073741824 {
            push_in_unit(&mut out, self.size, 1048576, " MiB");
        } else {
            push_in_unit(&mut out, self.size, 1073741824, " GiB");
        }
        assert(out@ =~= self@.human_size());
        out
    }

    /// Resolve the path of the payload for image entries.
    pub fn payload_path(&self, store_dir: &str) -> (out: Option<String>)
        ensures
            match out {
                Some(p) => self@.payload_path(store_dir@) == Some(p@),
                None => self@.payload_path(store_dir@) is None,
            },
    {
        match self.kind {
            Kind::Text => None,
            Kind::Image => Some(join(store_dir, self.text.as_str())),
        }
    }
}

/// `std::time::SystemTime`, a reading of the system clock.
#[verifier::external_type_specification]
#[verifier::external_body]
pub struct ExSystemTime(std::time::SystemTime);

/// `std::time::SystemTimeError`, that a time lies before another.
#[verifier::external_type_specification]
#[verifier::external_body]
pub struct ExSystemTimeError(std::time::SystemTimeError);

/// The time from the start of 1970 to a reading of the clock, as
/// `SystemTime::duration_since` measures it; `None` for an earlier reading.
pub uninterp spec fn since_1970(t: std::time::SystemTime) -> Option<core::time::Duration>;

/// The whole milliseconds of a stretch of time, as `Duration::as_millis` counts
/// them.
pub uninterp spec fn whole_millis(d: core::time::Duration) -> u128;

/// `SystemTime::now` reads the system clock. Nothing is claimed of the reading.
pub assume_specification[ std::time::SystemTime::now ]() -> std::time::SystemTime;

/// `SystemTime::duration_since` the start of 1970: the time that lies between, or
/// an error for a reading before it, depending on the reading alone.
#[verifier::external_body]
fn measure(t: &std::time::SystemTime) -> (res: Result<
    core::time::Duration,
    std::time::SystemTimeError,
>)
    ensures
        match res {
            Ok(d) => since_1970(*t) == Some(d),
            Err(_) => since_1970(*t) is None,
        },
{
    t.duration_since(std::time::UNIX_EPOCH)
}

/// `Duration::as_millis` counts the whole milliseconds of a stretch of time.
pub assume_specification[ core::time::Duration::as_millis ](d: &core::time::Duration) -> (ms: u128)
    ensures
        ms == whole_millis(*d),
;

/// The low 64 bits of a number, read as a signed one.
pub open spec fn low_64(n: nat) -> int {
    let low = n % 0x1_0000_0000_0000_0000;
    if low < 0x8000_0000_0000_0000 {
        low as int
    } else {
        low - 0x1_0000_0000_0000_0000
    }
}

/// Milliseconds since the start of 1970 as a timestamp; a time before reads as
/// zero.
pub open spec fn stamp(reading: Option<u128>) -> int {
    match reading {
        Some(n) => low_64(n as nat),
        None => 0,
    }
}

/// The milliseconds from the start of 1970 to a reading of the clock.
pub open spec fn millis_at(t: std::time::SystemTime) -> Option<u128> {
    match since_1970(t) {
        Some(d) => Some(whole_millis(d)),
        None => None,
    }
}

/// Milliseconds since the start of 1970 as a timestamp; a time before reads as
/// zero.
pub fn timestamp(reading: Option<u128>) -> (ms: i64)
    ensures
        ms == stamp(reading),
{
    match reading {
        Some(n) => {
            let low: i128 = (n % 0x1_0000_0000_0000_0000) as i128;
            if low < 0x8000_0000_0000_0000 {
                low as i64
            } else {
                (low - 0x1_0000_0000_0000_0000) as i64
            }
        },
        None => 0,
    }
}

/// Current wall-clock time as Unix milliseconds.
pub fn now_ms() -> (ms: i64)
    ensures
        exists|t: std::time::SystemTime| ms == stamp(#[trigger] millis_at(t)),
{
    let t: std::time::SystemTime = std::time::SystemTime::now();
    let reading: Option<u128> = match measure(&t) {
        Ok(d) => Some(d.as_millis()),
        Err(_) => None,
    };
    assert(reading == millis_at(t));
    timestamp(reading)
}

/// A preview fits where it is put: it has at most `max` characters, and none of
/// them is a control character, so none breaks the line.
pub proof fn preview_fits(e: EntryView, max: nat)
    ensures
        e.preview(max).len() <= max,
        forall|i: int|
            0 <= i < e.preview(max).len() ==> !is_control_char(#[trigger] e.preview(max)[i]),
{
    let clean = match e.kind {
        Kind::Image => "[image]"@,
        Kind::Text => without_controls(first_line(e.text)),
    };
    assert forall|i: int| 0 <= i < clean.len() implies !is_control_char(#[trigger] clean[i]) by {
        match e.kind {
            Kind::Image => {
                reveal_strlit("[image]");
            },
            Kind::Text => {
                filtered_pass(first_line(e.text), |c: char| !is_control_char(c), i);
            },
        }
    }
    assert forall|i: int| 0 <= i < e.preview(max).len() implies !is_control_char(
        #[trigger] e.preview(max)[i],
    ) by {
        if clean.len() > max && i == max - 1 {
            assert(e.preview(max)[i] == '\u{2026}');
        } else {
            assert(e.preview(max)[i] == clean[i]);
        }
    }
}

proof fn filtered_pass(s: Seq<char>, keep: spec_fn(char) -> bool, i: int)
    requires
        0 <= i < s.filter(keep).len(),
    ensures
        keep(s.filter(keep)[i]),
    decreases s.len(),
{
    reveal(Seq::filter);
    let head = s.drop_last().filter(keep);
    if i < head.len() {
        filtered_pass(s.drop_last(), keep, i);
    }
}

/// A short, clean first line is previewed as it is.
pub proof fn short_line_is_kept(e: EntryView, max: nat)
    requires
        e.kind is Text,
        first_line(e.text).len() <= max,
        forall|i: int|
            0 <= i < first_line(e.text).len() ==> !is_control_char(#[trigger] first_line(e.text)[i]),
    ensures
        e.preview(max) == first_line(e.text),
{
    all_pass(first_line(e.text), |c: char| !is_control_char(c));
}

pub(crate) proof fn all_pass(s: Seq<char>, keep: spec_fn(char) -> bool)
    requires
        forall|i: int| 0 <= i < s.len() ==> keep(#[trigger] s[i]),
    ensures
        s.filter(keep) == s,
    decreases s.len(),
{
    reveal(Seq::filter);
    if s.len() > 0 {
        assert forall|i: int| 0 <= i < s.drop_last().len() implies keep(
            #[trigger] s.drop_last()[i],
        ) by {
            assert(s.drop_last()[i] == s[i]);
        }
        all_pass(s.drop_last(), keep);
        assert(keep(s[s.len() - 1]));
        assert(s.drop_last().push(s.last()) =~= s);
    } else {
        assert(s.filter(keep) =~= s);
    }
}

} // verus!
