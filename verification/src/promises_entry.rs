//! What entries, paths and services promise, told of what goes in and what comes
//! out.

use crate::entry::{
    as_double, first_line, in_unit, rounded, timestamp, without_controls, Entry,
};
use crate::path::{join, set_extension, trimmed};
use crate::replace::{side_files, SideFiles};
use crate::service::{
    install, install_steps, render_unit, status, uninstall, uninstall_steps, unit_path, Plan, Platform,
    ServiceError, ServiceStep, ServiceStepView,
};
use crate::text::{decimal, is_control_char, lines, pad_left};
use vstd::prelude::*;

verus! {

// ---------------------------------------------------------------------------
// Entries

/// A new text entry is the text, unpinned, with the id and time given and the number
/// of its bytes.
pub proof fn text_entry_is_the_text(id: u64, ts: i64, text: &str, e: Entry)
    requires
        call_ensures(Entry::new_text, (id, ts, text), e),
    ensures
        e.id == id,
        e.ts == ts,
        e.kind is Text,
        e.text@ == text@,
        e.size == vstd::utf8::encode_utf8(text@).len(),
        !e.pinned,
{
}

/// A new image entry is the path, unpinned, with the id, time and size given.
pub proof fn image_entry_is_the_path(id: u64, ts: i64, path: &str, size: u64, e: Entry)
    requires
        call_ensures(Entry::new_image, (id, ts, path, size), e),
    ensures
        e.id == id,
        e.ts == ts,
        e.kind is Image,
        e.text@ == path@,
        e.size == size,
        !e.pinned,
{
}

/// A text without line feeds, carriage returns and control characters is previewed as
/// it is where it fits, and otherwise cut, with an ellipsis in the last place.
pub proof fn plain_text_is_previewed(e: &Entry, max: usize, out: String)
    requires
        call_ensures(Entry::preview, (e, max), out),
        e.kind is Text,
        forall|i: int|
            0 <= i < e.text@.len() ==> !((#[trigger] e.text@[i]) as u32 <= 0x1f || 0x7f
                <= e.text@[i] as u32 <= 0x9f),
    ensures
        e.text@.len() <= max ==> out@ == e.text@,
        e.text@.len() > max ==> out@.len() == max,
        e.text@.len() > max && max > 0 ==> out@.last() == '…' && out@.take(max - 1)
            == e.text@.take(max - 1),
{
    let t = e.text@;
    assert forall|i: int| 0 <= i < t.len() implies !is_control_char(#[trigger] t[i]) by {}
    assert(!t.contains('\n')) by {
        if t.contains('\n') {
            let i = choose|i: int| 0 <= i < t.len() && t[i] == '\n';
            assert(is_control_char(t[i]));
        }
    }
    crate::text::lines_last(t);
    assert(first_line(t) =~= t);
    crate::entry::all_pass(t, |c: char| !is_control_char(c));
    assert(without_controls(first_line(t)) == t);
    if t.len() > max && max > 0 {
        assert(out@.take(max - 1) =~= t.take(max - 1));
    }
}

/// Only the first line counts: texts that agree up to their first line feed have the
/// same preview.
pub proof fn preview_is_of_the_first_line(
    a: &Entry,
    b: &Entry,
    head: Seq<char>,
    max: usize,
    x: String,
    y: String,
)
    requires
        call_ensures(Entry::preview, (a, max), x),
        call_ensures(Entry::preview, (b, max), y),
        a.kind is Text,
        b.kind is Text,
        !head.contains('\n'),
        (head + seq!['\n']).is_prefix_of(a.text@),
        (head + seq!['\n']).is_prefix_of(b.text@),
    ensures
        x@ == y@,
{
    let n = head.len() as int + 1;
    let p = a.text@.skip(n);
    let q = b.text@.skip(n);
    assert(head + seq!['\n'] + p =~= a.text@);
    assert(head + seq!['\n'] + q =~= b.text@);
    crate::text::lines_step(head, p);
    crate::text::lines_step(head, q);
    assert(first_line(a.text@) == first_line(b.text@));
}

/// A preview keeps every character of the first line that is no control character,
/// in order, as far as there is room.
pub proof fn preview_drops_controls_only(e: &Entry, max: usize, out: String, full: Seq<char>)
    requires
        call_ensures(Entry::preview, (e, max), out),
        e.kind is Text,
        lines(e.text@).len() > 0,
        full == lines(e.text@)[0].filter(
            |c: char| !(c as u32 <= 0x1f || 0x7f <= c as u32 <= 0x9f),
        ),
    ensures
        full.len() <= max ==> out@ == full,
        full.len() > max ==> out@.len() == max,
        full.len() > max && max > 0 ==> out@.last() == '…' && out@.take(max - 1) == full.take(
            max - 1,
        ),
{
    same_filter(lines(e.text@)[0]);
    if full.len() > max && max > 0 {
        assert(out@.take(max - 1) =~= full.take(max - 1));
    }
}

proof fn same_filter(s: Seq<char>)
    ensures
        without_controls(s) == s.filter(
            |c: char| !(c as u32 <= 0x1f || 0x7f <= c as u32 <= 0x9f),
        ),
    decreases s.len(),
{
    reveal(Seq::filter);
    if s.len() > 0 {
        same_filter(s.drop_last());
    }
}

/// An entry has more lines exactly where it is a text with a line feed in it.
pub proof fn multiline_means_line_feed(e: &Entry, res: bool)
    requires
        call_ensures(Entry::is_multiline, (e,), res),
    ensures
        res <==> e.kind is Text && exists|i: int|
            0 <= i < e.text@.len() && #[trigger] e.text@[i] == '\n',
{
}

/// How many milliseconds a unit of age has.
pub open spec fn unit_millis(unit: char) -> int {
    if unit == 's' {
        1000
    } else if unit == 'm' {
        60_000
    } else if unit == 'h' {
        3_600_000
    } else {
        86_400_000
    }
}

/// An age is the whole number of the largest unit that fits: seconds below a minute,
/// minutes below an hour, hours below a day, then days; a time to come has no age.
pub proof fn age_is_in_whole_units(e: &Entry, now: i64, out: String)
    requires
        call_ensures(Entry::age, (e, now), out),
    ensures
        exists|n: nat, unit: char|
            {
                let ms = if now < e.ts {
                    0
                } else {
                    now - e.ts
                };
                &&& out@ == #[trigger] decimal(n).push(unit)
                &&& n * unit_millis(unit) <= ms < (n + 1) * unit_millis(unit)
                &&& ms < 60_000 ==> unit == 's'
                &&& 60_000 <= ms < 3_600_000 ==> unit == 'm'
                &&& 3_600_000 <= ms < 86_400_000 ==> unit == 'h'
                &&& 86_400_000 <= ms ==> unit == 'd'
            },
{
    let ms: int = if now < e.ts {
        0
    } else {
        now - e.ts
    };
    let secs = e@.age_secs(now);
    assert(secs == ms / 1000);
    if secs < 60 {
        assert(out@ == decimal(secs).push('s'));
    } else if secs < 3600 {
        assert(out@ == decimal(secs / 60).push('m'));
    } else if secs < 86400 {
        assert(out@ == decimal(secs / 3600).push('h'));
    } else {
        assert(out@ == decimal(secs / 86400).push('d'));
    }
}

proof fn rounding_is_near(n: nat, d: nat)
    requires
        d > 0,
    ensures
        2 * (rounded(n, d) * d) <= 2 * n + d,
        2 * n <= 2 * (rounded(n, d) * d) + d,
{
    let q = n / d;
    let r = n % d;
    vstd::arithmetic::div_mod::lemma_fundamental_div_mod(n as int, d as int);
    assert(n == q * d + r && r < d) by (nonlinear_arith)
        requires
            n == d * q + r,
            r == n % d,
            d > 0,
    ;
    assert((q + 1) * d == q * d + d) by (nonlinear_arith);
}

proof fn small_counts_are_exact(n: nat)
    requires
        n < 0x20_0000_0000_0000,
    ensures
        as_double(n) == n,
{
    assert(crate::entry::double_gap(n) == 1);
    assert(n % 1 == 0 && n / 1 == n);
}

/// A size is in bytes below a kibibyte, and otherwise in the largest unit that fits,
/// up to gibibytes, with one decimal: the nearest tenth.
pub proof fn size_is_the_nearest_tenth(e: &Entry, out: String)
    requires
        call_ensures(Entry::human_size, (e,), out),
        e.size < 0x20_0000_0000_0000,
    ensures
        e.size < 1024 ==> out@ == decimal(e.size as nat) + " B"@,
        e.size >= 1024 ==> exists|tenths: nat|
            {
                let (unit, name) = if e.size < 1048576 {
                    (1024int, " KiB"@)
                } else if e.size < 1073741824 {
                    (1048576, " MiB"@)
                } else {
                    (1073741824, " GiB"@)
                };
                &&& out@ == #[trigger] decimal(tenths / 10) + seq!['.'] + decimal(tenths % 10)
                    + name
                &&& 2 * (tenths * unit) <= 20 * e.size + unit
                &&& 20 * e.size <= 2 * (tenths * unit) + unit
            },
{
    let size = e.size as nat;
    small_counts_are_exact(size);
    if size >= 1024 {
        let unit: nat = if size < 1048576 {
            1024
        } else if size < 1073741824 {
            1048576
        } else {
            1073741824
        };
        let tenths = rounded(as_double(size) * 10, unit);
        rounding_is_near(as_double(size) * 10, unit);
        let name = if size < 1048576 {
            " KiB"@
        } else if size < 1073741824 {
            " MiB"@
        } else {
            " GiB"@
        };
        assert(out@ == in_unit(size, unit, name));
        assert(out@ == decimal(tenths / 10) + seq!['.'] + decimal(tenths % 10) + name);
    }
}

/// A text has no payload file; that of an image is its path below the directory.
pub proof fn payload_is_below_the_directory(e: &Entry, dir: &str, out: Option<String>)
    requires
        call_ensures(Entry::payload_path, (e, dir), out),
    ensures
        out is Some <==> e.kind is Image,
        out matches Some(p) && e.text@.len() > 0 && e.text@[0] != '/' ==> dir@.is_prefix_of(out->0@)
            && out->0@.skip(out->0@.len() - e.text@.len()) == e.text@,
{
    if let Some(p) = out {
        if e.text@.len() > 0 && e.text@[0] != '/' {
            assert(p@.take(dir@.len() as int) =~= dir@);
            assert(p@.skip(p@.len() - e.text@.len()) =~= e.text@);
        }
    }
}

/// A time after 1970 that fits is its milliseconds.
pub proof fn time_is_its_milliseconds(n: u128, ms: i64)
    requires
        call_ensures(timestamp, (Some(n),), ms),
        n <= i64::MAX,
    ensures
        ms == n,
{
}

/// A time before 1970 reads as zero.
pub proof fn early_time_is_zero(ms: i64)
    requires
        call_ensures(timestamp, (None,), ms),
    ensures
        ms == 0,
{
}

// ---------------------------------------------------------------------------
// Text and paths

/// Padding puts spaces in front, up to the width, and leaves the text behind them.
pub proof fn padding_is_in_front(s: &str, width: usize, out: String)
    requires
        call_ensures(pad_left, (s, width), out),
    ensures
        s@.len() >= width ==> out@ == s@,
        s@.len() < width ==> out@.len() == width && out@.skip(width - s@.len()) == s@ && forall|
            i: int,
        |
            0 <= i < width - s@.len() ==> out@[i] == ' ',
{
    if s@.len() < width {
        assert(out@.skip(width - s@.len()) =~= s@);
    }
}

/// A relative path put below a directory begins with the directory and ends with the
/// path, with one slash between them; an absolute one stands for itself.
pub proof fn joined_paths_hold_both(dir: &str, rel: &str, out: String)
    requires
        call_ensures(join, (dir, rel), out),
    ensures
        rel@.len() > 0 && rel@[0] == '/' ==> out@ == rel@,
        rel@.len() == 0 || rel@[0] != '/' ==> {
            let n = dir@.len() as int;
            &&& dir@.is_prefix_of(out@)
            &&& out@.skip(out@.len() - rel@.len()) == rel@
            &&& n > 0 && dir@[n - 1] != '/' ==> out@.len() == n + 1 + rel@.len() && out@[n] == '/'
            &&& n == 0 || dir@[n - 1] == '/' ==> out@.len() == n + rel@.len()
        },
{
    if rel@.len() == 0 || rel@[0] != '/' {
        assert(out@.take(dir@.len() as int) =~= dir@);
        assert(out@.skip(out@.len() - rel@.len()) =~= rel@);
    }
}

/// A path that ends in a file name keeps all of it in front of its last dot, and ends
/// with the new extension behind a dot.
pub proof fn extension_is_replaced(path: &str, extension: &str, out: String)
    requires
        call_ensures(set_extension, (path, extension), out),
        path@.len() > 0,
        path@.last() != '/',
        path@.last() != '.',
        extension@.len() > 0,
    ensures
        out@.skip(out@.len() - extension@.len()) == extension@,
        out@.len() > extension@.len(),
        out@[out@.len() - extension@.len() - 1] == '.',
        out@.take(out@.len() - extension@.len() - 1).is_prefix_of(path@),
{
    let p = path@;
    assert(trimmed(p) == p);
    let start = crate::path::name_start(p) as int;
    name_starts_within(p);
    let name = p.skip(start);
    assert(name[name.len() - 1] == p.last());
    let one = seq!['.'];
    let two = seq!['.', '.'];
    assert(one.last() == '.' && two.last() == '.');
    assert(name != one && name != two);
    stem_is_within(name, name.len());
    let k = start + crate::path::stem_len(name, name.len());
    assert(out@ == p.take(k).push('.') + extension@);
    assert(out@.skip(out@.len() - extension@.len()) =~= extension@);
    assert(out@.take(out@.len() - extension@.len() - 1) =~= p.take(k));
    assert(p.take(k).len() == k);
    assert(p.take(k) =~= p.take(k).take(k));
}

proof fn name_starts_within(p: Seq<char>)
    ensures
        crate::path::name_start(p) <= p.len(),
        p.len() > 0 && p.last() != '/' ==> crate::path::name_start(p) < p.len(),
    decreases p.len(),
{
    if p.len() > 0 && p.last() != '/' {
        name_starts_within(p.drop_last());
    }
}

proof fn stem_is_within(name: Seq<char>, n: nat)
    requires
        n <= name.len(),
    ensures
        crate::path::stem_len(name, n) <= name.len(),
    decreases n,
{
    if n > 1 && name[n - 1] != '.' {
        stem_is_within(name, (n - 1) as nat);
    }
}

/// The replacement and the backup of a file are two files.
pub proof fn side_files_differ(path: &str, extension: &str, out: SideFiles)
    requires
        call_ensures(side_files, (path, extension), out),
        path@.len() > 0,
        path@.last() != '/',
        path@.last() != '.',
    ensures
        out.tmp@ != out.backup@,
{
    reveal_strlit(".tmp");
    reveal_strlit(".bak");
    let p = path@;
    let a = extension@ + ".tmp"@;
    let b = extension@ + ".bak"@;
    assert(trimmed(p) == p);
    name_starts_within(p);
    let start = crate::path::name_start(p) as int;
    let name = p.skip(start);
    assert(name[name.len() - 1] == p.last());
    let one = seq!['.'];
    let two = seq!['.', '.'];
    assert(one.last() == '.' && two.last() == '.');
    assert(name != one && name != two);
    assert(a.last() == 'p' && b.last() == 'k');
    assert(out.tmp@.last() == 'p');
    assert(out.backup@.last() == 'k');
}

// ---------------------------------------------------------------------------
// Services

/// A unit runs the watcher of the program given at the interval given: the path of the
/// program and the interval stand in it, as they are.
pub proof fn unit_names_program_and_interval(
    platform: Platform,
    exe: &str,
    poll_ms: u64,
    res: Result<String, ServiceError>,
)
    requires
        call_ensures(render_unit, (platform, exe, poll_ms), res),
    ensures
        res is Err <==> platform is Windows,
        platform is Linux ==> exists|head: Seq<char>, tail: Seq<char>|
            res->Ok_0@ == #[trigger] (head + "ExecStart="@ + exe@ + " watch --poll-ms "@ + decimal(
                poll_ms as nat,
            ) + seq!['\n'] + tail),
        platform is MacOS ==> exists|head: Seq<char>, mid: Seq<char>, tail: Seq<char>|
            res->Ok_0@ == #[trigger] (head + "<string>"@ + exe@ + "</string>"@ + mid + "<string>"@
                + decimal(poll_ms as nat) + "</string>"@ + tail),
{
    let poll = decimal(poll_ms as nat);
    reveal_strlit("ExecStart=");
    reveal_strlit("<string>");
    reveal_strlit("</string>");
    reveal_strlit(" watch --poll-ms ");
    reveal_strlit(r#"[Unit]
Description=clipcrate clipboard history watcher
After=graphical-session.target

[Service]
ExecStart="#);
    reveal_strlit(r#"
Restart=on-failure
RestartSec=3

[Install]
WantedBy=default.target
"#);
    reveal_strlit(r#"<?xml version="1.0" encoding="UTF-8"?>
<!DOCTYPE plist PUBLIC "-//Apple//DTD PLIST 1.0//EN" "http://www.apple.com/DTDs/PropertyList-1.0.dtd">
<plist version="1.0">
<dict>
    <key>Label</key>
    <string>dev.clipcrate</string>
    <key>ProgramArguments</key>
    <array>
        <string>"#);
    reveal_strlit(r#"</string>
        <string>watch</string>
        <string>--poll-ms</string>
        <string>"#);
    reveal_strlit(r#"</string>
    </array>
    <key>RunAtLoad</key>
    <true/>
    <key>KeepAlive</key>
    <true/>
    <key>StandardErrorPath</key>
    <string>{}/Library/Logs/clipcrate.err.log</string>
</dict>
</plist>
"#);
    if platform is Linux {
        let h = crate::service::SYSTEMD_HEAD@;
        let t = crate::service::SYSTEMD_TAIL@;
        let head = h.take(h.len() - 10);
        let tail = t.skip(1);
        assert(h =~= head + "ExecStart="@);
        assert(t =~= seq!['\n'] + tail);
        assert(res->Ok_0@ =~= head + "ExecStart="@ + exe@ + " watch --poll-ms "@ + poll + seq!['\n']
            + tail);
    }
    if platform is MacOS {
        let h = crate::service::PLIST_HEAD@;
        let m = crate::service::PLIST_ARGS@;
        let t = crate::service::PLIST_TAIL@;
        let head = h.take(h.len() - 8);
        let mid = m.subrange(9, m.len() - 8);
        let tail = t.skip(9);
        assert(h =~= head + "<string>"@);
        assert(m =~= "</string>"@ + mid + "<string>"@);
        assert(t =~= "</string>"@ + tail);
        assert(res->Ok_0@ =~= head + "<string>"@ + exe@ + "</string>"@ + mid + "<string>"@ + poll
            + "</string>"@ + tail);
    }
}

/// What is installed is what is removed: the unit file that installing writes is the
/// one that uninstalling removes, and it is where the service is said to be.
pub proof fn uninstall_removes_what_install_wrote(
    platform: Platform,
    exe: &str,
    home: &str,
    poll_ms: u64,
    plan: Plan,
    undo: Vec<ServiceStep>,
    place: String,
    unit: Result<String, ServiceError>,
)
    requires
        call_ensures(install, (platform, exe, home, poll_ms), plan),
        call_ensures(uninstall, (platform, home), undo),
        call_ensures(unit_path, (platform, home), place),
        call_ensures(render_unit, (platform, exe, poll_ms), unit),
        !(platform is Windows),
    ensures
        plan.steps@.len() > 0,
        undo@.len() > 0,
        plan.steps@[0] matches ServiceStep::WriteUnit { path, text } && path@ == place@ && text@
            == unit->Ok_0@,
        undo@[undo@.len() - 1] matches ServiceStep::RemoveUnit { path } && path@ == place@,
        forall|i: int|
            0 < i < plan.steps@.len() ==> (#[trigger] plan.steps@[i]) is Run,
        plan.steps@[plan.steps@.len() - 1] matches ServiceStep::Run { check, .. } && check,
{
    let a = crate::service::step_views(plan.steps@);
    let b = crate::service::step_views(undo@);
    assert(a == install_steps(platform, exe@, home@, poll_ms));
    assert(b == uninstall_steps(platform, home@));
    assert(a.len() == 3 && b.len() == 2);
    assert(a[0] == plan.steps@[0]@);
    assert(a[1] == plan.steps@[1]@);
    assert(a[2] == plan.steps@[2]@);
    assert(b[1] == undo@[1]@);
    assert(a[0] is WriteUnit && a[1] is Run && a[2] is Run && b[1] is RemoveUnit);
}

/// On Windows the value that installing adds is the one that uninstalling deletes.
pub proof fn registry_value_is_removed(
    exe: &str,
    home: &str,
    poll_ms: u64,
    plan: Plan,
    undo: Vec<ServiceStep>,
)
    requires
        call_ensures(install, (Platform::Windows, exe, home, poll_ms), plan),
        call_ensures(uninstall, (Platform::Windows, home), undo),
    ensures
        plan.steps@.len() == 2,
        undo@.len() == 1,
        plan.steps@[0]@ matches ServiceStepView::Run { args: put, check: p, .. } && undo@[0]@ matches ServiceStepView::Run {
            args: taken,
            check: t,
            ..
        } && p && t && put[1] == taken[1] && put[3] == taken[3] && put[7] == "\""@ + exe@ + "\""@
            + " watch --poll-ms "@ + decimal(poll_ms as nat),
        plan.steps@[1]@ matches ServiceStepView::Spawn { program, .. } && program == exe@,
{
    let a = crate::service::step_views(plan.steps@);
    let b = crate::service::step_views(undo@);
    assert(a == install_steps(Platform::Windows, exe@, home@, poll_ms));
    assert(b == uninstall_steps(Platform::Windows, home@));
    assert(a.len() == 2 && b.len() == 1);
    assert(a[0] == plan.steps@[0]@);
    assert(a[1] == plan.steps@[1]@);
    assert(b[0] == undo@[0]@);
}

/// The status says where the service is, and that it is installed exactly where its
/// unit file is there.
pub proof fn status_says_where_and_whether(
    platform: Platform,
    home: &str,
    there: bool,
    out: String,
    place: String,
)
    requires
        call_ensures(status, (platform, Some(home), there), out),
        call_ensures(unit_path, (platform, home), place),
    ensures
        there && !(platform is Windows) ==> exists|front: Seq<char>|
            out@ == #[trigger] (front + "\nunit: "@ + place@ + "\ninstalled: "@ + "yes"@),
        !there || platform is Windows ==> exists|front: Seq<char>|
            out@ == #[trigger] (front + "\nunit: "@ + place@ + "\ninstalled: "@ + "no"@),
{
    let front = "platform: "@ + crate::service::platform_name(platform);
    if there && !(platform is Windows) {
        assert(out@ == front + "\nunit: "@ + place@ + "\ninstalled: "@ + "yes"@);
    } else {
        assert(out@ == front + "\nunit: "@ + place@ + "\ninstalled: "@ + "no"@);
    }
}

} // verus!
