//! The user-level autostart service that keeps the watcher running.
//!
//! - macOS: launchd agent (`~/Library/LaunchAgents/dev.clipcrate.plist`)
//! - Linux: systemd user unit (`~/.config/systemd/user/clipcrate.service`)
//! - Windows: registry `Run` value (no admin rights needed)

use crate::path::{join, joined};
use crate::text::{decimal, decimal_of, same, views};
use vstd::prelude::*;

verus! {

#[derive(Debug, PartialEq, Eq, Clone, Copy, Structural)]
pub enum Platform {
    MacOS,
    Linux,
    Windows,
}

/// The platform that an operating system's name stands for; anything unknown is
/// treated like Linux.
pub fn detect(os: &str) -> (p: Platform)
    ensures
        p == (if os@ == "macos"@ {
            Platform::MacOS
        } else if os@ == "windows"@ {
            Platform::Windows
        } else {
            Platform::Linux
        }),
{
    if same(os, "macos") {
        Platform::MacOS
    } else if same(os, "windows") {
        Platform::Windows
    } else {
        Platform::Linux
    }
}

/// Why the service could not be dealt with.
#[derive(Debug, PartialEq, Eq, Clone, Copy, Structural)]
pub enum ServiceError {
    /// Windows has no unit file.
    NothingToRender,
    /// There is no home directory.
    NoHome,
}

impl ServiceError {
    /// The failure in words.
    pub fn message(&self) -> (out: String)
        ensures
            out@ == match self {
                ServiceError::NothingToRender =>
                    "Windows uses the HKCU Run registry value; nothing to render"@,
                ServiceError::NoHome => "cannot determine home directory"@,
            },
    {
        match self {
            ServiceError::NothingToRender => {
                "Windows uses the HKCU Run registry value; nothing to render".to_owned()
            },
            ServiceError::NoHome => "cannot determine home directory".to_owned(),
        }
    }
}

// ---------------------------------------------------------------------------
// Unit files

/// The launchd agent up to the path of the program.
pub const PLIST_HEAD: &'static str = r#"<?xml version="1.0" encoding="UTF-8"?>
<!DOCTYPE plist PUBLIC "-//Apple//DTD PLIST 1.0//EN" "http://www.apple.com/DTDs/PropertyList-1.0.dtd">
<plist version="1.0">
<dict>
    <key>Label</key>
    <string>dev.clipcrate</string>
    <key>ProgramArguments</key>
    <array>
        <string>"#;

/// The launchd agent between the path of the program and the polling interval.
pub const PLIST_ARGS: &'static str = r#"</string>
        <string>watch</string>
        <string>--poll-ms</string>
        <string>"#;

/// The launchd agent after the polling interval.
pub const PLIST_TAIL: &'static str = r#"</string>
    </array>
    <key>RunAtLoad</key>
    <true/>
    <key>KeepAlive</key>
    <true/>
    <key>StandardErrorPath</key>
    <string>{}/Library/Logs/clipcrate.err.log</string>
</dict>
</plist>
"#;

/// The systemd unit up to the path of the program.
pub const SYSTEMD_HEAD: &'static str = r#"[Unit]
Description=clipcrate clipboard history watcher
After=graphical-session.target

[Service]
ExecStart="#;

/// What stands between the path of the program and the polling interval.
pub const WATCH_ARGS: &'static str = " watch --poll-ms ";

/// The systemd unit after the polling interval.
pub const SYSTEMD_TAIL: &'static str = r#"
Restart=on-failure
RestartSec=3

[Install]
WantedBy=default.target
"#;

/// The service file of a platform that has one.
pub open spec fn unit_text(platform: Platform, exe: Seq<char>, poll_ms: u64) -> Option<Seq<char>> {
    match platform {
        Platform::MacOS => Some(
            PLIST_HEAD@ + exe + PLIST_ARGS@ + decimal(poll_ms as nat) + PLIST_TAIL@,
        ),
        Platform::Linux => Some(
            SYSTEMD_HEAD@ + exe + WATCH_ARGS@ + decimal(poll_ms as nat) + SYSTEMD_TAIL@,
        ),
        Platform::Windows => None,
    }
}

/// Render the service file of a platform.
pub fn render_unit(platform: Platform, exe: &str, poll_ms: u64) -> (res: Result<
    String,
    ServiceError,
>)
    ensures
        match res {
            Ok(text) => unit_text(platform, exe@, poll_ms) == Some(text@),
            Err(e) => platform == Platform::Windows && e == ServiceError::NothingToRender,
        },
{
    let poll: String = decimal_of(poll_ms);
    match platform {
        Platform::MacOS => Ok(
            PLIST_HEAD.to_owned().concat(exe).concat(PLIST_ARGS).concat(poll.as_str()).concat(
                PLIST_TAIL,
            ),
        ),
        Platform::Linux => Ok(
            SYSTEMD_HEAD.to_owned().concat(exe).concat(WATCH_ARGS).concat(poll.as_str()).concat(
                SYSTEMD_TAIL,
            ),
        ),
        Platform::Windows => Err(ServiceError::NothingToRender),
    }
}

/// The home directory: `HOME`, else `USERPROFILE`.
pub fn home_dir(home: Option<String>, user_profile: Option<String>) -> (res: Result<
    String,
    ServiceError,
>)
    ensures
        res == (match (home, user_profile) {
            (Some(h), _) => Ok::<String, ServiceError>(h),
            (None, Some(u)) => Ok(u),
            (None, None) => Err(ServiceError::NoHome),
        }),
{
    match home {
        Some(h) => Ok(h),
        None => match user_profile {
            Some(u) => Ok(u),
            None => Err(ServiceError::NoHome),
        },
    }
}

/// The registry key under which Windows starts programs at login.
pub const RUN_KEY: &'static str = r"HKCU\Software\Microsoft\Windows\CurrentVersion\Run";

/// Where the service of a platform is registered.
pub open spec fn unit_location(platform: Platform, home: Seq<char>) -> Seq<char> {
    match platform {
        Platform::MacOS => joined(home, "Library/LaunchAgents/dev.clipcrate.plist"@),
        Platform::Linux => joined(home, ".config/systemd/user/clipcrate.service"@),
        Platform::Windows => RUN_KEY@,
    }
}

/// Where the service of a platform is registered.
pub fn unit_path(platform: Platform, home: &str) -> (out: String)
    ensures
        out@ == unit_location(platform, home@),
{
    match platform {
        Platform::MacOS => join(home, "Library/LaunchAgents/dev.clipcrate.plist"),
        Platform::Linux => join(home, ".config/systemd/user/clipcrate.service"),
        Platform::Windows => RUN_KEY.to_owned(),
    }
}

/// Unit files are the user's own: they lie below the home directory.
pub proof fn unit_is_user_scoped(platform: Platform, home: Seq<char>)
    requires
        !(platform is Windows),
    ensures
        home.is_prefix_of(unit_location(platform, home)),
{
    reveal_strlit("Library/LaunchAgents/dev.clipcrate.plist");
    reveal_strlit(".config/systemd/user/clipcrate.service");
}

// ---------------------------------------------------------------------------
// Installing and removing

/// One thing to do for the service.
#[derive(Debug, PartialEq, Eq)]
pub enum ServiceStep {
    /// Write a unit file, its directory too where that is missing.
    WriteUnit { path: String, text: String },
    /// Run a program with arguments; where `check` is set, its failure is an
    /// error.
    Run { program: String, args: Vec<String>, check: bool },
    /// Start a program and leave it running.
    Spawn { program: String, args: Vec<String> },
    /// Remove a unit file. Whether there was one decides what is reported.
    RemoveUnit { path: String },
}

/// The model of one thing to do.
#[verifier::ext_equal]
pub enum ServiceStepView {
    WriteUnit { path: Seq<char>, text: Seq<char> },
    Run { program: Seq<char>, args: Seq<Seq<char>>, check: bool },
    Spawn { program: Seq<char>, args: Seq<Seq<char>> },
    RemoveUnit { path: Seq<char> },
}

impl View for ServiceStep {
    type V = ServiceStepView;

    open spec fn view(&self) -> ServiceStepView {
        match self {
            ServiceStep::WriteUnit { path, text } => ServiceStepView::WriteUnit {
                path: path@,
                text: text@,
            },
            ServiceStep::Run { program, args, check } => ServiceStepView::Run {
                program: program@,
                args: views(args@),
                check: *check,
            },
            ServiceStep::Spawn { program, args } => ServiceStepView::Spawn {
                program: program@,
                args: views(args@),
            },
            ServiceStep::RemoveUnit { path } => ServiceStepView::RemoveUnit { path: path@ },
        }
    }
}

/// The models of some steps.
pub open spec fn step_views(steps: Seq<ServiceStep>) -> Seq<ServiceStepView> {
    Seq::new(steps.len(), |i: int| steps[i]@)
}

/// What to do to install and start the service.
pub open spec fn install_steps(
    platform: Platform,
    exe: Seq<char>,
    home: Seq<char>,
    poll_ms: u64,
) -> Seq<ServiceStepView> {
    let path = unit_location(platform, home);
    match platform {
        Platform::MacOS => seq![
            ServiceStepView::WriteUnit { path, text: unit_text(platform, exe, poll_ms)->0 },
            ServiceStepView::Run {
                program: "launchctl"@,
                args: seq!["unload"@, path],
                check: false,
            },
            ServiceStepView::Run { program: "launchctl"@, args: seq!["load"@, path], check: true },
        ],
        Platform::Linux => seq![
            ServiceStepView::WriteUnit { path, text: unit_text(platform, exe, poll_ms)->0 },
            ServiceStepView::Run {
                program: "systemctl"@,
                args: seq!["--user"@, "daemon-reload"@],
                check: true,
            },
            ServiceStepView::Run {
                program: "systemctl"@,
                args: seq!["--user"@, "enable"@, "--now"@, "clipcrate.service"@],
                check: true,
            },
        ],
        Platform::Windows => seq![
            ServiceStepView::Run {
                program: "reg"@,
                args: seq![
                    "add"@,
                    RUN_KEY@,
                    "/v"@,
                    "clipcrate"@,
                    "/t"@,
                    "REG_SZ"@,
                    "/d"@,
                    "\""@ + exe + "\""@ + WATCH_ARGS@ + decimal(poll_ms as nat),
                    "/f"@,
                ],
                check: true,
            },
            ServiceStepView::Spawn { program: exe, args: seq!["watch"@] },
        ],
    }
}

/// What is reported once the service is installed.
pub open spec fn install_summary(platform: Platform, home: Seq<char>) -> Seq<char> {
    let path = unit_location(platform, home);
    match platform {
        Platform::MacOS => "installed and loaded "@ + path,
        Platform::Linux => "enabled and started clipcrate.service ("@ + path + ")"@,
        Platform::Windows => "registered HKCU\\...\\Run\\clipcrate and started watcher"@,
    }
}

/// Steps, and what is reported once they are done.
pub struct Plan {
    pub steps: Vec<ServiceStep>,
    pub summary: String,
}

fn with_word(args: Vec<String>, word: &str) -> (out: Vec<String>)
    ensures
        views(out@) == views(args@).push(word@),
{
    let mut out: Vec<String> = args;
    out.push(word.to_owned());
    assert(views(out@) =~= views(args@).push(word@));
    out
}

fn words1(a: &str) -> (out: Vec<String>)
    ensures
        views(out@) == seq![a@],
{
    let none: Vec<String> = Vec::new();
    assert(views(none@) =~= Seq::<Seq<char>>::empty());
    with_word(none, a)
}

fn words2(a: &str, b: &str) -> (out: Vec<String>)
    ensures
        views(out@) == seq![a@, b@],
{
    with_word(words1(a), b)
}

fn words4(a: &str, b: &str, c: &str, d: &str) -> (out: Vec<String>)
    ensures
        views(out@) == seq![a@, b@, c@, d@],
{
    with_word(with_word(words2(a, b), c), d)
}

fn run(program: &str, args: Vec<String>, check: bool) -> (step: ServiceStep)
    ensures
        step@ == (ServiceStepView::Run { program: program@, args: views(args@), check }),
{
    ServiceStep::Run { program: program.to_owned(), args, check }
}

fn add_step(steps: &mut Vec<ServiceStep>, step: ServiceStep)
    ensures
        step_views(final(steps)@) == step_views(old(steps)@).push(step@),
{
    steps.push(step);
    assert(step_views(steps@) =~= step_views(old(steps)@).push(step@));
}

/// How to install and start the service.
pub fn install(platform: Platform, exe: &str, home: &str, poll_ms: u64) -> (plan: Plan)
    ensures
        step_views(plan.steps@) == install_steps(platform, exe@, home@, poll_ms),
        plan.summary@ == install_summary(platform, home@),
{
    let path: String = unit_path(platform, home);
    let mut steps: Vec<ServiceStep> = Vec::new();
    assert(step_views(steps@) =~= Seq::<ServiceStepView>::empty());
    let summary: String;
    match render_unit(platform, exe, poll_ms) {
        Ok(text) => {
            add_step(&mut steps, ServiceStep::WriteUnit { path: path.clone(), text });
        },
        Err(_) => {},
    }
    match platform {
        Platform::MacOS => {
            add_step(&mut steps, run("launchctl", words2("unload", path.as_str()), false));
            add_step(&mut steps, run("launchctl", words2("load", path.as_str()), true));
            assert(step_views(steps@) == install_steps(platform, exe@, home@, poll_ms));
            summary = "installed and loaded ".to_owned().concat(path.as_str());
        },
        Platform::Linux => {
            add_step(&mut steps, run("systemctl", words2("--user", "daemon-reload"), true));
            let enable: Vec<String> = words4("--user", "enable", "--now", "clipcrate.service");
            add_step(&mut steps, run("systemctl", enable, true));
            assert(step_views(steps@) == install_steps(platform, exe@, home@, poll_ms));
            summary = "enabled and started clipcrate.service (".to_owned().concat(
                path.as_str(),
            ).concat(")");
        },
        Platform::Windows => {
            let command: String = "\"".to_owned().concat(exe).concat("\"").concat(
                WATCH_ARGS,
            ).concat(decimal_of(poll_ms).as_str());
            let target: Vec<String> = words4("add", RUN_KEY, "/v", "clipcrate");
            let kind: Vec<String> = with_word(with_word(target, "/t"), "REG_SZ");
            let value: Vec<String> = with_word(with_word(kind, "/d"), command.as_str());
            let args: Vec<String> = with_word(value, "/f");
            assert(views(args@) == seq![
                "add"@,
                RUN_KEY@,
                "/v"@,
                "clipcrate"@,
                "/t"@,
                "REG_SZ"@,
                "/d"@,
                "\""@ + exe@ + "\""@ + WATCH_ARGS@ + decimal(poll_ms as nat),
                "/f"@,
            ]);
            add_step(&mut steps, run("reg", args, true));
            // Start watching right away too.
            let watch = ServiceStep::Spawn { program: exe.to_owned(), args: words1("watch") };
            add_step(&mut steps, watch);
            assert(step_views(steps@) == install_steps(platform, exe@, home@, poll_ms));
            summary = "registered HKCU\\...\\Run\\clipcrate and started watcher".to_owned();
        },
    }
    Plan { steps, summary }
}

/// What to do to stop and remove the service.
pub open spec fn uninstall_steps(platform: Platform, home: Seq<char>) -> Seq<ServiceStepView> {
    let path = unit_location(platform, home);
    match platform {
        Platform::MacOS => seq![
            ServiceStepView::Run {
                program: "launchctl"@,
                args: seq!["unload"@, path],
                check: false,
            },
            ServiceStepView::RemoveUnit { path },
        ],
        Platform::Linux => seq![
            ServiceStepView::Run {
                program: "systemctl"@,
                args: seq!["--user"@, "disable"@, "--now"@, "clipcrate.service"@],
                check: false,
            },
            ServiceStepView::RemoveUnit { path },
        ],
        Platform::Windows => seq![
            ServiceStepView::Run {
                program: "reg"@,
                args: seq!["delete"@, RUN_KEY@, "/v"@, "clipcrate"@, "/f"@],
                check: true,
            },
        ],
    }
}

/// How to stop and remove the service.
pub fn uninstall(platform: Platform, home: &str) -> (steps: Vec<ServiceStep>)
    ensures
        step_views(steps@) == uninstall_steps(platform, home@),
{
    let path: String = unit_path(platform, home);
    let mut steps: Vec<ServiceStep> = Vec::new();
    assert(step_views(steps@) =~= Seq::<ServiceStepView>::empty());
    match platform {
        Platform::MacOS => {
            add_step(&mut steps, run("launchctl", words2("unload", path.as_str()), false));
            add_step(&mut steps, ServiceStep::RemoveUnit { path });
            assert(step_views(steps@) == uninstall_steps(platform, home@));
        },
        Platform::Linux => {
            let disable: Vec<String> = words4("--user", "disable", "--now", "clipcrate.service");
            add_step(&mut steps, run("systemctl", disable, false));
            add_step(&mut steps, ServiceStep::RemoveUnit { path });
            assert(step_views(steps@) == uninstall_steps(platform, home@));
        },
        Platform::Windows => {
            let args: Vec<String> = with_word(
                words4("delete", RUN_KEY, "/v", "clipcrate"),
                "/f",
            );
            assert(views(args@) == seq!["delete"@, RUN_KEY@, "/v"@, "clipcrate"@, "/f"@]);
            add_step(&mut steps, run("reg", args, true));
            assert(step_views(steps@) == uninstall_steps(platform, home@));
        },
    }
    steps
}

/// What is reported once the service is removed, given whether a unit file was
/// there.
pub fn uninstall_summary(platform: Platform, home: &str, removed: bool) -> (out: String)
    ensures
        out@ == (match platform {
            Platform::Windows => "removed HKCU Run value"@,
            Platform::MacOS if removed => "unloaded and removed "@ + unit_location(
                platform,
                home@,
            ),
            Platform::Linux if removed => "disabled and removed clipcrate.service"@,
            _ => "service was not installed"@,
        }),
{
    match platform {
        Platform::Windows => "removed HKCU Run value".to_owned(),
        Platform::MacOS => if removed {
            "unloaded and removed ".to_owned().concat(unit_path(platform, home).as_str())
        } else {
            "service was not installed".to_owned()
        },
        Platform::Linux => if removed {
            "disabled and removed clipcrate.service".to_owned()
        } else {
            "service was not installed".to_owned()
        },
    }
}

/// Whether the service is installed, given whether its unit file exists (the
/// registry of Windows is not looked at).
pub fn is_installed(platform: Platform, unit_exists: bool) -> (res: bool)
    ensures
        res == (platform != Platform::Windows && unit_exists),
{
    match platform {
        Platform::Windows => false,
        _ => unit_exists,
    }
}

/// The name of a platform.
pub open spec fn platform_name(platform: Platform) -> Seq<char> {
    match platform {
        Platform::MacOS => "MacOS"@,
        Platform::Linux => "Linux"@,
        Platform::Windows => "Windows"@,
    }
}

/// Where the service is registered and whether it is installed. Without a home
/// directory the place is left empty.
pub fn status(platform: Platform, home: Option<&str>, unit_exists: bool) -> (out: String)
    ensures
        out@ == "platform: "@ + platform_name(platform) + "\nunit: "@ + (match home {
            Some(h) => unit_location(platform, h@),
            None => ""@,
        }) + "\ninstalled: "@ + (if platform != Platform::Windows && unit_exists {
            "yes"@
        } else {
            "no"@
        }),
{
    let name: String = match platform {
        Platform::MacOS => "MacOS".to_owned(),
        Platform::Linux => "Linux".to_owned(),
        Platform::Windows => "Windows".to_owned(),
    };
    let path: String = match home {
        Some(h) => unit_path(platform, h),
        None => "".to_owned(),
    };
    let answer: String = if is_installed(platform, unit_exists) {
        "yes".to_owned()
    } else {
        "no".to_owned()
    };
    "platform: ".to_owned().concat(name.as_str()).concat("\nunit: ").concat(path.as_str()).concat(
        "\ninstalled: ",
    ).concat(answer.as_str())
}

} // verus!
