use clipcrate::service::{
    detect, home_dir, install, is_installed, render_unit, status, uninstall, uninstall_summary,
    unit_path, Platform, ServiceError, ServiceStep,
};

#[test]
fn plist_is_valid_xml_and_references_exe() {
    let xml = render_unit(Platform::MacOS, "/usr/local/bin/clipcrate", 700).unwrap();
    assert!(xml.contains("<string>/usr/local/bin/clipcrate</string>"));
    assert!(xml.contains("<string>700</string>"));
    assert!(xml.contains("dev.clipcrate"));
}

#[test]
fn systemd_unit_has_install_section() {
    let u = render_unit(Platform::Linux, "/usr/bin/clipcrate", 500).unwrap();
    assert!(u.contains("ExecStart=/usr/bin/clipcrate watch --poll-ms 500"));
    assert!(u.contains("[Install]"));
    assert!(u.contains("WantedBy=default.target"));
}

#[test]
fn windows_renders_error() {
    assert!(render_unit(Platform::Windows, "C:\\clipcrate.exe", 100).is_err());
}

#[test]
fn unit_paths_are_user_scoped() {
    if let Ok(home) = home_dir(Some("/home/me".to_string()), None) {
        let p = unit_path(Platform::MacOS, &home);
        assert!(std::path::Path::new(&p).starts_with(&home), "{p:?}");
        let p = unit_path(Platform::Linux, &home);
        assert!(std::path::Path::new(&p).starts_with(&home), "{p:?}");
    }
}

#[test]
fn service_status_reports_platform() {
    let out = status(Platform::Linux, Some("/home/me"), true);
    assert!(
        out.contains("platform:") && out.contains("installed:"),
        "{out}"
    );
    assert_eq!(
        out,
        "platform: Linux\nunit: /home/me/.config/systemd/user/clipcrate.service\ninstalled: yes"
    );
    assert_eq!(status(Platform::MacOS, None, false), "platform: MacOS\nunit: \ninstalled: no");
    assert_eq!(
        status(Platform::Windows, Some("C:\\Users\\me"), true),
        "platform: Windows\nunit: HKCU\\Software\\Microsoft\\Windows\\CurrentVersion\\Run\ninstalled: no"
    );
}

#[test]
fn the_whole_systemd_unit() {
    assert_eq!(
        render_unit(Platform::Linux, "/x", 50).unwrap(),
        "[Unit]\nDescription=clipcrate clipboard history watcher\nAfter=graphical-session.target\n\n\
         [Service]\nExecStart=/x watch --poll-ms 50\nRestart=on-failure\nRestartSec=3\n\n\
         [Install]\nWantedBy=default.target\n"
    );
}

#[test]
fn the_whole_launchd_agent() {
    let xml = render_unit(Platform::MacOS, "/x", 50).unwrap();
    assert!(xml.starts_with("<?xml version=\"1.0\" encoding=\"UTF-8\"?>\n<!DOCTYPE plist"));
    assert!(xml.contains(
        "<array>\n        <string>/x</string>\n        <string>watch</string>\n        \
         <string>--poll-ms</string>\n        <string>50</string>\n    </array>\n"
    ));
    assert!(xml.contains("<string>{}/Library/Logs/clipcrate.err.log</string>\n"));
    assert!(xml.ends_with("</dict>\n</plist>\n"));
    assert_eq!(xml.matches("<string>").count(), xml.matches("</string>").count());
}

#[test]
fn operating_systems_are_told_apart() {
    assert_eq!(detect("macos"), Platform::MacOS);
    assert_eq!(detect("windows"), Platform::Windows);
    assert_eq!(detect("linux"), Platform::Linux);
    assert_eq!(detect("freebsd"), Platform::Linux);
}

#[test]
fn the_home_directory_comes_from_either_variable() {
    let some = |s: &str| Some(s.to_string());
    assert_eq!(home_dir(some("/h"), some("C:\\u")).unwrap(), "/h");
    assert_eq!(home_dir(None, some("C:\\u")).unwrap(), "C:\\u");
    assert_eq!(home_dir(None, None).unwrap_err(), ServiceError::NoHome);
    assert_eq!(ServiceError::NoHome.message(), "cannot determine home directory");
    assert_eq!(
        ServiceError::NothingToRender.message(),
        "Windows uses the HKCU Run registry value; nothing to render"
    );
}

fn words(ws: &[&str]) -> Vec<String> {
    ws.iter().map(|w| w.to_string()).collect()
}

#[test]
fn installing_on_linux() {
    let plan = install(Platform::Linux, "/bin/clipcrate", "/home/me", 700);
    let path = "/home/me/.config/systemd/user/clipcrate.service";
    assert_eq!(
        plan.steps,
        vec![
            ServiceStep::WriteUnit {
                path: path.to_string(),
                text: render_unit(Platform::Linux, "/bin/clipcrate", 700).unwrap(),
            },
            ServiceStep::Run {
                program: "systemctl".to_string(),
                args: words(&["--user", "daemon-reload"]),
                check: true,
            },
            ServiceStep::Run {
                program: "systemctl".to_string(),
                args: words(&["--user", "enable", "--now", "clipcrate.service"]),
                check: true,
            },
        ]
    );
    assert_eq!(plan.summary, format!("enabled and started clipcrate.service ({path})"));
}

#[test]
fn installing_on_macos() {
    let plan = install(Platform::MacOS, "/bin/clipcrate", "/Users/me", 700);
    let path = "/Users/me/Library/LaunchAgents/dev.clipcrate.plist";
    assert_eq!(plan.steps.len(), 3);
    assert_eq!(
        plan.steps[1],
        ServiceStep::Run {
            program: "launchctl".to_string(),
            args: words(&["unload", path]),
            check: false,
        }
    );
    assert_eq!(
        plan.steps[2],
        ServiceStep::Run {
            program: "launchctl".to_string(),
            args: words(&["load", path]),
            check: true,
        }
    );
    assert_eq!(plan.summary, format!("installed and loaded {path}"));
}

#[test]
fn installing_on_windows() {
    let plan = install(Platform::Windows, "C:\\clipcrate.exe", "C:\\Users\\me", 250);
    assert_eq!(
        plan.steps,
        vec![
            ServiceStep::Run {
                program: "reg".to_string(),
                args: words(&[
                    "add",
                    "HKCU\\Software\\Microsoft\\Windows\\CurrentVersion\\Run",
                    "/v",
                    "clipcrate",
                    "/t",
                    "REG_SZ",
                    "/d",
                    "\"C:\\clipcrate.exe\" watch --poll-ms 250",
                    "/f",
                ]),
                check: true,
            },
            ServiceStep::Spawn {
                program: "C:\\clipcrate.exe".to_string(),
                args: words(&["watch"]),
            },
        ]
    );
    assert_eq!(plan.summary, "registered HKCU\\...\\Run\\clipcrate and started watcher");
}

#[test]
fn removing_the_service() {
    let path = "/home/me/.config/systemd/user/clipcrate.service".to_string();
    assert_eq!(
        uninstall(Platform::Linux, "/home/me"),
        vec![
            ServiceStep::Run {
                program: "systemctl".to_string(),
                args: words(&["--user", "disable", "--now", "clipcrate.service"]),
                check: false,
            },
            ServiceStep::RemoveUnit { path },
        ]
    );
    assert_eq!(uninstall(Platform::MacOS, "/Users/me").len(), 2);
    assert_eq!(
        uninstall(Platform::Windows, ""),
        vec![ServiceStep::Run {
            program: "reg".to_string(),
            args: words(&[
                "delete",
                "HKCU\\Software\\Microsoft\\Windows\\CurrentVersion\\Run",
                "/v",
                "clipcrate",
                "/f",
            ]),
            check: true,
        }]
    );
    assert_eq!(
        uninstall_summary(Platform::Linux, "/h", true),
        "disabled and removed clipcrate.service"
    );
    assert_eq!(
        uninstall_summary(Platform::MacOS, "/h", true),
        "unloaded and removed /h/Library/LaunchAgents/dev.clipcrate.plist"
    );
    assert_eq!(uninstall_summary(Platform::MacOS, "/h", false), "service was not installed");
    assert_eq!(uninstall_summary(Platform::Linux, "/h", false), "service was not installed");
    assert_eq!(uninstall_summary(Platform::Windows, "/h", false), "removed HKCU Run value");
}

#[test]
fn the_registry_is_not_looked_at() {
    assert!(is_installed(Platform::Linux, true));
    assert!(is_installed(Platform::MacOS, true));
    assert!(!is_installed(Platform::Linux, false));
    assert!(!is_installed(Platform::Windows, true));
}
