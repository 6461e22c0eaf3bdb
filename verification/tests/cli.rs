use portmap::cli::{
    app_label, expand_home, is_homebrew_path, launchd_plist, parse_i64, parse_u16, push_padded, resolve_port,
    service_manager, status_report, systemd_unit,
};
use portmap::model::App;

fn app(id: i64, name: &str, port: i64, category: &str) -> App {
    App { id, name: name.to_string(), port, category: category.to_string() }
}

#[test]
fn parse_u16_reads_ports() {
    assert_eq!(parse_u16("8080"), Some(8080));
    assert_eq!(parse_u16("0"), Some(0));
    assert_eq!(parse_u16("65535"), Some(65535));
    assert_eq!(parse_u16("+80"), Some(80));
    assert_eq!(parse_u16("0001"), Some(1));
}

#[test]
fn parse_u16_rejects_what_is_no_port() {
    assert_eq!(parse_u16("65536"), None);
    assert_eq!(parse_u16("99999999999999999999999"), None);
    assert_eq!(parse_u16("-1"), None);
    assert_eq!(parse_u16("-0"), None);
    assert_eq!(parse_u16(""), None);
    assert_eq!(parse_u16("+"), None);
    assert_eq!(parse_u16("12a"), None);
    assert_eq!(parse_u16(" 80"), None);
    assert_eq!(parse_u16("web"), None);
}

#[test]
fn parse_i64_reads_signed_numbers() {
    assert_eq!(parse_i64("3000"), Some(3000));
    assert_eq!(parse_i64("-42"), Some(-42));
    assert_eq!(parse_i64("+7"), Some(7));
    assert_eq!(parse_i64("9223372036854775807"), Some(i64::MAX));
    assert_eq!(parse_i64("-9223372036854775808"), Some(i64::MIN));
}

#[test]
fn parse_i64_rejects_out_of_range_and_garbage() {
    assert_eq!(parse_i64("9223372036854775808"), None);
    assert_eq!(parse_i64("-9223372036854775809"), None);
    assert_eq!(parse_i64("-"), None);
    assert_eq!(parse_i64(""), None);
    assert_eq!(parse_i64("1e3"), None);
    assert_eq!(parse_i64("my-app"), None);
}

#[test]
fn resolve_port_prefers_the_app() {
    let a = app(1, "web", 3000, "frontend");
    assert_eq!(resolve_port("web", Some(&a)), Some(3000));
    assert_eq!(resolve_port("8080", Some(&a)), Some(3000));
    assert_eq!(resolve_port("x", Some(&app(2, "big", 70000, ""))), None);
    assert_eq!(resolve_port("x", Some(&app(3, "neg", -1, ""))), None);
}

#[test]
fn resolve_port_parses_without_an_app() {
    assert_eq!(resolve_port("8080", None), Some(8080));
    assert_eq!(resolve_port("web", None), None);
    assert_eq!(resolve_port("70000", None), None);
}

#[test]
fn app_label_uses_name_or_port() {
    assert_eq!(app_label("web", 3000), "web");
    assert_eq!(app_label("", 3000), ":3000");
    assert_eq!(app_label("", -5), ":-5");
    assert_eq!(app_label("", 0), ":0");
}

#[test]
fn expand_home_replaces_leading_tilde() {
    assert_eq!(
        expand_home("~/Library/LaunchAgents/dev.portmap.plist", Some("/Users/me")),
        "/Users/me/Library/LaunchAgents/dev.portmap.plist"
    );
    assert_eq!(expand_home("~/", Some("/h")), "/h/");
}

#[test]
fn expand_home_leaves_other_paths() {
    assert_eq!(expand_home("~/a", None), "~/a");
    assert_eq!(expand_home("/etc/x", Some("/h")), "/etc/x");
    assert_eq!(expand_home("~", Some("/h")), "~");
    assert_eq!(expand_home("~me/x", Some("/h")), "~me/x");
    assert_eq!(expand_home("a/~/b", Some("/h")), "a/~/b");
}

#[test]
fn is_homebrew_path_looks_for_cellar() {
    assert!(is_homebrew_path("/opt/homebrew/Cellar/portmap/0.8.1/bin/portmap"));
    assert!(is_homebrew_path("/Cellar/"));
    assert!(!is_homebrew_path("/usr/local/bin/portmap"));
    assert!(!is_homebrew_path("/Cellar"));
    assert!(!is_homebrew_path("/cellar/x"));
    assert!(!is_homebrew_path(""));
}

#[test]
fn service_manager_probe_order() {
    assert_eq!(service_manager(true, true, true, false), "homebrew");
    assert_eq!(service_manager(true, false, true, false), "launchd");
    assert_eq!(service_manager(true, false, false, true), "none");
    assert_eq!(service_manager(false, false, false, true), "systemd");
    assert_eq!(service_manager(false, true, true, false), "none");
}

#[test]
fn push_padded_pads_by_characters() {
    let mut s = String::from(">");
    push_padded(&mut s, "ab", 5);
    assert_eq!(s, ">ab   ");
    let mut t = String::new();
    push_padded(&mut t, "toolong", 3);
    assert_eq!(t, "toolong");
    let mut u = String::new();
    push_padded(&mut u, "é", 3);
    assert_eq!(u, "é  ");
}

#[test]
fn status_report_running() {
    assert_eq!(
        status_report(true, 1337, "launchd"),
        "+------------+-------------------------------+\n| portmap    | ● running                     |\n+------------+-------------------------------+\n| dashboard  | http://localhost:1337         |\n| service    | launchd                       |\n| on startup | yes                           |\n+------------+-------------------------------+\n"
    );
}

#[test]
fn status_report_stopped_without_service() {
    assert_eq!(
        status_report(false, 1337, "none"),
        "+------------+-------------------------------+\n| portmap    | ○ stopped                     |\n+------------+-------------------------------+\n| service    | none                          |\n| on startup | no                            |\n+------------+-------------------------------+\n"
    );
}

#[test]
fn launchd_plist_fills_arguments() {
    assert_eq!(
        launchd_plist("/usr/local/bin/portmap", 1337, 1000, 9999),
        "<?xml version=\"1.0\" encoding=\"UTF-8\"?>\n<!DOCTYPE plist PUBLIC \"-//Apple//DTD PLIST 1.0//EN\" \"http://www.apple.com/DTDs/PropertyList-1.0.dtd\">\n<plist version=\"1.0\">\n<dict>\n    <key>Label</key>\n    <string>dev.portmap</string>\n    <key>ProgramArguments</key>\n    <array>\n        <string>/usr/local/bin/portmap</string>\n        <string>serve</string>\n        <string>--listen</string>\n        <string>1337</string>\n        <string>--scan-start</string>\n        <string>1000</string>\n        <string>--scan-end</string>\n        <string>9999</string>\n    </array>\n    <key>RunAtLoad</key>\n    <true/>\n    <key>KeepAlive</key>\n    <true/>\n    <key>StandardOutPath</key>\n    <string>/tmp/portmap.log</string>\n    <key>StandardErrorPath</key>\n    <string>/tmp/portmap.log</string>\n</dict>\n</plist>"
    );
}

#[test]
fn systemd_unit_fills_arguments() {
    assert_eq!(
        systemd_unit("/home/me/.cargo/bin/portmap", 4000, 3000, 3999),
        "[Unit]\nDescription=portmap\n\n[Service]\nExecStart=/home/me/.cargo/bin/portmap serve --listen 4000 --scan-start 3000 --scan-end 3999\nRestart=always\n\n[Install]\nWantedBy=default.target\n"
    );
}
