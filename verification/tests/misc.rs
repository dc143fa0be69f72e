use next_tablet_driver::logger::console_entry;
use next_tablet_driver::themes::{store_theme_names, StoreError};
use next_tablet_driver::protocol::DriverMode;
use next_tablet_driver::settings::otd_mode_from_path;
use next_tablet_driver::logger::{is_shown_target, LogBuffer, LogEntry, MAX_LOGS};
use next_tablet_driver::startup::desktop_entry_contents;
use next_tablet_driver::stats::{ServerAction, StatsServerState};
use next_tablet_driver::sysinfo::{meminfo_total_bytes, meminfo_total_kib, os_release_pretty_name};
use next_tablet_driver::themes::{store_item, ThemeMetadata};
use next_tablet_driver::themes::{is_store_theme_entry, theme_json_url, url_encoded_name};

fn entry(i: usize) -> LogEntry {
    LogEntry {
        time: "12:00:00".to_string(),
        level: "Info".to_string(),
        group: "App".to_string(),
        message: format!("m{i}"),
        search_text: format!("app m{i}"),
    }
}

#[test]
fn log_buffer_keeps_the_latest_entries() {
    let mut b = LogBuffer::new();
    assert_eq!(b.len(), 0);
    assert_eq!(b.sequence(), 0);
    for i in 0..MAX_LOGS + 5 {
        b.push(entry(i));
    }
    assert_eq!(b.len(), MAX_LOGS);
    assert_eq!(b.sequence(), (MAX_LOGS + 5) as u64);
    assert_eq!(b.get(0).message, "m5");
    assert_eq!(b.get(MAX_LOGS - 1).message, format!("m{}", MAX_LOGS + 4));
}

#[test]
fn console_target_whitelist() {
    assert!(is_shown_target("App"));
    assert!(is_shown_target("HID::reader"));
    assert!(is_shown_target("NextTabletDriver"));
    assert!(is_shown_target("NextTabletDriverX::y"));
    assert!(!is_shown_target("Tracking"));
    assert!(!is_shown_target("Apple"));
    assert!(!is_shown_target("App:"));
    assert!(!is_shown_target(""));
    assert!(is_shown_target("Detect"));
}

#[test]
fn theme_store_entries_and_urls() {
    assert!(is_store_theme_entry("dir", "Midnight Blue"));
    assert!(!is_store_theme_entry("file", "README.md"));
    assert!(!is_store_theme_entry("dir", "00 EXAMPLE"));
    assert!(!is_store_theme_entry("dir", ".github"));
    assert_eq!(url_encoded_name("Midnight Blue v2"), "Midnight%20Blue%20v2");
    assert_eq!(
        theme_json_url("Midnight Blue"),
        "https://raw.githubusercontent.com/Next-Tablet-Driver/NextTabletDriver-Themes/refs/heads/main/Midnight%20Blue/theme.json"
    );
}

#[test]
fn autostart_entry() {
    assert_eq!(
        desktop_entry_contents("/usr/bin/ntd"),
        "[Desktop Entry]\nType=Application\nName=NextTabletDriver\nComment=Tablet Driver for Osu! and Drawing\nExec=/usr/bin/ntd\nTerminal=false\nX-GNOME-Autostart-enabled=true\nStartupNotify=false\n"
    );
}

#[test]
fn stats_server_lifecycle() {
    let mut s = StatsServerState::new();
    assert_eq!(s.plan(false, "127.0.0.1", 8080), ServerAction::Keep);
    assert_eq!(s.plan(true, "127.0.0.1", 8080), ServerAction::Start);
    s.record(ServerAction::Start, true, "127.0.0.1", 8080);
    assert_eq!(s.plan(true, "127.0.0.1", 8080), ServerAction::Keep);
    assert_eq!(s.plan(true, "127.0.0.1", 8081), ServerAction::Start);
    assert_eq!(s.plan(true, "0.0.0.0", 8080), ServerAction::Start);
    assert_eq!(s.plan(false, "127.0.0.1", 8080), ServerAction::Stop);
    s.record(ServerAction::Stop, false, "", 0);
    assert_eq!(s.plan(false, "127.0.0.1", 8080), ServerAction::Keep);
    s.record(ServerAction::Start, false, "127.0.0.1", 8080);
    assert_eq!(s.plan(true, "127.0.0.1", 8080), ServerAction::Start);
}

#[test]
fn meminfo_parsing() {
    let text = "MemFree:  100 kB\nMemTotal:       16303448 kB\nMemAvailable: 1 kB\n";
    assert_eq!(meminfo_total_kib(text), Some(16303448));
    assert_eq!(meminfo_total_kib("MemTotal: +42 kB\r\n"), Some(42));
    assert_eq!(meminfo_total_kib("MemTotal: x\nMemTotal: 7"), Some(7));
    assert_eq!(meminfo_total_kib("MemTotal: 99999999999999999999 kB"), None);
    assert_eq!(meminfo_total_kib("MemTotal: 18446744073709551615"), Some(u64::MAX));
    assert_eq!(meminfo_total_kib("MemTotal:"), None);
    assert_eq!(meminfo_total_kib(" MemTotal: 5"), None);
    assert_eq!(meminfo_total_kib(""), None);
    assert_eq!(meminfo_total_kib("MemTotal:\u{3000}12"), Some(12));
}

#[test]
fn os_release_parsing() {
    let text = "NAME=\"Arch\"\nPRETTY_NAME=\"Arch Linux\"\nID=arch\n";
    assert_eq!(os_release_pretty_name(text).as_deref(), Some("Arch Linux"));
    assert_eq!(os_release_pretty_name("PRETTY_NAME=Plain").as_deref(), Some("Plain"));
    assert_eq!(os_release_pretty_name("PRETTY_NAME=\"\"").as_deref(), Some(""));
    assert_eq!(os_release_pretty_name("PRETTY_NAME=PRETTY_NAME=x").as_deref(), Some("x"));
    assert_eq!(os_release_pretty_name("PRETTY_NAME=\"a\"\r\n").as_deref(), Some("a"));
    assert_eq!(os_release_pretty_name("ID=arch\n"), None);
}

#[test]
fn console_entries() {
    assert!(console_entry("Tracking", "Info".to_string(), "x".to_string()).is_none());
    let e = console_entry("HID::Reader", "Warn".to_string(), "Device LOST Ä".to_string()).unwrap();
    assert_eq!(e.group, "HID::Reader");
    assert_eq!(e.level, "Warn");
    assert_eq!(e.message, "Device LOST Ä");
    assert_eq!(e.search_text, "hid::reader device lost ä");
    let t: Vec<char> = e.time.chars().collect();
    assert_eq!(t.len(), 8);
    assert_eq!((t[2], t[5]), (':', ':'));
    assert!(t.iter().enumerate().all(|(i, c)| i == 2 || i == 5 || c.is_ascii_digit()));
}

#[test]
fn store_listing() {
    let listing = r#"[
        {"type": "dir", "name": "Midnight"},
        {"type": "file", "name": "README.md"},
        {"type": "dir", "name": "00 EXAMPLE"},
        {"type": "dir", "name": ".github"},
        {"type": "dir"},
        {"type": "dir", "name": 5},
        {"type": "dir", "name": "Sakura Pink"}
    ]"#;
    assert_eq!(store_theme_names(listing), Ok(vec!["Midnight".to_string(), "Sakura Pink".to_string()]));
    assert_eq!(store_theme_names("{}"), Err(StoreError::InvalidResponse));
    assert_eq!(store_theme_names("not json"), Err(StoreError::ParseFailed));
    assert_eq!(store_theme_names("[]"), Ok(vec![]));
}

#[test]
fn otd_output_modes() {
    assert_eq!(
        otd_mode_from_path("OpenTabletDriver.Desktop.Output.AbsoluteMode"),
        Some(DriverMode::Absolute)
    );
    assert_eq!(
        otd_mode_from_path("OpenTabletDriver.Desktop.Output.RelativeMode"),
        Some(DriverMode::Relative)
    );
    assert_eq!(otd_mode_from_path("AbsoluteModeRelativeMode"), Some(DriverMode::Absolute));
    assert_eq!(otd_mode_from_path("Windows Ink"), None);
    assert_eq!(otd_mode_from_path(""), None);
}

#[test]
fn meminfo_total_in_bytes() {
    let text = "MemTotal:       16303448 kB\nMemFree:         1000 kB\n";
    assert_eq!(meminfo_total_bytes(text), Some(16303448 * 1024));
    assert_eq!(meminfo_total_bytes("MemTotal: 1"), Some(1024));
    assert_eq!(meminfo_total_bytes("MemFree: 5"), None);
}

#[test]
fn store_item_keeps_parsed_theme() {
    let metadata = ThemeMetadata {
        name: "Ocean".to_string(),
        author: "Ana".to_string(),
        version: "2.3".to_string(),
        update_url: Some("https://example.org/ocean".to_string()),
    };
    let item = store_item("Ocean Folder", Some((metadata.clone(), false)));
    assert_eq!(item.metadata, metadata);
    assert!(!item.dark_mode);
}

#[test]
fn store_item_falls_back_for_unparsed_theme() {
    let item = store_item("Night Owl", None);
    assert_eq!(item.metadata.name, "Night Owl");
    assert_eq!(item.metadata.author, "Unknown");
    assert_eq!(item.metadata.version, "1.0");
    assert_eq!(item.metadata.update_url, None);
    assert!(item.dark_mode);
}
