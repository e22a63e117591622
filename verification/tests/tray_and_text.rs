use efact_printer_agent::config::AgentConfig;
use efact_printer_agent::platform::{
    config_dir_location, folder_opener_program, log_dir_location, user_config_location, Os,
};
use efact_printer_agent::text::{
    chars_of, contains_chars, first_word_chars, split_lines, trim_chars,
};
use efact_printer_agent::tray::{
    configured_printer_label, icon_rgba, menu_action, tray_menu, tray_tooltip, Folder,
    MenuAction, TrayEvent, TrayMenuEntry, TrayState,
};

fn s(v: Vec<char>) -> String {
    v.into_iter().collect()
}

#[test]
fn trimming_follows_unicode_whitespace() {
    assert_eq!(s(trim_chars(&chars_of(" \t a b \u{3000}\r\n"))), "a b");
    assert_eq!(s(trim_chars(&chars_of("   "))), "");
    assert_eq!(s(trim_chars(&chars_of("x"))), "x");
    assert_eq!(s(trim_chars(&chars_of("\u{1F}x"))), "\u{1F}x");
}

#[test]
fn lines_split_like_str_lines() {
    for text in ["", "a", "a\n", "a\r\nb", "a\n\nb\n", "\n", "a\r", "a\r\r\n", "x\ny\r\nz"] {
        let got: Vec<String> = split_lines(&chars_of(text)).into_iter().map(s).collect();
        let want: Vec<String> = text.lines().map(|l| l.to_string()).collect();
        assert_eq!(got, want, "text {:?}", text);
    }
}

#[test]
fn first_word_like_split_whitespace() {
    for text in ["", "  ", " ab cd", "ab", "a\u{A0}b", "\tq\n"] {
        let got = first_word_chars(&chars_of(text)).map(s);
        let want = text.split_whitespace().next().map(|w| w.to_string());
        assert_eq!(got, want, "text {:?}", text);
    }
}

#[test]
fn substring_search() {
    assert!(contains_chars(&chars_of("abcabd"), &chars_of("abd")));
    assert!(!contains_chars(&chars_of("abcab"), &chars_of("abd")));
    assert!(contains_chars(&chars_of("x"), &chars_of("")));
    assert!(!contains_chars(&chars_of(""), &chars_of("a")));
}

#[test]
fn printer_labels() {
    let mut c = AgentConfig::default();
    assert_eq!(configured_printer_label(&c), "Printer: auto (HID or system default)");
    c.prefer_system_backend = true;
    assert_eq!(configured_printer_label(&c), "Printer: system default");
    c.system_printer_name = Some("Kitchen".to_string());
    assert_eq!(configured_printer_label(&c), "Printer: Kitchen");
    assert_eq!(tray_tooltip(&c), "eFact Printer Agent\nPrinter: Kitchen");
}

#[test]
fn tray_menu_layout() {
    let menu = tray_menu(&AgentConfig::default());
    assert_eq!(menu.len(), 6);
    match &menu[0] {
        TrayMenuEntry::Item { text, enabled } => {
            assert_eq!(text, "Printer: auto (HID or system default)");
            assert!(!enabled);
        }
        TrayMenuEntry::Separator => panic!("status entry expected"),
    }
    assert!(matches!(menu[1], TrayMenuEntry::Separator));
    assert!(matches!(&menu[5], TrayMenuEntry::Item { text, enabled: true } if text == "Quit"));
}

#[test]
fn icon_pixels() {
    let rgba = icon_rgba();
    assert_eq!(rgba.len(), 16 * 16 * 4);
    let px = |x: usize, y: usize| {
        let i = (y * 16 + x) * 4;
        (rgba[i], rgba[i + 1], rgba[i + 2], rgba[i + 3])
    };
    assert_eq!(px(0, 0), (26, 43, 60, 255));
    assert_eq!(px(15, 7), (26, 43, 60, 255));
    assert_eq!(px(5, 3), (37, 99, 235, 255));
    assert_eq!(px(5, 7), (148, 163, 184, 255));
    assert_eq!(px(4, 7), (255, 255, 255, 255));
    assert_eq!(px(5, 8), (255, 255, 255, 255));
    assert_eq!(px(1, 1), (15, 23, 42, 255));
    assert_eq!(px(13, 5), (15, 23, 42, 255));
}

#[test]
fn menu_clicks() {
    let cfg = Some("1".to_string());
    let logs = Some("2".to_string());
    let quit = Some("3".to_string());
    assert_eq!(menu_action(&"1".to_string(), &cfg, &logs, &quit), MenuAction::OpenConfigFolder);
    assert_eq!(menu_action(&"2".to_string(), &cfg, &logs, &quit), MenuAction::OpenLogsFolder);
    assert_eq!(menu_action(&"3".to_string(), &cfg, &logs, &quit), MenuAction::Quit);
    assert_eq!(menu_action(&"4".to_string(), &cfg, &logs, &quit), MenuAction::Ignore);
    assert_eq!(menu_action(&"3".to_string(), &None, &None, &None), MenuAction::Ignore);
}

#[test]
fn shutdown_is_signalled_once() {
    let mut st = TrayState::new();
    let step = st.step(TrayEvent::Resumed);
    assert!(step.build_tray);
    let step = st.step(TrayEvent::TrayBuilt { ok: true });
    assert!(!step.send_shutdown && !step.exit_loop);
    assert!(!st.step(TrayEvent::Resumed).build_tray);
    let step = st.step(TrayEvent::Menu { action: MenuAction::OpenLogsFolder });
    assert_eq!(step.open_folder, Some(Folder::Logs));
    let step = st.step(TrayEvent::Menu { action: MenuAction::Quit });
    assert!(step.send_shutdown && step.exit_loop);
    let step = st.step(TrayEvent::Exiting);
    assert!(!step.send_shutdown);
}

#[test]
fn failed_tray_build_shuts_down() {
    let mut st = TrayState::new();
    let step = st.step(TrayEvent::TrayBuilt { ok: false });
    assert!(step.send_shutdown && step.exit_loop);
    assert!(!st.step(TrayEvent::Menu { action: MenuAction::Quit }).send_shutdown);
}

#[test]
fn folders_by_platform() {
    let l = user_config_location(Os::Linux);
    assert_eq!(l.base_var, "HOME");
    assert_eq!(l.parts, vec![".config", "efact-printer-agent", "config.toml"]);
    let w = user_config_location(Os::Windows);
    assert_eq!(w.base_var, "APPDATA");
    assert_eq!(w.parts, vec!["efact-printer-agent", "config.toml"]);
    assert!(!l.temp_fallback);
    assert_eq!(config_dir_location(Os::MacOs).parts, vec![".config", "efact-printer-agent"]);
    assert!(config_dir_location(Os::Linux).temp_fallback);
    assert!(log_dir_location(Os::Windows).temp_fallback);
    let m = log_dir_location(Os::MacOs);
    assert_eq!(m.parts, vec!["Library", "Logs", "efact-printer-agent"]);
    assert_eq!(log_dir_location(Os::Windows).base_var, "LOCALAPPDATA");
    assert_eq!(log_dir_location(Os::Other).parts, vec![".local", "share", "efact-printer-agent"]);
    assert_eq!(folder_opener_program(Os::Windows), "explorer");
    assert_eq!(folder_opener_program(Os::MacOs), "open");
    assert_eq!(folder_opener_program(Os::Linux), "xdg-open");
}
