use aw_switcher::config::{Config, InputSource};
use aw_switcher::menu::{
    build_menu, capture_step, capture_transition, input_id, is_modifier_key_name, menu_command, parse_input_id, parse_toggle_id,
    status_line, toggle_id, tooltip_text, CaptureActions, CaptureEvent, CaptureStep, CheckEntry, MenuCommand, MonitorStatus, TrayItem,
};

/// (kind, id, label, enabled, checked) of an item; the submenu's items follow it with kind "sub".
fn flatten(items: &[TrayItem]) -> Vec<(String, String, String, bool, bool)> {
    let check = |kind: &str, e: &CheckEntry| (kind.to_string(), e.id.clone(), e.label.clone(), e.enabled, e.checked);
    let mut out = Vec::new();
    for item in items {
        match item {
            TrayItem::Separator => out.push(("sep".to_string(), String::new(), String::new(), false, false)),
            TrayItem::Plain { id, label, enabled } => {
                out.push(("plain".to_string(), id.clone(), label.clone(), *enabled, false))
            }
            TrayItem::Check(e) => out.push(check("check", e)),
            TrayItem::Submenu { label, enabled, items } => {
                out.push(("submenu".to_string(), String::new(), label.clone(), *enabled, false));
                for e in items {
                    out.push(check("sub", e));
                }
            }
        }
    }
    out
}

fn row(kind: &str, id: &str, label: &str, enabled: bool, checked: bool) -> (String, String, String, bool, bool) {
    (kind.to_string(), id.to_string(), label.to_string(), enabled, checked)
}

fn config() -> Config {
    Config {
        hotkey: "CmdOrCtrl+Alt+I".to_string(),
        monitor_match: "AW3926".to_string(),
        open_at_login: true,
        inputs: vec![
            InputSource { name: "HDMI 1".to_string(), code: 0x11, enabled: true },
            InputSource { name: "DisplayPort".to_string(), code: 0x0f, enabled: false },
        ],
    }
}

#[test]
fn parse_input_id_reads_the_index() {
    assert_eq!(parse_input_id("input:3"), Some(3));
    assert_eq!(parse_input_id("input:12"), Some(12));
    assert_eq!(parse_input_id("input:+7"), Some(7));
}

#[test]
fn parse_input_id_refuses_other_ids() {
    assert_eq!(parse_input_id("input:"), None);
    assert_eq!(parse_input_id("input:x"), None);
    assert_eq!(parse_input_id("input:-1"), None);
    assert_eq!(parse_input_id("input: 1"), None);
    assert_eq!(parse_input_id("toggle:1"), None);
    assert_eq!(parse_input_id("inpu"), None);
    assert_eq!(parse_input_id("input:99999999999999999999999"), None);
}

#[test]
fn parse_toggle_id_reads_the_index() {
    assert_eq!(parse_toggle_id("toggle:2"), Some(2));
    assert_eq!(parse_toggle_id("toggle:0"), Some(0));
    assert_eq!(parse_toggle_id("input:2"), None);
    assert_eq!(parse_toggle_id("toggle:"), None);
}

#[test]
fn item_ids_are_prefix_and_decimal_index() {
    assert_eq!(input_id(0), "input:0");
    assert_eq!(input_id(1234), "input:1234");
    assert_eq!(toggle_id(56), "toggle:56");
    assert_eq!(parse_input_id(&input_id(usize::MAX)), Some(usize::MAX));
}

#[test]
fn menu_commands_for_fixed_items() {
    assert_eq!(menu_command("quit"), MenuCommand::Quit);
    assert_eq!(menu_command("rescan"), MenuCommand::Rescan);
    assert_eq!(menu_command("open_config"), MenuCommand::OpenConfig);
    assert_eq!(menu_command("open_at_login"), MenuCommand::ToggleOpenAtLogin);
    assert_eq!(menu_command("set_hotkey"), MenuCommand::SetHotkey);
    assert_eq!(menu_command("status"), MenuCommand::Ignore);
    assert_eq!(menu_command("hotkey_status"), MenuCommand::Ignore);
}

#[test]
fn menu_commands_for_input_items() {
    assert_eq!(menu_command("input:1"), MenuCommand::SelectInput(1));
    assert_eq!(menu_command("toggle:0"), MenuCommand::ToggleCycle(0));
    assert_eq!(menu_command(&input_id(9)), MenuCommand::SelectInput(9));
    assert_eq!(menu_command(&toggle_id(9)), MenuCommand::ToggleCycle(9));
}

#[test]
fn status_line_shows_error_first() {
    assert_eq!(status_line(&config(), Some(0x11), Some("No monitor found")), "⚠ No monitor found");
}

#[test]
fn status_line_names_the_current_input() {
    assert_eq!(status_line(&config(), Some(0x11), None), "Current: HDMI 1");
    assert_eq!(status_line(&config(), Some(0x0f), None), "Current: DisplayPort");
}

#[test]
fn status_line_for_unknown_code_shows_hex() {
    assert_eq!(status_line(&config(), Some(0x05), None), "Current: Unknown (0x05)");
    assert_eq!(status_line(&config(), Some(0x1b), None), "Current: Unknown (0x1b)");
    assert_eq!(status_line(&config(), Some(0x1ab), None), "Current: Unknown (0x1ab)");
}

#[test]
fn status_line_without_reading() {
    assert_eq!(status_line(&config(), None, None), "Current: unknown");
}

#[test]
fn build_menu_lays_out_every_item() {
    let m = build_menu(&config(), Some(0x0f), None);
    assert_eq!(m.items.len(), 13 + 2);
    assert_eq!(
        flatten(&m.items),
        vec![
            row("plain", "status", "Current: DisplayPort", false, false),
            row("sep", "", "", false, false),
            row("check", "input:0", "HDMI 1", true, false),
            // Out of the cycle, but still switchable from the menu.
            row("check", "input:1", "DisplayPort", true, true),
            row("sep", "", "", false, false),
            row("submenu", "", "Cycle Inputs", true, false),
            row("sub", "toggle:0", "HDMI 1", true, true),
            row("sub", "toggle:1", "DisplayPort", true, false),
            row("sep", "", "", false, false),
            row("plain", "hotkey_status", "Hotkey: CmdOrCtrl+Alt+I", false, false),
            row("plain", "set_hotkey", "Set Hotkey…", true, false),
            row("sep", "", "", false, false),
            row("plain", "rescan", "Reload Config && Rescan Monitor", true, false),
            row("plain", "open_config", "Open Config File", true, false),
            row("check", "open_at_login", "Open at Login", true, true),
            row("sep", "", "", false, false),
            row("plain", "quit", "Quit", true, false),
        ]
    );
}

#[test]
fn build_menu_error_wins_and_checks_nothing_without_current() {
    let m = build_menu(&config(), None, Some("boom"));
    let rows = flatten(&m.items);
    assert_eq!(rows[0], row("plain", "status", "⚠ boom", false, false));
    assert!(!rows[2].4 && !rows[3].4);
}

#[test]
fn fixed_item_ids_decode_to_their_commands() {
    let m = build_menu(&config(), None, None);
    let ids: Vec<(String, MenuCommand)> = flatten(&m.items)
        .into_iter()
        .filter(|r| !r.1.is_empty())
        .map(|r| (r.1.clone(), menu_command(&r.1)))
        .collect();
    assert_eq!(ids[0], ("status".to_string(), MenuCommand::Ignore));
    assert_eq!(ids[1], ("input:0".to_string(), MenuCommand::SelectInput(0)));
    assert_eq!(ids[3], ("toggle:0".to_string(), MenuCommand::ToggleCycle(0)));
    assert_eq!(ids[5], ("hotkey_status".to_string(), MenuCommand::Ignore));
    assert_eq!(ids[6], ("set_hotkey".to_string(), MenuCommand::SetHotkey));
    assert_eq!(ids[10], ("quit".to_string(), MenuCommand::Quit));
}

#[test]
fn monitor_status_bookkeeping() {
    let mut st = MonitorStatus::initial(false);
    assert_eq!(st.error_text(), Some("No monitor found"));
    assert_eq!(st.after_read(None), None);
    assert_eq!(st.error_text(), Some("No monitor found"));
    st.after_action(Ok(()));
    assert_eq!(st.error_text(), None);
    assert_eq!(st.after_read(Some(Ok(0x11))), Some(0x11));
    assert_eq!(st.error_text(), None);
    assert_eq!(st.after_read(Some(Err("read failed".to_string()))), None);
    assert_eq!(st.error_text(), Some("read failed"));
    assert_eq!(st.after_read(Some(Ok(0x12))), Some(0x12));
    assert_eq!(st.error_text(), Some("read failed"));
    st.after_action(Err("set failed".to_string()));
    assert_eq!(st.error_text(), Some("set failed"));
    assert_eq!(MonitorStatus::initial(true).error_text(), None);
}

#[test]
fn tooltip_names_the_monitor() {
    assert_eq!(tooltip_text(Some("AW3926QW")), "AW Switcher — AW3926QW");
    assert_eq!(tooltip_text(None), "AW Switcher — no monitor found");
}

#[test]
fn capture_step_decisions() {
    assert_eq!(capture_step("Escape", true, true), CaptureStep::Cancel);
    assert_eq!(capture_step("Escape", true, false), CaptureStep::Cancel);
    assert_eq!(capture_step("ShiftLeft", true, true), CaptureStep::Ignore);
    assert_eq!(capture_step("Unidentified(Unidentified)", false, true), CaptureStep::Ignore);
    assert_eq!(capture_step("KeyI", true, false), CaptureStep::NeedModifier);
    assert_eq!(capture_step("KeyI", true, true), CaptureStep::Accept);
}

#[test]
fn modifier_key_names() {
    for name in [
        "ShiftLeft", "ShiftRight", "ControlLeft", "ControlRight", "AltLeft", "AltRight", "SuperLeft", "SuperRight",
        "CapsLock", "NumLock", "ScrollLock", "Fn", "FnLock",
    ] {
        assert!(is_modifier_key_name(name), "{name}");
    }
    for name in ["KeyA", "Escape", "F13", "Digit1", "Space", "shiftleft", "FnLockX"] {
        assert!(!is_modifier_key_name(name), "{name}");
    }
}

fn actions(flags: &[&str], window_open: bool) -> CaptureActions {
    CaptureActions {
        warn_need_modifier: flags.contains(&"warn"),
        store_new_hotkey: flags.contains(&"store"),
        unregister_hotkey: flags.contains(&"unregister"),
        register_configured: flags.contains(&"register"),
        close_window: flags.contains(&"close"),
        open_window: flags.contains(&"open"),
        window_open,
    }
}

#[test]
fn choosing_set_hotkey_opens_the_capture_window_once() {
    assert_eq!(capture_transition(false, CaptureEvent::SetHotkeyChosen), actions(&["unregister", "open"], true));
    assert_eq!(capture_transition(true, CaptureEvent::SetHotkeyChosen), actions(&[], true));
}

#[test]
fn leaving_the_capture_window_registers_the_hotkey_again() {
    assert_eq!(
        capture_transition(true, CaptureEvent::Key(CaptureStep::Cancel)),
        actions(&["register", "close"], false)
    );
    assert_eq!(capture_transition(true, CaptureEvent::CloseRequested), actions(&["register", "close"], false));
    assert_eq!(
        capture_transition(true, CaptureEvent::Key(CaptureStep::Accept)),
        actions(&["store", "register", "close"], false)
    );
}

#[test]
fn other_keys_keep_the_capture_window_open() {
    assert_eq!(capture_transition(true, CaptureEvent::Key(CaptureStep::Ignore)), actions(&[], true));
    assert_eq!(
        capture_transition(true, CaptureEvent::Key(CaptureStep::NeedModifier)),
        actions(&["warn"], true)
    );
}

#[test]
fn capture_events_without_a_window_do_nothing() {
    assert_eq!(capture_transition(false, CaptureEvent::Key(CaptureStep::Accept)), actions(&[], false));
    assert_eq!(capture_transition(false, CaptureEvent::CloseRequested), actions(&[], false));
}
