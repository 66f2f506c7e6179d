use aw_switcher::config::{default_enabled, default_open_at_login, next_in_cycle, Config, InputSource};

fn input(name: &str, code: u16, enabled: bool) -> InputSource {
    InputSource { name: name.to_string(), code, enabled }
}

fn sample_config() -> Config {
    Config {
        hotkey: "Ctrl+F13".to_string(),
        monitor_match: "AW3926".to_string(),
        open_at_login: false,
        inputs: vec![
            input("HDMI 1", 0x11, true),
            input("HDMI 2", 0x12, true),
            input("DisplayPort", 0x0f, false),
            input("USB-C", 0x1b, true),
        ],
    }
}

#[test]
fn defaults_for_missing_fields_are_on() {
    assert!(default_enabled());
    assert!(default_open_at_login());
}

#[test]
fn default_config_matches_the_aw3926qw() {
    let c = Config::default();
    assert_eq!(c.hotkey, "CmdOrCtrl+Alt+I");
    assert_eq!(c.monitor_match, "AW3926");
    assert!(c.open_at_login);
    let names: Vec<&str> = c.inputs.iter().map(|i| i.name.as_str()).collect();
    assert_eq!(names, vec!["HDMI 1", "HDMI 2", "DisplayPort", "USB-C"]);
    let codes: Vec<u16> = c.inputs.iter().map(|i| i.code).collect();
    assert_eq!(codes, vec![0x11, 0x12, 0x0f, 0x1b]);
    assert!(c.inputs.iter().all(|i| i.enabled));
}

#[test]
fn cycle_holds_enabled_codes_in_order() {
    assert_eq!(sample_config().cycle_codes(), vec![0x11, 0x12, 0x1b]);
}

#[test]
fn hotkey_goes_to_the_next_enabled_input() {
    let c = sample_config();
    assert_eq!(c.next_cycle_code(Some(0x11)), Some(0x12));
    // DisplayPort is disabled, so it is skipped.
    assert_eq!(c.next_cycle_code(Some(0x12)), Some(0x1b));
}

#[test]
fn hotkey_wraps_from_last_to_first() {
    assert_eq!(sample_config().next_cycle_code(Some(0x1b)), Some(0x11));
}

#[test]
fn hotkey_from_unknown_or_disabled_input_goes_to_first() {
    let c = sample_config();
    assert_eq!(c.next_cycle_code(None), Some(0x11));
    assert_eq!(c.next_cycle_code(Some(0x0f)), Some(0x11));
    assert_eq!(c.next_cycle_code(Some(0x42)), Some(0x11));
}

#[test]
fn hotkey_does_nothing_with_empty_cycle() {
    let mut c = sample_config();
    for i in 0..c.inputs.len() {
        c.inputs[i].enabled = false;
    }
    assert_eq!(c.next_cycle_code(Some(0x11)), None);
    assert_eq!(c.next_cycle_code(None), None);
    assert!(c.cycle_codes().is_empty());
}

#[test]
fn presses_come_back_after_cycle_length() {
    let c = sample_config();
    let mut cur = Some(0x12u16);
    for _ in 0..3 {
        cur = c.next_cycle_code(cur);
    }
    assert_eq!(cur, Some(0x12));
}

#[test]
fn next_in_cycle_uses_first_occurrence() {
    let cycle = vec![5u16, 7, 5, 9];
    assert_eq!(next_in_cycle(&cycle, Some(5)), Some(7));
    assert_eq!(next_in_cycle(&cycle, Some(9)), Some(5));
    assert_eq!(next_in_cycle(&vec![], Some(9)), None);
}

#[test]
fn toggle_cycle_flips_one_input_and_back() {
    let mut c = sample_config();
    assert!(c.toggle_cycle(2));
    assert!(c.inputs[2].enabled);
    assert_eq!(c.cycle_codes(), vec![0x11, 0x12, 0x0f, 0x1b]);
    assert!(c.toggle_cycle(2));
    assert!(!c.inputs[2].enabled);
    assert_eq!(c.inputs[2].name, "DisplayPort");
    assert_eq!(c.cycle_codes(), vec![0x11, 0x12, 0x1b]);
}

#[test]
fn toggle_cycle_out_of_range_changes_nothing() {
    let mut c = sample_config();
    assert!(!c.toggle_cycle(4));
    assert_eq!(c.cycle_codes(), vec![0x11, 0x12, 0x1b]);
}

#[test]
fn toggle_open_at_login_flips() {
    let mut c = sample_config();
    c.toggle_open_at_login();
    assert!(c.open_at_login);
    c.toggle_open_at_login();
    assert!(!c.open_at_login);
}

#[test]
fn input_code_by_index() {
    let c = sample_config();
    assert_eq!(c.input_code(3), Some(0x1b));
    assert_eq!(c.input_code(4), None);
}
