use aw_switcher::icon::tray_icon;
use aw_switcher::macos_ddc::{
    checksum, get_vcp_request, reply_value, set_vcp_request, transport_chip_address, write_step, ServiceScan,
    WriteStep,
};
use aw_switcher::monitor::{
    after_failed_attempt, first_match, input_code_from_value, input_value_byte, select_display, DisplayInfo,
    FindError,
};
use aw_switcher::text::{parse_usize, push_decimal, push_hex2, strip_prefix, text_contains, text_eq};

fn info(id: &str, model: Option<&str>) -> DisplayInfo {
    DisplayInfo { id: id.to_string(), model_name: model.map(|m| m.to_string()) }
}

fn glyph(x: usize, y: usize) -> bool {
    let bezel_rows = (2..20).contains(&x) && [2, 3, 13, 14].contains(&y);
    let bezel_cols = (2..15).contains(&y) && [2, 3, 18, 19].contains(&x);
    let neck = (15..18).contains(&y) && (x == 10 || x == 11);
    let foot = (7..15).contains(&x) && (y == 18 || y == 19);
    bezel_rows || bezel_cols || neck || foot
}

#[test]
fn tray_icon_is_a_valid_22_by_22_rgba_buffer() {
    let img = tray_icon();
    assert_eq!(img.width, 22);
    assert_eq!(img.height, 22);
    assert_eq!(img.rgba.len(), (img.width * img.height * 4) as usize);
}

#[test]
fn tray_icon_draws_the_monitor_glyph() {
    let img = tray_icon();
    let mut opaque = 0;
    for y in 0..22 {
        for x in 0..22 {
            let i = (y * 22 + x) * 4;
            assert_eq!(&img.rgba[i..i + 3], &[0, 0, 0]);
            let expected = if glyph(x, y) { 255 } else { 0 };
            assert_eq!(img.rgba[i + 3], expected, "pixel ({x}, {y})");
            if expected == 255 {
                opaque += 1;
            }
        }
    }
    // Bezel: 18*4 + 13*4 - 16 shared corners; neck 6; foot 16.
    assert_eq!(opaque, 18 * 4 + 13 * 4 - 16 + 6 + 16);
    assert_eq!(img.rgba[(2 * 22 + 2) * 4 + 3], 255);
    assert_eq!(img.rgba[(8 * 22 + 8) * 4 + 3], 0);
}

#[test]
fn no_display_is_an_error() {
    assert!(matches!(select_display(&vec![], "AW3926"), Err(FindError::NoDisplays)));
}

#[test]
fn a_single_display_is_used_whatever_its_name() {
    assert_eq!(select_display(&vec![info("1", Some("LG UltraFine"))], "AW3926").unwrap(), 0);
    assert_eq!(select_display(&vec![info("1", None)], "AW3926").unwrap(), 0);
}

#[test]
fn several_displays_match_case_insensitively() {
    let displays = vec![info("1", Some("DELL U2720Q")), info("2", None), info("3", Some("Alienware aw3926qw"))];
    assert_eq!(select_display(&displays, "AW3926").unwrap(), 2);
    assert_eq!(select_display(&displays, "u2720").unwrap(), 0);
}

#[test]
fn several_displays_take_the_first_match() {
    let displays = vec![info("1", Some("AW3926QW")), info("2", Some("aw3926qw"))];
    assert_eq!(select_display(&displays, "aw3926").unwrap(), 0);
}

#[test]
fn several_displays_without_match_name_them_all() {
    let displays = vec![info("1", Some("DELL U2720Q")), info("display-2", None)];
    match select_display(&displays, "AW3926") {
        Err(FindError::NoMatch { model_match, found }) => {
            assert_eq!(model_match, "AW3926");
            assert_eq!(found, vec!["DELL U2720Q".to_string(), "display-2".to_string()]);
        }
        other => panic!("unexpected {other:?}"),
    }
}

#[test]
fn first_match_on_lowered_names() {
    let models = vec![None, Some("dell".to_string()), Some("aw3926qw".to_string())];
    assert_eq!(first_match(&models, "3926"), Some(2));
    assert_eq!(first_match(&models, ""), Some(1));
    assert_eq!(first_match(&models, "lg"), None);
}

#[test]
fn display_name_falls_back_to_id() {
    assert_eq!(info("7", Some("AW3926QW")).name(), "AW3926QW");
    assert_eq!(info("7", None).name(), "7");
}

#[test]
fn retries_wait_longer_each_time_and_stop_after_five() {
    let steps: Vec<(u64, bool)> = (0..5).map(|a| {
        let s = after_failed_attempt(a);
        (s.delay_ms, s.retry)
    }).collect();
    assert_eq!(steps, vec![(60, true), (120, true), (180, true), (240, true), (300, false)]);
}

#[test]
fn input_code_ignores_high_byte() {
    assert_eq!(input_code_from_value(0x0f, 0x0f), 0x0f);
    assert_eq!(input_code_from_value(0xff, 0x11), 0x11);
    assert_eq!(input_value_byte(0x11), Some(0x11));
    assert_eq!(input_value_byte(0xff), Some(0xff));
    assert_eq!(input_value_byte(0x100), None);
    assert_eq!(input_value_byte(0x111), None);
}

#[test]
fn checksum_xors_with_destination_address() {
    assert_eq!(checksum(&[]), 0x6e);
    assert_eq!(checksum(&[0x82, 0x01, 0x60]), 0x8d);
}

#[test]
fn get_request_for_input_source() {
    assert_eq!(get_vcp_request(0x60), [0x82, 0x01, 0x60, 0x8d]);
}

#[test]
fn set_request_for_input_source() {
    // 0x6e ^ 0x51 ^ 0x84 ^ 0x03 ^ 0x60 ^ 0x00 ^ 0x11
    assert_eq!(set_vcp_request(0x60, 0x11), [0x84, 0x03, 0x60, 0x00, 0x11, 0xc9]);
}

#[test]
fn requests_check_out_to_zero() {
    for code in [0u8, 0x10, 0x60, 0xff] {
        assert_eq!(checksum(&get_vcp_request(code)), 0);
        for value in [0u8, 0x0f, 0x1b, 0xff] {
            let mut covered = vec![0x51u8];
            covered.extend_from_slice(&set_vcp_request(code, value));
            assert_eq!(checksum(&covered), 0);
        }
    }
}

#[test]
fn checksum_ignores_byte_order() {
    let a = [0x51u8, 0x84, 0x03, 0x60, 0x00, 0x11];
    let b = [0x11u8, 0x00, 0x60, 0x51, 0x03, 0x84];
    assert_eq!(checksum(&a), checksum(&b));
    assert_eq!(checksum(&a), 0xc9);
}

#[test]
fn reply_value_reads_byte_nine() {
    let mut reply = [0u8; 12];
    reply[9] = 0x12;
    reply[8] = 0x99;
    assert_eq!(reply_value(0, &reply), Ok(0x12));
    assert_eq!(reply_value(-536870212, &reply), Err(-536870212));
}

#[test]
fn write_attempts() {
    assert_eq!(write_step(0, 0), WriteStep::Done);
    assert_eq!(write_step(0, 5), WriteStep::TryAgain);
    assert_eq!(write_step(1, 5), WriteStep::Fail(5));
    assert_eq!(write_step(1, 0), WriteStep::Done);
}

#[test]
fn service_scan_follows_the_matching_framebuffer() {
    let loc = "IOService:/AppleARMPE/dispext0";
    let mut scan = ServiceScan::new(loc.to_string());
    assert!(!scan.is_candidate(Some("DCPAVServiceProxy")));
    scan.visit_framebuffer(Some(loc));
    assert!(scan.is_candidate(Some("DCPAVServiceProxy")));
    assert!(!scan.is_candidate(Some("AppleDCPDPTXProxy")));
    assert!(!scan.is_candidate(None));
    scan.visit_framebuffer(Some("IOService:/AppleARMPE/disp0"));
    assert!(!scan.is_candidate(Some("DCPAVServiceProxy")));
    scan.visit_framebuffer(None);
    assert!(!scan.framebuffer_matches);
}

#[test]
fn chip_address_for_external_services() {
    assert_eq!(transport_chip_address(true, Some("External"), None), Some(0x37));
    assert_eq!(transport_chip_address(true, Some("External"), Some("AppleDCPMCDP29XX")), Some(0xB7));
    assert_eq!(transport_chip_address(true, Some("Embedded"), None), None);
    assert_eq!(transport_chip_address(false, Some("External"), None), None);
    assert_eq!(transport_chip_address(true, None, None), None);
}

#[test]
fn decimal_and_hex_rendering() {
    let mut s = String::from("n=");
    push_decimal(&mut s, 0);
    push_decimal(&mut s, 907);
    assert_eq!(s, "n=0907");
    let mut h = String::new();
    push_hex2(&mut h, 0x5);
    h.push(' ');
    push_hex2(&mut h, 0xab);
    h.push(' ');
    push_hex2(&mut h, 0xbeef);
    assert_eq!(h, "05 ab beef");
}

#[test]
fn parse_usize_like_std() {
    for s in ["0", "42", "+42", "007", "18446744073709551615", "", "+", "-1", " 1", "1 ", "4a", "18446744073709551616"] {
        assert_eq!(parse_usize(s), s.parse::<usize>().ok(), "{s:?}");
    }
}

#[test]
fn text_helpers() {
    assert!(text_eq("External", "External"));
    assert!(!text_eq("External", "external"));
    assert!(text_contains("alienware aw3926qw", "aw3926"));
    assert!(!text_contains("aw39", "aw3926"));
    assert!(text_contains("x", ""));
    assert_eq!(strip_prefix("input:3", "input:"), Some("3"));
    assert_eq!(strip_prefix("inp", "input:"), None);
}
