use ratctl::config::{format_binding, parse_binding, parse_hex_color};
use ratctl::device::parse_hid_id;
use ratctl::protocol::{dpi_to_raw, raw_to_dpi};
use ratctl::types::{hid_keycode_to_name, name_to_hid_keycode, BindingKind, ButtonBinding, ButtonCode, LedMode};

#[test]
fn test_format_parse_mouse_binding() {
    let binding = ButtonBinding::mouse_action(ButtonCode::LeftClick);
    let s = format_binding(&binding);
    assert_eq!(s, "left_click");
    let back = parse_binding(&s).unwrap();
    assert_eq!(back, binding);
}

#[test]
fn test_format_parse_keyboard_binding() {
    let binding = ButtonBinding::keyboard_key(0x06); // 'c'
    let s = format_binding(&binding);
    assert_eq!(s, "key:c");
    let back = parse_binding(&s).unwrap();
    assert_eq!(back, binding);
}

#[test]
fn test_format_parse_disabled() {
    let binding = ButtonBinding::disabled();
    let s = format_binding(&binding);
    assert_eq!(s, "disabled");
    let back = parse_binding(&s).unwrap();
    assert_eq!(back.action_code, 0xFF);
    assert_eq!(back.kind, BindingKind::Mouse);
}

#[test]
fn test_hex_color_roundtrip() {
    let (r, g, b) = parse_hex_color("#ff8800").unwrap();
    assert_eq!((r, g, b), (0xFF, 0x88, 0x00));
}

#[test]
fn test_hex_color_no_hash() {
    let (r, g, b) = parse_hex_color("aabbcc").unwrap();
    assert_eq!((r, g, b), (0xAA, 0xBB, 0xCC));
}

#[test]
fn test_parse_hid_id_spatha_x() {
    let uevent = "HID_ID=0003:00000B05:00001977\nHID_NAME=ASUS ROG SPATHA X\n";
    let (vid, pid) = parse_hid_id(uevent).unwrap();
    assert_eq!(vid, 0x0B05);
    assert_eq!(pid, 0x1977);
}

#[test]
fn test_parse_hid_id_wireless() {
    let uevent = "HID_ID=0003:00000B05:00001979\n";
    let (vid, pid) = parse_hid_id(uevent).unwrap();
    assert_eq!(vid, 0x0B05);
    assert_eq!(pid, 0x1979);
}

#[test]
fn test_parse_hid_id_missing() {
    assert!(parse_hid_id("HID_NAME=Something\n").is_none());
}

#[test]
fn test_dpi_conversion_roundtrip() {
    for dpi in (100..=19000).step_by(50) {
        let raw = dpi_to_raw(dpi);
        let back = raw_to_dpi(raw);
        assert_eq!(back, dpi, "DPI roundtrip failed for {}", dpi);
    }
}

#[test]
fn test_raw_to_dpi_no_overflow() {
    // raw=1311 would overflow u16 if done naively (1311*50=65550 > 65535)
    let dpi = raw_to_dpi(1311);
    assert_eq!(dpi, 65535); // clamped
    let dpi = raw_to_dpi(u16::MAX);
    assert_eq!(dpi, 65535); // clamped
}

#[test]
fn test_button_code_roundtrip() {
    for code in [0xF0, 0xF1, 0xF2, 0xE4, 0xE5, 0xE6, 0xE7, 0xE8, 0xE9, 0xEA, 0xEB, 0xEC, 0xED, 0xEE, 0xEF, 0xDA, 0xDB, 0xDC, 0xDD, 0xDE, 0xDF, 0xFF] {
        let bc = ButtonCode::from_u8(code).unwrap();
        let name = bc.name();
        let back = ButtonCode::from_name(name).unwrap();
        assert_eq!(bc, back, "ButtonCode roundtrip failed for {:#04x}", code);
    }
}

#[test]
fn test_led_mode_roundtrip() {
    for i in 0..=6u8 {
        let mode = LedMode::from_u8(i).unwrap();
        let name = mode.name();
        let back = LedMode::from_name(name).unwrap();
        assert_eq!(mode, back);
    }
}

#[test]
fn test_hid_keycode_roundtrip() {
    for (code, name) in [(0x04, "a"), (0x1E, "1"), (0x28, "enter"), (0x3A, "f1")] {
        assert_eq!(hid_keycode_to_name(code), Some(name));
        assert_eq!(name_to_hid_keycode(name), Some(code));
    }
}
