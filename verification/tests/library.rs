use ratctl::cli::{
    device_list, profile_keys_valid, select_profiles, status_body, status_header, target_profile,
    validate_profile_num, ProfileError,
};
use ratctl::config::{
    config_to_led, config_to_profile, config_to_profile_checked, format_binding, led_to_config,
    parse_binding, parse_hex_color, profile_to_config, store_profile, store_profiles,
    BindingError, ColorError, Config, ConfigError, LedZoneConfig, ProfileConfig,
};
use ratctl::corsair;
use ratctl::device::{
    detect_from_uevent, find_device, interface_matches, new_candidate, parse_hid_id, uevent_matches, DetectError,
};
use ratctl::devices::{deathadder_v2, find_descriptor, registry, scimitar_rgb_elite, spatha_x, ProtocolKind};
use ratctl::evdev::{
    button_code_to_slot, evdev_key_to_button, first_press, is_unmapped_mouse_button, unmapped_presses,
};
use ratctl::namemap::NameMap;
use ratctl::protocol::{
    self as asus, apply_profile_steps, apply_step, dpi_to_raw, is_error_response, make_request,
    raw_to_dpi, AsusError, AsusStep,
};
use ratctl::razer;
use ratctl::types::{
    debounce_times, polling_rates, BindingKind, ButtonBinding, ButtonCode, DeviceProfile, LedConfig,
    LedMode, ProfileData, Settings,
};

fn spatha_profile() -> DeviceProfile {
    let desc = spatha_x();
    DeviceProfile {
        buttons: desc.button_slots.iter().map(|c| ButtonBinding::mouse_action(*c)).collect(),
        settings: Settings {
            dpi_presets: vec![800, 1600, 3200, 6400],
            polling_rate: 1000,
            debounce_ms: 8,
            angle_snapping: false,
        },
        leds: vec![
            LedConfig { mode: LedMode::Static, brightness: 4, r: 0xff, g: 0, b: 0 },
            LedConfig { mode: LedMode::Breathing, brightness: 3, r: 0, g: 0xff, b: 0 },
            LedConfig { mode: LedMode::Rainbow, brightness: 1, r: 0x12, g: 0x34, b: 0x56 },
        ],
    }
}

fn same_profile(a: &DeviceProfile, b: &DeviceProfile) -> bool {
    a.buttons == b.buttons
        && a.settings.dpi_presets == b.settings.dpi_presets
        && a.settings.polling_rate == b.settings.polling_rate
        && a.settings.debounce_ms == b.settings.debounce_ms
        && a.settings.angle_snapping == b.settings.angle_snapping
        && a.leds == b.leds
}

// --- types ---

#[test]
fn button_code_bytes_roundtrip_and_unknown_bytes_refused() {
    let desc = scimitar_rgb_elite();
    for code in desc.button_slots.iter() {
        assert_eq!(ButtonCode::from_u8(code.to_u8()), Some(*code));
        assert_eq!(ButtonCode::from_name(code.name()), Some(*code));
    }
    assert_eq!(ButtonCode::from_u8(0x00), None);
    assert_eq!(ButtonCode::from_u8(0xE0), None);
    assert_eq!(ButtonCode::from_name("not_a_button"), None);
    assert_eq!(ButtonCode::DpiCycle.to_u8(), 0xE6);
    assert_eq!(ButtonCode::SideL.name(), "side_l");
}

#[test]
fn led_modes_only_bytes_below_seven() {
    assert_eq!(LedMode::from_u8(7), None);
    assert_eq!(LedMode::from_u8(6), Some(LedMode::Battery));
    assert_eq!(LedMode::Reactive.to_u8(), 4);
    assert_eq!(LedMode::from_name("Static"), None);
}

#[test]
fn keycode_table_edges() {
    assert_eq!(ratctl::types::hid_keycode_to_name(0x00), None);
    assert_eq!(ratctl::types::hid_keycode_to_name(0x2C), Some("space"));
    assert_eq!(ratctl::types::name_to_hid_keycode("space"), Some(0x2C));
    assert_eq!(ratctl::types::name_to_hid_keycode("nope"), None);
}

#[test]
fn binding_helpers() {
    assert_eq!(ButtonBinding::disabled(), ButtonBinding { action_code: 0xFF, kind: BindingKind::Mouse });
    assert_eq!(ButtonBinding::keyboard_key(0x04).action_type_byte(), 0);
    assert_eq!(ButtonBinding::mouse_action(ButtonCode::Back).action_type_byte(), 1);
    assert_eq!(polling_rates(), [125, 250, 500, 1000]);
    assert_eq!(debounce_times(), [4, 8, 12, 16, 20, 24, 28, 32]);
}

// --- bindings and colors ---

#[test]
fn binding_format_parse_roundtrip_on_examples() {
    let examples = [
        ButtonBinding::mouse_action(ButtonCode::SideG),
        ButtonBinding::keyboard_key(0x3E),
        ButtonBinding::keyboard_key(0x1E),
        ButtonBinding::disabled(),
    ];
    for b in examples {
        let s = format_binding(&b);
        assert_eq!(parse_binding(&s).unwrap(), b);
    }
    assert_eq!(format_binding(&ButtonBinding::keyboard_key(0x3E)), "key:f5");
}

#[test]
fn binding_unrepresentable_codes_format_as_hex() {
    let s = format_binding(&ButtonBinding { action_code: 0x01, kind: BindingKind::Mouse });
    assert_eq!(s, "mouse:0x01");
    let s = format_binding(&ButtonBinding { action_code: 0xAB, kind: BindingKind::Keyboard });
    assert_eq!(s, "key:0xab");
}

#[test]
fn binding_errors() {
    assert!(matches!(parse_binding("key:zzz"), Err(BindingError::UnknownKey(ref k)) if k == "zzz"));
    assert!(matches!(parse_binding("bogus"), Err(BindingError::UnknownBinding(ref s)) if s == "bogus"));
}

#[test]
fn color_errors() {
    assert!(matches!(parse_hex_color("#ff00"), Err(ColorError::WrongLength(ref s)) if s == "ff00"));
    assert!(matches!(parse_hex_color("zz0000"), Err(ColorError::InvalidDigit)));
    assert_eq!(parse_hex_color("#A0b1C2").unwrap(), (0xA0, 0xB1, 0xC2));
}

#[test]
fn led_config_roundtrip() {
    let led = LedConfig { mode: LedMode::Cycle, brightness: 2, r: 1, g: 2, b: 254 };
    let z = led_to_config(&led);
    assert_eq!(z.mode, "cycle");
    assert_eq!(z.color.as_deref(), Some("#0102fe"));
    assert_eq!(config_to_led(&z, "logo").unwrap(), led);
}

#[test]
fn led_without_color_is_black() {
    let z = LedZoneConfig { mode: "static".to_string(), brightness: 1, color: None };
    let led = config_to_led(&z, "logo").unwrap();
    assert_eq!((led.r, led.g, led.b), (0, 0, 0));
}

#[test]
fn led_unknown_mode_refused() {
    let z = LedZoneConfig { mode: "disco".to_string(), brightness: 1, color: None };
    assert!(matches!(config_to_led(&z, "logo"),
        Err(ConfigError::UnknownLedMode { ref mode, ref zone }) if mode == "disco" && zone == "logo"));
}

// --- profiles and the config file ---

#[test]
fn profile_dump_then_apply_gives_the_profile_back() {
    let desc = spatha_x();
    let p = spatha_profile();
    let pc = profile_to_config(&p, &desc);
    assert_eq!(pc.dpi.get("preset_3"), Some(&3200));
    assert_eq!(pc.buttons.get("side_f").map(|s| s.as_str()), Some("side_f"));
    let back = config_to_profile(&pc, &desc).unwrap();
    assert!(same_profile(&back, &p));
}

fn valid_config() -> ProfileConfig {
    profile_to_config(&spatha_profile(), &spatha_x())
}

#[test]
fn config_errors_for_each_kind() {
    let desc = spatha_x();

    let mut pc = valid_config();
    pc.buttons = NameMap::new();
    assert!(matches!(config_to_profile_checked(&pc, &desc),
        Some(Err(ConfigError::MissingButton(ref n))) if n == "left_click"));

    let mut pc = valid_config();
    pc.buttons.insert("back".to_string(), "teleport".to_string());
    assert!(matches!(config_to_profile_checked(&pc, &desc),
        Some(Err(ConfigError::InvalidBinding { ref button, cause: BindingError::UnknownBinding(_) })) if button == "back"));

    let mut pc = valid_config();
    pc.dpi = NameMap::new();
    assert!(matches!(config_to_profile_checked(&pc, &desc),
        Some(Err(ConfigError::MissingDpi(ref k))) if k == "preset_1"));

    let mut pc = valid_config();
    pc.dpi.insert("preset_2".to_string(), 50);
    assert!(matches!(config_to_profile_checked(&pc, &desc),
        Some(Err(ConfigError::DpiOutOfRange { ref key, dpi: 50, min: 100, max: 19000 })) if key == "preset_2"));

    let mut pc = valid_config();
    pc.polling_rate = 333;
    assert!(matches!(config_to_profile_checked(&pc, &desc), Some(Err(ConfigError::InvalidPollingRate(333)))));

    let mut pc = valid_config();
    pc.debounce_ms = 5;
    assert!(matches!(config_to_profile_checked(&pc, &desc), Some(Err(ConfigError::InvalidDebounce(5)))));

    let mut pc = valid_config();
    pc.leds = NameMap::new();
    assert!(matches!(config_to_profile_checked(&pc, &desc),
        Some(Err(ConfigError::MissingLedZone(ref z))) if z == "logo"));

    let mut pc = valid_config();
    pc.leds.insert("wheel".to_string(), LedZoneConfig { mode: "static".to_string(), brightness: 1, color: Some("#12".to_string()) });
    assert!(matches!(config_to_profile_checked(&pc, &desc),
        Some(Err(ConfigError::InvalidColor { ref zone, cause: ColorError::WrongLength(_), .. })) if zone == "wheel"));

    let mut pc = valid_config();
    pc.leds.insert("side".to_string(), LedZoneConfig { mode: "static".to_string(), brightness: 5, color: None });
    assert!(matches!(config_to_profile_checked(&pc, &desc),
        Some(Err(ConfigError::BrightnessTooHigh { ref zone, brightness: 5, max: 4 })) if zone == "side"));
}

#[test]
fn config_color_that_cannot_be_sliced_is_reported() {
    let desc = spatha_x();
    let mut pc = valid_config();
    pc.leds.insert("logo".to_string(), LedZoneConfig { mode: "static".to_string(), brightness: 1, color: Some("aé123".to_string()) });
    assert!(config_to_profile_checked(&pc, &desc).is_none());
}

#[test]
fn storing_profiles_by_number() {
    let desc = spatha_x();
    let mut cfg = Config { active_profile: Some(2), profile: NameMap::new() };
    store_profile(&mut cfg, 3, &spatha_profile(), &desc);
    assert_eq!(cfg.profile.len(), 1);
    assert!(cfg.profile.get("3").is_some());
    store_profiles(&mut cfg, &vec![spatha_profile(), spatha_profile()], &desc);
    assert_eq!(cfg.profile.len(), 3);
    assert!(cfg.profile.get("1").is_some() && cfg.profile.get("2").is_some());
    assert_eq!(cfg.active_profile, Some(2));
}

#[test]
fn name_map_insert_replaces() {
    let mut m: NameMap<u16> = NameMap::new();
    assert!(m.is_empty());
    m.insert("a".to_string(), 1);
    m.insert("b".to_string(), 2);
    m.insert("a".to_string(), 3);
    assert_eq!(m.len(), 2);
    assert_eq!(m.get("a"), Some(&3));
    assert_eq!(m.get("c"), None);
    let keys: Vec<&str> = m.entries().iter().map(|(k, _)| k.as_str()).collect();
    assert_eq!(keys, vec!["a", "b"]);
}

// --- command-line decisions ---

#[test]
fn profile_numbers_are_checked() {
    let desc = spatha_x();
    assert_eq!(validate_profile_num(3, &desc), Ok(()));
    assert_eq!(validate_profile_num(0, &desc), Err(ProfileError::OutOfRange { max: 5, got: 0 }));
    assert_eq!(validate_profile_num(6, &desc), Err(ProfileError::OutOfRange { max: 5, got: 6 }));
    assert_eq!(ProfileError::OutOfRange { max: 5, got: 6 }.message(), "Profile must be 1-5, got 6");
    assert_eq!(ProfileError::NotInConfig(4).message(), "Profile 4 not found in config file");
}

fn config_with_keys(keys: &[&str]) -> Config {
    let mut cfg = Config { active_profile: None, profile: NameMap::new() };
    for k in keys {
        cfg.profile.insert(k.to_string(), valid_config());
    }
    cfg
}

#[test]
fn apply_order_by_number_then_file_order() {
    let desc = spatha_x();
    let cfg = config_with_keys(&["2", "1", "abc", "01", "+2"]);
    assert!(profile_keys_valid(&cfg));
    let sel = select_profiles(&cfg, None, &desc).unwrap();
    let got: Vec<(u8, &str)> = sel.iter().map(|(i, k)| (*i, k.as_str())).collect();
    assert_eq!(got, vec![(0, "1"), (0, "01"), (1, "2"), (1, "+2")]);
}

#[test]
fn apply_single_profile_selection() {
    let desc = spatha_x();
    let cfg = config_with_keys(&["1", "3"]);
    let sel = select_profiles(&cfg, Some(3), &desc).unwrap();
    assert_eq!(sel.len(), 1);
    assert_eq!(sel[0].0, 2);
    assert_eq!(sel[0].1, "3");
    assert_eq!(select_profiles(&cfg, Some(2), &desc).unwrap_err(), ProfileError::NotInConfig(2));
    assert_eq!(select_profiles(&cfg, Some(9), &desc).unwrap_err(), ProfileError::OutOfRange { max: 5, got: 9 });
}

#[test]
fn profile_zero_key_is_detected() {
    let cfg = config_with_keys(&["1", "0"]);
    assert!(!profile_keys_valid(&cfg));
}

#[test]
fn target_profile_after_apply() {
    assert_eq!(target_profile(Some(3), 0), 2);
    assert_eq!(target_profile(None, 4), 4);
}

#[test]
fn status_report_text() {
    let data = ProfileData { current_profile: 1, firmware_version: "1.2.3".to_string() };
    assert_eq!(status_header(&data), vec!["Firmware:       1.2.3".to_string(), "Active profile: 2".to_string(), String::new()]);
    let body = status_body(&spatha_profile(), &spatha_x());
    assert_eq!(body[0], "=== Settings ===");
    assert_eq!(body[1], "Polling rate:   1000 Hz");
    assert_eq!(body[2], "Debounce:       8 ms");
    assert_eq!(body[3], "Angle snapping: off");
    assert_eq!(body[5], "=== DPI Presets ===");
    assert_eq!(body[6], "  Preset 1: 800 DPI");
    assert_eq!(body[10], "");
    assert_eq!(body[11], "=== Buttons ===");
    assert_eq!(body[12], format!("  {:12} -> {}", "left_click", "left_click"));
    assert_eq!(body[12 + 14 + 1], "=== LEDs ===");
    assert_eq!(body[12 + 14 + 2], format!("  {:6} mode={:10} brightness={}  color=#{:02x}{:02x}{:02x}", "logo", "static", 4, 0xff, 0, 0));
    assert_eq!(body.len(), 12 + 14 + 2 + 3);
}

// --- devices ---

#[test]
fn descriptors_by_id() {
    assert_eq!(find_descriptor(0x0B05, 0x1979).unwrap().name, "ASUS ROG Spatha X");
    assert_eq!(find_descriptor(0x1532, 0x0084).unwrap().protocol, ProtocolKind::Razer);
    assert!(find_descriptor(0x0B05, 0x0084).is_none());
    assert!(deathadder_v2().matches(0x1532, 0x0084));
    assert!(!deathadder_v2().matches(0x1532, 0x0085));
    assert_eq!(registry().len(), 3);
}

#[test]
fn uevent_detection() {
    let ok = detect_from_uevent("/dev/hidraw3".to_string(), "HID_ID=0003:00001B1C:00001B8B\n").unwrap();
    assert_eq!(ok.path, "/dev/hidraw3");
    assert_eq!(ok.descriptor.name, "Corsair Scimitar RGB Elite");
    assert!(matches!(detect_from_uevent("p".to_string(), "HID_NAME=x\n"), Err(DetectError::NoHidId)));
    assert!(matches!(detect_from_uevent("p".to_string(), "HID_ID=0003:00001234:00005678\n"),
        Err(DetectError::Unsupported { vid: 0x1234, pid: 0x5678 })));
    assert!(uevent_matches(&spatha_x(), "HID_ID=0003:00000B05:00001977\n"));
    assert!(!uevent_matches(&spatha_x(), "HID_ID=0003:00000B05:00001978\n"));
}

#[test]
fn parse_hid_id_edges() {
    assert_eq!(parse_hid_id("HID_ID=0003:00000000:00000000\n"), Some((0, 0)));
    assert_eq!(parse_hid_id("HID_ID=0003:0B05\nHID_ID=0003:00000B05:00001977\n"), Some((0x0B05, 0x1977)));
    assert_eq!(parse_hid_id("HID_ID=0003:000ZZ:0001\n"), None);
}

#[test]
fn candidates_skip_seen_devices() {
    let uevent = "HID_ID=0003:00000B05:00001977\n";
    assert_eq!(new_candidate(uevent, &vec![]).unwrap().name, "ASUS ROG Spatha X");
    assert!(new_candidate(uevent, &vec!["ASUS ROG Spatha X"]).is_none());
}

#[test]
fn no_device_found_lists_supported() {
    match find_device(vec![]) {
        Err(DetectError::NoneFound { supported }) => {
            assert_eq!(supported, vec!["ASUS ROG Spatha X", "Razer DeathAdder V2", "Corsair Scimitar RGB Elite"]);
        }
        _ => panic!("expected NoneFound"),
    }
}

// --- ASUS protocol ---

#[test]
fn asus_requests_and_replies() {
    let req = make_request([0x12, 0x04]);
    assert_eq!(req[0], 0x12);
    assert_eq!(req[1], 0x04);
    assert!(req[2..].iter().all(|&b| b == 0));

    let mut resp = [0u8; 64];
    resp[6] = 2;
    resp[11] = 3;
    resp[12] = 2;
    resp[13] = 1;
    let pd = asus::parse_profile_data(&resp);
    assert_eq!(pd.current_profile, 2);
    assert_eq!(pd.firmware_version, "1.2.3");

    let mut err = [0u8; 64];
    err[0] = 0xFF;
    err[1] = 0xAA;
    assert!(is_error_response(&err));
    assert!(!is_error_response(&resp));
}

#[test]
fn asus_dpi_raw_values() {
    assert_eq!(dpi_to_raw(50), 0);
    assert_eq!(dpi_to_raw(0), 0);
    assert_eq!(raw_to_dpi(0), 50);
    assert_eq!(dpi_to_raw(820), 15);
}

#[test]
fn asus_settings_reply() {
    let desc = spatha_x();
    let mut resp = [0u8; 64];
    // four presets, then polling index 2, debounce index 9 (unknown), snapping on
    resp[4] = 15;
    resp[12] = 2;
    resp[14] = 9;
    resp[16] = 1;
    let s = asus::parse_settings(&resp, desc.num_dpi_presets);
    assert_eq!(s.dpi_presets, vec![800, 50, 50, 50]);
    assert_eq!(s.polling_rate, 500);
    assert_eq!(s.debounce_ms, 8);
    assert!(s.angle_snapping);
}

#[test]
fn asus_apply_stops_at_invalid_write() {
    let desc = spatha_x();
    let mut p = spatha_profile();
    p.settings.polling_rate = 300;
    let steps = apply_profile_steps(&desc, &p);
    assert_eq!(steps.len(), 14 + 4 + 3 + 3);
    assert!(steps[..18].iter().all(|s| s.is_ok()));
    assert_eq!(steps[18], Err(AsusError::InvalidPollingRate(300)));
    assert_eq!(apply_step(&p, 18), AsusStep::PollingRate);
    assert_eq!(apply_step(&p, 0), AsusStep::Button(0));
    assert_eq!(apply_step(&p, 15), AsusStep::DpiPreset(2));
    assert_eq!(apply_step(&p, 20), AsusStep::AngleSnapping);
    assert_eq!(apply_step(&p, 23), AsusStep::LedZone(2));
    let button = steps[1].unwrap();
    assert_eq!(&button[..8], &[0x51, 0x21, 0, 0, 0xF1, 0x01, 0xF1, 0x01]);
}

#[test]
fn asus_write_errors() {
    let desc = spatha_x();
    assert_eq!(asus::set_button_request(&desc, 14, ButtonBinding::disabled()),
        Err(AsusError::ButtonSlotOutOfRange { slot: 14, max: 14 }));
    assert_eq!(asus::set_dpi_request(&desc, 4, 800), Err(AsusError::PresetOutOfRange(4)));
    assert_eq!(asus::set_dpi_request(&desc, 0, 20000), Err(AsusError::DpiOutOfRange { dpi: 20000, min: 100, max: 19000 }));
    assert_eq!(asus::set_debounce_request(&desc, 7), Err(AsusError::InvalidDebounce(7)));
}

// --- Razer protocol ---

#[test]
fn razer_packets_carry_their_checksum() {
    let pkt = razer::build_packet(0x04, 0x85, 0x07, &[0x00, 0x03, 0x20, 0x03, 0x20, 0, 0]);
    let crc = pkt[2..88].iter().fold(0u8, |a, &b| a ^ b);
    assert_eq!(pkt[88], crc);
    assert_eq!(pkt[1], 0x1F);
    assert_eq!(pkt[5], 0x07);
    assert_eq!(pkt[6], 0x04);
    assert_eq!(pkt[7], 0x85);
    assert_eq!(&pkt[8..15], &[0x00, 0x03, 0x20, 0x03, 0x20, 0, 0]);
    assert_eq!(pkt[89], 0);
}

#[test]
fn razer_ioctl_numbers() {
    assert_eq!(razer::hidiocsfeature(91), 0xC05B4806);
    assert_eq!(razer::hidiocgfeature(91), 0xC05B4807);
}

#[test]
fn razer_rates_effects_and_status() {
    for hz in [125u16, 250, 500, 1000] {
        assert_eq!(razer::byte_to_rate(razer::rate_to_byte(hz).unwrap()), hz);
    }
    assert_eq!(razer::rate_to_byte(300), None);
    assert_eq!(razer::byte_to_rate(0x10), 1000);
    assert_eq!(razer::led_mode_to_razer_effect(LedMode::Rainbow), 0x04);
    assert_eq!(razer::razer_effect_to_led_mode(0x04), LedMode::Cycle);
    assert_eq!(razer::razer_effect_to_led_mode(0x09), LedMode::Static);
    assert_eq!(razer::led_id_from_name("scroll"), Some(0x01));
    assert_eq!(razer::led_id_from_name("side"), None);
    let mut resp = [0u8; 90];
    resp[0] = 0x03;
    assert_eq!(razer::reply_status(&resp), Some(razer::RazerStatusError::CommandFailed));
    resp[0] = 0x00;
    assert_eq!(razer::reply_status(&resp), None);
}

#[test]
fn razer_reads_and_writes_profiles() {
    let desc = deathadder_v2();
    let p = razer::read_profile(&desc, 1600, 500, &vec![((1, 2, 3), 200, 0x02), ((4, 5, 6), 100, 0x00)]);
    assert_eq!(p.settings.dpi_presets, vec![1600; 5]);
    assert_eq!(p.settings.polling_rate, 500);
    assert_eq!(p.leds[0], LedConfig { mode: LedMode::Breathing, brightness: 200, r: 1, g: 2, b: 3 });
    assert_eq!(p.buttons.len(), 8);

    let mut bad = p;
    bad.settings.dpi_presets[0] = 50;
    let steps = razer::apply_profile_steps(&desc, &bad);
    assert_eq!(steps[0], Err(razer::RazerError::DpiOutOfRange { dpi: 50, min: 100, max: 20000 }));
}

// --- Corsair protocol ---

#[test]
fn corsair_packets() {
    let pkt = corsair::make_packet(0x07, 0x13, 0xD2, 0x00);
    assert_eq!(&pkt[..4], &[0x07, 0x13, 0xD2, 0x00]);
    assert_eq!(corsair::hz_to_interval(500), Some(2));
    assert_eq!(corsair::interval_to_hz(corsair::hz_to_interval(125).unwrap()), 125);
    assert_eq!(corsair::interval_to_hz(3), 1000);
    let leds = corsair::set_led_colors_packet(&vec![(1, 10, 20, 30), (2, 40, 50, 60)]);
    assert_eq!(&leds[..12], &[0x07, 0x22, 2, 0x01, 1, 10, 20, 30, 2, 40, 50, 60]);
}

#[test]
fn corsair_apply_numbers_presets_from_one() {
    let desc = scimitar_rgb_elite();
    let p = corsair::read_profile(&desc, vec![800, 20000, 1600, 3200, 6400], 1000);
    let steps = corsair::apply_profile_steps(&desc, &p);
    assert!(steps[0].is_ok());
    assert_eq!(steps[1], Err(corsair::CorsairError::DpiOutOfRange { preset: 2, dpi: 20000, min: 100, max: 18000 }));
    assert_eq!(p.leds.len(), 4);
    assert_eq!(p.leds[0], LedConfig { mode: LedMode::Static, brightness: 255, r: 0, g: 0, b: 0 });
}

// --- evdev ---

#[test]
fn evdev_button_mapping() {
    assert_eq!(evdev_key_to_button(0x110), Some(ButtonCode::LeftClick));
    assert_eq!(evdev_key_to_button(0x116), Some(ButtonCode::SideB));
    assert_eq!(evdev_key_to_button(0x118), None);
    assert!(is_unmapped_mouse_button(0x118));
    assert!(!is_unmapped_mouse_button(0x120));
    assert!(!is_unmapped_mouse_button(0x110));
    assert_eq!(first_press(&vec![(0x110, 0), (0x118, 1), (0x111, 1), (0x112, 1)]), Some(ButtonCode::RightClick));
    assert_eq!(first_press(&vec![(0x110, 2)]), None);
    assert_eq!(button_code_to_slot(&spatha_x(), ButtonCode::SideA), Some(8));
    assert_eq!(button_code_to_slot(&spatha_x(), ButtonCode::SideL), None);
}

#[test]
fn device_listing() {
    let lines = device_list();
    assert_eq!(lines.len(), 4);
    assert_eq!(lines[0], "Supported devices:");
    assert_eq!(lines[1], "  ASUS ROG Spatha X [ready]  VID 0x0b05, PIDs: 0x1977, 0x1979");
    assert_eq!(lines[2], "  Razer DeathAdder V2 [ready (DPI/LED/polling)]  VID 0x1532, PIDs: 0x0084");
    assert_eq!(lines[3], "  Corsair Scimitar RGB Elite [ready (DPI/LED/polling)]  VID 0x1b1c, PIDs: 0x1b8b");
}

#[test]
fn interface_numbers_are_trimmed() {
    assert!(interface_matches("00\n", "00"));
    assert!(interface_matches(" \t02 \r\n", "02"));
    assert!(interface_matches("\u{3000}00\u{85}", "00"));
    assert!(!interface_matches("0 0", "00"));
    assert!(!interface_matches("01\n", "00"));
    assert!(!interface_matches("", "00"));
    assert!(interface_matches("  ", ""));
}

#[test]
fn razer_writes_ignore_other_presets_and_settings() {
    let desc = deathadder_v2();
    let p = razer::read_profile(&desc, 1600, 500, &vec![((1, 2, 3), 200, 0x02), ((4, 5, 6), 100, 0x00)]);
    let mut q = razer::read_profile(&desc, 1600, 500, &vec![((1, 2, 3), 200, 0x02), ((4, 5, 6), 100, 0x00)]);
    q.settings.dpi_presets[3] = 7000;
    q.settings.debounce_ms = 16;
    q.settings.angle_snapping = true;
    q.buttons[0] = ButtonBinding::disabled();
    assert_eq!(razer::apply_profile_steps(&desc, &p), razer::apply_profile_steps(&desc, &q));
    q.settings.dpi_presets[0] = 1650;
    assert_ne!(razer::apply_profile_steps(&desc, &p), razer::apply_profile_steps(&desc, &q));
}

#[test]
fn corsair_writes_ignore_led_modes_and_buttons() {
    let desc = scimitar_rgb_elite();
    let p = corsair::read_profile(&desc, vec![800, 1600, 3200, 6400, 12000], 500);
    let mut q = corsair::read_profile(&desc, vec![800, 1600, 3200, 6400, 12000], 500);
    q.leds[1].mode = LedMode::Rainbow;
    q.leds[1].brightness = 3;
    q.buttons[2] = ButtonBinding::disabled();
    assert_eq!(corsair::apply_profile_steps(&desc, &p), corsair::apply_profile_steps(&desc, &q));
    q.leds[1].g = 9;
    assert_ne!(corsair::apply_profile_steps(&desc, &p), corsair::apply_profile_steps(&desc, &q));
}

#[test]
fn remaining_error_variants() {
    let desc = deathadder_v2();
    let mut p = razer::read_profile(&desc, 1600, 500, &vec![]);
    p.settings.polling_rate = 300;
    let steps = razer::apply_profile_steps(&desc, &p);
    assert_eq!(steps[1], Err(razer::RazerError::InvalidPollingRate(300)));

    let desc = scimitar_rgb_elite();
    let mut p = corsair::read_profile(&desc, vec![800], 1000);
    p.settings.polling_rate = 100;
    let steps = corsair::apply_profile_steps(&desc, &p);
    assert_eq!(steps[steps.len() - 1], Err(corsair::CorsairError::InvalidPollingRate(100)));

    let mut resp = [0u8; 90];
    resp[0] = 0x04;
    assert_eq!(razer::reply_status(&resp), Some(razer::RazerStatusError::Timeout));
    resp[0] = 0x05;
    assert_eq!(razer::reply_status(&resp), Some(razer::RazerStatusError::NotSupported));
    resp[0] = 0x02;
    assert_eq!(razer::reply_status(&resp), None);
}

#[test]
fn big_endian_dpi_replies() {
    let mut resp = [0u8; 90];
    resp[9] = 0x06;
    resp[10] = 0x40;
    resp[11] = 0x03;
    resp[12] = 0x20;
    assert_eq!(razer::parse_dpi(&resp), (1600, 800));
    let req = razer::set_dpi_request(1600);
    assert_eq!(&req[8..15], &[0x00, 0x06, 0x40, 0x06, 0x40, 0x00, 0x00]);

    let mut resp = [0u8; 64];
    resp[5] = 0x0C;
    resp[6] = 0x80;
    resp[7] = 0x0C;
    resp[8] = 0x80;
    assert_eq!(corsair::parse_dpi_stage(&resp), (3200, 3200));
    let pkt = corsair::set_dpi_stage_packet(2, 3200, 1600);
    assert_eq!(&pkt[..9], &[0x07, 0x13, 0xD2, 0x00, 0x01, 0x0C, 0x80, 0x06, 0x40]);
}

#[test]
fn unmapped_presses_before_the_first_mapped_one() {
    let events = vec![(0x118, 1), (0x110, 0), (0x11A, 2), (0x11B, 1), (0x30, 1), (0x111, 1), (0x119, 1)];
    assert_eq!(unmapped_presses(&events), vec![0x118, 0x11B]);
    assert_eq!(first_press(&events), Some(ButtonCode::RightClick));
    assert_eq!(unmapped_presses(&vec![(0x119, 1)]), vec![0x119]);
}

#[test]
fn razer_and_corsair_dumps_apply_back() {
    let desc = deathadder_v2();
    let p = razer::read_profile(&desc, 1600, 500, &vec![((1, 2, 3), 200, 0x02), ((0, 0, 0), 100, 0x04)]);
    assert_eq!(p.settings.debounce_ms, 0);
    let back = config_to_profile(&profile_to_config(&p, &desc), &desc).unwrap();
    assert!(same_profile(&back, &p));

    let desc = scimitar_rgb_elite();
    let p = corsair::read_profile(&desc, vec![800, 1600, 3200, 6400, 12000], 250);
    let mut pc = profile_to_config(&p, &desc);
    assert_eq!(pc.debounce_ms, 0);
    assert!(matches!(config_to_profile(&pc, &desc), Err(ConfigError::InvalidDebounce(0))));
    pc.debounce_ms = 8;
    let back = config_to_profile(&pc, &desc).unwrap();
    let mut q = p.clone();
    q.settings.debounce_ms = 8;
    assert!(same_profile(&back, &q));
}

#[test]
fn debounce_is_checked_except_on_razer() {
    let mut pc = valid_config();
    pc.debounce_ms = 0;
    assert!(matches!(config_to_profile_checked(&pc, &spatha_x()), Some(Err(ConfigError::InvalidDebounce(0)))));
    let desc = deathadder_v2();
    let mut pc = profile_to_config(&razer::read_profile(&desc, 1600, 500, &vec![((1, 2, 3), 9, 0), ((4, 5, 6), 9, 0)]), &desc);
    pc.debounce_ms = 5;
    assert_eq!(config_to_profile(&pc, &desc).unwrap().settings.debounce_ms, 5);
    let desc = scimitar_rgb_elite();
    let mut pc = profile_to_config(&corsair::read_profile(&desc, vec![800, 1600, 3200, 6400, 12000], 1000), &desc);
    pc.debounce_ms = 5;
    assert!(matches!(config_to_profile(&pc, &desc), Err(ConfigError::InvalidDebounce(5))));
    pc.debounce_ms = 32;
    assert_eq!(config_to_profile(&pc, &desc).unwrap().settings.debounce_ms, 32);
}

#[test]
fn the_key_table_by_ranges() {
    let letters = "abcdefghijklmnopqrstuvwxyz";
    for (i, c) in letters.chars().enumerate() {
        assert_eq!(ratctl::types::hid_keycode_to_name(0x04 + i as u8), Some(c.to_string().as_str()));
    }
    for (i, c) in "123456789".chars().enumerate() {
        assert_eq!(ratctl::types::hid_keycode_to_name(0x1E + i as u8), Some(c.to_string().as_str()));
    }
    assert_eq!(ratctl::types::hid_keycode_to_name(0x27), Some("0"));
    for k in 1..=12u8 {
        assert_eq!(ratctl::types::hid_keycode_to_name(0x39 + k), Some(format!("f{}", k).as_str()));
    }
    let mut named = 0;
    for code in 0..=255u8 {
        let name = ratctl::types::hid_keycode_to_name(code);
        assert_eq!(name.is_some(), (0x04..=0x31).contains(&code) || (0x33..=0x52).contains(&code));
        if let Some(n) = name {
            named += 1;
            assert_eq!(ratctl::types::name_to_hid_keycode(n), Some(code));
        }
    }
    assert_eq!(named, 78);
}

#[test]
fn reading_every_profile_selects_each_then_restores() {
    assert_eq!(ratctl::protocol::read_all_selections(5, 2), vec![0, 1, 2, 3, 4, 2]);
    assert_eq!(ratctl::protocol::read_all_selections(1, 0), vec![0, 0]);
    assert_eq!(ratctl::protocol::read_all_selections(0, 3), vec![3]);
    assert_eq!(ratctl::protocol::read_all_selections(258, 1), vec![0, 1, 1]);
}

#[test]
fn only_the_first_hid_id_line_counts() {
    let uevent = "DRIVER=hid-generic\nHID_NAME=x HID_ID=0003:00000001:00000002\nHID_ID=0003:00000B05:00001977\nHID_ID=0003:0000AAAA:0000BBBB\n";
    assert_eq!(parse_hid_id(uevent), Some((0x0B05, 0x1977)));
    assert_eq!(parse_hid_id("HID_ID=0003:00000000:0000FFFF"), Some((0, 0xFFFF)));
    assert_eq!(parse_hid_id("A=1\nB=HID_ID=0003:00000B05:00001977\n"), None);
}
