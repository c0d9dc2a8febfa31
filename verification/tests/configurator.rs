use ratctl::corsair;
use ratctl::devices::{deathadder_v2, scimitar_rgb_elite, spatha_x};
use ratctl::tui::{binding_action_list, Action, App, Key, Mode, Tab};
use ratctl::types::{BindingKind, ButtonBinding, ButtonCode, DeviceProfile, LedConfig, LedMode, Settings};
use ratctl::views::{
    all_tabs, binding_popup, button_rows, buttons_title, dpi_rows, footer, led_rows, profile_labels,
    selected_tab, settings_rows, FooterKind,
};

fn profile() -> DeviceProfile {
    let desc = spatha_x();
    DeviceProfile {
        buttons: desc.button_slots.iter().map(|c| ButtonBinding::mouse_action(*c)).collect(),
        settings: Settings {
            dpi_presets: vec![800, 1600, 3200, 19000],
            polling_rate: 1000,
            debounce_ms: 8,
            angle_snapping: false,
        },
        leds: vec![
            LedConfig { mode: LedMode::Static, brightness: 4, r: 0xff, g: 0, b: 0 },
            LedConfig { mode: LedMode::Battery, brightness: 0, r: 0, g: 0x80, b: 0 },
            LedConfig { mode: LedMode::Rainbow, brightness: 1, r: 1, g: 2, b: 3 },
        ],
    }
}

fn app() -> App {
    App::new(spatha_x(), 0, vec![profile(), profile()])
}

fn press(app: &mut App, key: Key) -> Action {
    assert!(app.key_is_safe(key));
    app.handle_key(key, false)
}

fn status(app: &App) -> (String, bool) {
    let s = app.status.as_ref().expect("a status message");
    (s.text.clone(), s.is_error)
}

#[test]
fn new_configurator_starts_clean() {
    let a = app();
    assert_eq!(a.tab, Tab::Buttons);
    assert_eq!(a.mode, Mode::Normal);
    assert_eq!(a.dirty, vec![false, false]);
    assert!(!a.is_any_dirty());
    assert_eq!(a.max_cursor(), 13);
    assert_eq!(a.current_profile().settings.dpi_presets[0], 800);
}

#[test]
fn tabs_cycle_both_ways() {
    let mut a = app();
    for expected in [Tab::Dpi, Tab::Leds, Tab::Settings, Tab::Buttons] {
        press(&mut a, Key::Tab);
        assert_eq!(a.tab, expected);
    }
    press(&mut a, Key::BackTab);
    assert_eq!(a.tab, Tab::Settings);
    assert_eq!(a.max_cursor(), 2);
    assert_eq!(Tab::Leds.next().prev(), Tab::Leds);
    assert_eq!(Tab::Dpi.name(), "DPI");
}

#[test]
fn quitting_with_unsaved_changes_asks_first() {
    let mut a = app();
    press(&mut a, Key::Char('q'));
    assert!(a.should_quit);

    let mut a = app();
    press(&mut a, Key::Tab);
    press(&mut a, Key::Right);
    assert!(a.is_any_dirty());
    press(&mut a, Key::Char('q'));
    assert!(!a.should_quit);
    assert!(a.confirm_quit);
    assert_eq!(status(&a), ("Unsaved changes! Press 'q' again to quit or 's' to save.".to_string(), false));
    press(&mut a, Key::Char('q'));
    assert!(a.should_quit);
}

#[test]
fn any_other_key_clears_the_confirmation() {
    let mut a = app();
    press(&mut a, Key::Tab);
    press(&mut a, Key::Right);
    press(&mut a, Key::Char('q'));
    press(&mut a, Key::Down);
    assert!(!a.confirm_quit);
    assert!(a.status.is_none());
    press(&mut a, Key::Char('q'));
    assert!(!a.should_quit);
}

#[test]
fn switching_profiles_by_number() {
    let mut a = app();
    press(&mut a, Key::Down);
    press(&mut a, Key::Char('2'));
    assert_eq!(a.active_profile, 1);
    assert_eq!(a.cursor, 0);
    assert_eq!(status(&a).0, "Switched to profile 2");
    press(&mut a, Key::Char('7'));
    assert_eq!(a.active_profile, 1);
    assert!(a.status.is_none());
}

#[test]
fn cursor_stays_within_the_tab() {
    let mut a = app();
    press(&mut a, Key::Up);
    assert_eq!(a.cursor, 0);
    for _ in 0..20 {
        press(&mut a, Key::Char('j'));
    }
    assert_eq!(a.cursor, 13);
    press(&mut a, Key::Char('k'));
    assert_eq!(a.cursor, 12);
}

#[test]
fn dpi_steps_by_fifty_within_range() {
    let mut a = app();
    press(&mut a, Key::Tab);
    press(&mut a, Key::Right);
    assert_eq!(a.profiles[0].settings.dpi_presets[0], 850);
    press(&mut a, Key::Char(','));
    press(&mut a, Key::Char(','));
    assert_eq!(a.profiles[0].settings.dpi_presets[0], 750);
    assert_eq!(a.dirty, vec![true, false]);
    for _ in 0..3 {
        press(&mut a, Key::Down);
    }
    press(&mut a, Key::Char('.'));
    assert_eq!(a.profiles[0].settings.dpi_presets[3], 19000);
}

#[test]
fn typing_a_dpi_value() {
    let mut a = app();
    press(&mut a, Key::Tab);
    press(&mut a, Key::Enter);
    assert_eq!(a.mode, Mode::EditingDpi { preset: 0 });
    assert_eq!(a.input_buf, "800");
    press(&mut a, Key::Backspace);
    assert_eq!(a.input_buf, "80");
    press(&mut a, Key::Char('x'));
    press(&mut a, Key::Char('9'));
    assert_eq!(a.input_buf, "809");
    press(&mut a, Key::Enter);
    assert_eq!(a.mode, Mode::Normal);
    assert_eq!(a.input_buf, "");
    assert_eq!(a.profiles[0].settings.dpi_presets[0], 800);
    assert_eq!(status(&a), ("DPI preset 1 set to 800".to_string(), false));
    assert!(a.dirty[0]);
}

#[test]
fn typed_dpi_is_clamped_and_limited_to_five_digits() {
    let mut a = app();
    press(&mut a, Key::Tab);
    press(&mut a, Key::Down);
    press(&mut a, Key::Enter);
    for _ in 0..4 {
        press(&mut a, Key::Backspace);
    }
    for c in "300001".chars() {
        press(&mut a, Key::Char(c));
    }
    assert_eq!(a.input_buf, "30000");
    press(&mut a, Key::Enter);
    assert_eq!(a.profiles[0].settings.dpi_presets[1], 19000);
    assert_eq!(status(&a).0, "DPI preset 2 set to 19000");

    press(&mut a, Key::Enter);
    for _ in 0..5 {
        press(&mut a, Key::Backspace);
    }
    press(&mut a, Key::Char('7'));
    press(&mut a, Key::Enter);
    assert_eq!(a.profiles[0].settings.dpi_presets[1], 100);
}

#[test]
fn empty_dpi_value_is_refused() {
    let mut a = app();
    press(&mut a, Key::Tab);
    press(&mut a, Key::Enter);
    for _ in 0..3 {
        press(&mut a, Key::Backspace);
    }
    press(&mut a, Key::Backspace);
    press(&mut a, Key::Enter);
    assert_eq!(status(&a), ("Invalid DPI value".to_string(), true));
    assert_eq!(a.profiles[0].settings.dpi_presets[0], 800);
    assert!(!a.is_any_dirty());
}

#[test]
fn esc_discards_typing() {
    let mut a = app();
    press(&mut a, Key::Tab);
    press(&mut a, Key::Enter);
    press(&mut a, Key::Char('1'));
    press(&mut a, Key::Esc);
    assert_eq!(a.mode, Mode::Normal);
    assert_eq!(a.input_buf, "");
    assert_eq!(a.profiles[0].settings.dpi_presets[0], 800);
    assert!(!a.is_any_dirty());
}

#[test]
fn editing_a_led_color() {
    let mut a = app();
    press(&mut a, Key::Tab);
    press(&mut a, Key::Tab);
    press(&mut a, Key::Char('c'));
    assert_eq!(a.mode, Mode::EditingLedColor { zone: 0 });
    assert_eq!(a.input_buf, "ff0000");
    for _ in 0..6 {
        press(&mut a, Key::Backspace);
    }
    for c in "00FFg8a0".chars() {
        press(&mut a, Key::Char(c));
    }
    assert_eq!(a.input_buf, "00FF8a");
    press(&mut a, Key::Enter);
    assert_eq!(a.profiles[0].leds[0], LedConfig { mode: LedMode::Static, brightness: 4, r: 0, g: 0xff, b: 0x8a });
    assert_eq!(status(&a), ("LED zone 0 color set to #00FF8a".to_string(), false));
}

#[test]
fn short_color_is_refused() {
    let mut a = app();
    press(&mut a, Key::Tab);
    press(&mut a, Key::Tab);
    press(&mut a, Key::Char('c'));
    press(&mut a, Key::Backspace);
    press(&mut a, Key::Enter);
    assert_eq!(status(&a), ("Color must be 6 hex digits (e.g. ff8800)".to_string(), true));
    assert_eq!(a.mode, Mode::Normal);
    assert_eq!(a.profiles[0].leds[0].r, 0xff);
}

#[test]
fn led_modes_and_brightness_cycle() {
    let mut a = app();
    press(&mut a, Key::Tab);
    press(&mut a, Key::Tab);
    press(&mut a, Key::Enter);
    assert_eq!(a.profiles[0].leds[0].mode, LedMode::Breathing);
    press(&mut a, Key::Left);
    press(&mut a, Key::Left);
    assert_eq!(a.profiles[0].leds[0].mode, LedMode::Battery);
    press(&mut a, Key::Down);
    press(&mut a, Key::Char('.'));
    assert_eq!(a.profiles[0].leds[1].mode, LedMode::Static);
    press(&mut a, Key::Up);
    press(&mut a, Key::Char('b'));
    assert_eq!(a.profiles[0].leds[0].brightness, 0);
    press(&mut a, Key::Char('b'));
    assert_eq!(a.profiles[0].leds[0].brightness, 1);
}

#[test]
fn settings_cycle_through_accepted_values() {
    let mut a = app();
    press(&mut a, Key::BackTab);
    press(&mut a, Key::Enter);
    assert_eq!(a.profiles[0].settings.polling_rate, 125);
    press(&mut a, Key::Left);
    assert_eq!(a.profiles[0].settings.polling_rate, 1000);
    press(&mut a, Key::Down);
    press(&mut a, Key::Right);
    assert_eq!(a.profiles[0].settings.debounce_ms, 12);
    press(&mut a, Key::Down);
    press(&mut a, Key::Enter);
    assert!(a.profiles[0].settings.angle_snapping);

    let mut odd = app();
    odd.profiles[0].settings.polling_rate = 300;
    odd.profiles[0].settings.debounce_ms = 5;
    press(&mut odd, Key::BackTab);
    press(&mut odd, Key::Right);
    assert_eq!(odd.profiles[0].settings.polling_rate, 125);
    press(&mut odd, Key::Down);
    press(&mut odd, Key::Left);
    assert_eq!(odd.profiles[0].settings.debounce_ms, 4);
}

#[test]
fn choosing_a_binding() {
    let mut a = app();
    press(&mut a, Key::Down);
    press(&mut a, Key::Enter);
    assert_eq!(a.mode, Mode::EditingBinding { slot: 1 });
    press(&mut a, Key::Up);
    assert_eq!(a.binding_cursor, 0);
    for _ in 0..40 {
        press(&mut a, Key::Down);
    }
    assert_eq!(a.binding_cursor, 37);
    press(&mut a, Key::Enter);
    assert_eq!(a.profiles[0].buttons[1], ButtonBinding { action_code: 0x3E, kind: BindingKind::Keyboard });
    assert_eq!(status(&a).0, "Set button 1 to key:f5");
    assert_eq!(a.mode, Mode::Normal);

    press(&mut a, Key::Enter);
    press(&mut a, Key::Esc);
    assert_eq!(a.mode, Mode::Normal);
    assert_eq!(binding_action_list().len(), 38);
}

#[test]
fn pressing_a_physical_button() {
    let mut a = app();
    press(&mut a, Key::Char('p'));
    assert_eq!(status(&a), ("No evdev device available for button detection".to_string(), true));

    assert_eq!(a.handle_key(Key::Char('p'), true), Action::GrabEvdev);
    a.on_grab_result(Err("busy".to_string()));
    assert_eq!(status(&a), ("Failed to grab mouse: busy".to_string(), true));
    a.on_grab_result(Ok(()));
    assert!(a.is_waiting_for_button());
    assert_eq!(status(&a).0, "Press a mouse button... [Esc] cancel");

    assert_eq!(a.on_button_poll(Ok(None)), Action::Nothing);
    assert_eq!(a.on_button_poll(Ok(Some(ButtonCode::SideA))), Action::UngrabEvdev);
    assert_eq!(a.mode, Mode::EditingBinding { slot: 8 });
    assert_eq!(a.cursor, 8);
    assert_eq!(a.on_button_poll(Ok(Some(ButtonCode::SideB))), Action::Nothing);
}

#[test]
fn unmappable_buttons_and_poll_errors() {
    let mut a = app();
    a.on_grab_result(Ok(()));
    assert_eq!(a.on_button_poll(Ok(Some(ButtonCode::SideL))), Action::UngrabEvdev);
    assert_eq!(a.mode, Mode::Normal);
    assert_eq!(status(&a), ("Button not mappable to a configurable slot".to_string(), true));

    a.on_grab_result(Ok(()));
    assert_eq!(a.on_button_poll(Err("gone".to_string())), Action::UngrabEvdev);
    assert_eq!(status(&a), ("evdev error: gone".to_string(), true));

    a.on_grab_result(Ok(()));
    assert_eq!(press(&mut a, Key::Esc), Action::UngrabEvdev);
    assert_eq!(status(&a), ("Button select cancelled".to_string(), false));
}

#[test]
fn saving_and_applying() {
    let mut a = app();
    press(&mut a, Key::Char('2'));
    press(&mut a, Key::BackTab);
    press(&mut a, Key::Right);
    assert_eq!(a.dirty, vec![false, true]);
    assert_eq!(a.profiles_to_apply(), vec![1]);
    assert_eq!(press(&mut a, Key::Char('s')), Action::SaveConfig);

    let cfg = a.build_config();
    assert_eq!(cfg.active_profile, Some(2));
    assert_eq!(cfg.profile.len(), 2);
    assert_eq!(cfg.profile.get("2").unwrap().polling_rate, 125);
    assert_eq!(cfg.profile.get("1").unwrap().polling_rate, 1000);

    a.on_save_result(Err("disk full".to_string()), "/tmp/c.toml");
    assert_eq!(status(&a), ("Save failed: disk full".to_string(), true));
    assert!(a.is_any_dirty());
    a.on_save_result(Ok(()), "/tmp/c.toml");
    assert_eq!(status(&a), ("Config saved to /tmp/c.toml".to_string(), false));
    assert!(!a.is_any_dirty());

    press(&mut a, Key::Right);
    assert_eq!(press(&mut a, Key::Char('a')), Action::ApplyToDevice);
    a.mark_clean(1);
    a.on_apply_result(Ok(()));
    assert_eq!(status(&a), ("Applied to device and saved to flash".to_string(), false));
    a.on_apply_result(Err("timeout".to_string()));
    assert_eq!(status(&a), ("Apply failed: timeout".to_string(), true));
}

#[test]
fn unsafe_keys_are_reported() {
    let mut a = app();
    press(&mut a, Key::Tab);
    press(&mut a, Key::Tab);
    assert!(a.key_is_safe(Key::Char('b')));
    assert!(a.key_is_safe(Key::Char('c')));
    a.active_profile = 4;
    assert!(!a.key_is_safe(Key::Enter));
    assert!(a.key_is_safe(Key::Tab));
}

#[test]
fn screen_rows() {
    let mut a = app();
    assert_eq!(all_tabs(), vec![Tab::Buttons, Tab::Dpi, Tab::Leds, Tab::Settings]);
    assert_eq!(selected_tab(&a), 0);
    let labels = profile_labels(&a);
    assert_eq!(labels.len(), 5);
    assert_eq!(labels[0].text, " 1 ");
    assert!(labels[0].highlighted && !labels[1].highlighted);

    let rows = button_rows(&a);
    assert_eq!(rows.len(), 14);
    assert_eq!(rows[0].text, format!("  {:14} -> {}", "left_click", "left_click"));
    assert!(rows[0].highlighted && !rows[1].highlighted);
    assert_eq!(buttons_title(&a), "Buttons  [Enter] edit  [p] press to select");

    let (text, kind) = footer(&a);
    assert_eq!(text, " [q] quit  [s] save  [a] apply  [Tab] next tab  [1-5] profile");
    assert_eq!(kind, FooterKind::Help);

    press(&mut a, Key::Tab);
    press(&mut a, Key::Right);
    let (text, _) = footer(&a);
    assert_eq!(text, " [q] quit  [s] save  [a] apply  [Tab] next tab  [1-5] profile [modified]");
    press(&mut a, Key::Enter);
    let rows = dpi_rows(&a);
    assert_eq!(rows[0].text, "  Preset 1: 850_ DPI");
    assert_eq!(rows[1].text, "  Preset 2: 1600 DPI");

    press(&mut a, Key::Esc);
    press(&mut a, Key::Tab);
    let rows = led_rows(&a);
    assert_eq!(rows.len(), 3);
    assert_eq!(rows[0].label, format!("  {:6}  mode={:10}  brightness={}  color=", "logo", "static", 4));
    assert_eq!(rows[0].color, "#ff0000");
    assert_eq!((rows[2].r, rows[2].g, rows[2].b), (1, 2, 3));

    press(&mut a, Key::Tab);
    let rows = settings_rows(&a);
    assert_eq!(rows[0].text, "  Polling rate:   1000 Hz");
    assert_eq!(rows[1].text, "  Debounce:       8 ms");
    assert_eq!(rows[2].text, "  Angle snapping: off");

    let (title, rows) = binding_popup(&a, 3);
    assert_eq!(title, "Bind: back [Enter] select [Esc] cancel");
    assert_eq!(rows.len(), 38);
    assert_eq!(rows[37].text, "  key:f5");
    let (title, _) = binding_popup(&a, 99);
    assert_eq!(title, "Bind: ? [Enter] select [Esc] cancel");
}

#[test]
fn changing_the_active_profile_in_place() {
    let mut a = app();
    a.current_profile_mut().settings.polling_rate = 500;
    assert_eq!(a.profiles[0].settings.polling_rate, 500);
    assert_eq!(a.profiles[1].settings.polling_rate, 1000);
}

#[test]
fn what_saving_writes_applies_back() {
    let mut a = app();
    press(&mut a, Key::Tab);
    press(&mut a, Key::Right);
    let cfg = a.build_config();
    for (i, number) in ["1", "2"].iter().enumerate() {
        let pc = cfg.profile.get(number).unwrap();
        let back = ratctl::config::config_to_profile(pc, &a.desc).unwrap();
        assert_eq!(back.buttons, a.profiles[i].buttons);
        assert_eq!(back.settings.dpi_presets, a.profiles[i].settings.dpi_presets);
        assert_eq!(back.leds, a.profiles[i].leds);
    }
}

#[test]
fn brightness_wraps_after_a_limit_of_255() {
    let mut p = profile();
    p.leds.truncate(2);
    p.leds[0].brightness = 254;
    let mut a = App::new(deathadder_v2(), 0, vec![p]);
    press(&mut a, Key::Tab);
    press(&mut a, Key::Tab);
    press(&mut a, Key::Char('b'));
    assert_eq!(a.profiles[0].leds[0].brightness, 255);
    press(&mut a, Key::Char('b'));
    assert_eq!(a.profiles[0].leds[0].brightness, 0);
    assert!(a.dirty[0]);
}

#[test]
fn digit_keys_select_only_profiles_that_are_held() {
    let desc = scimitar_rgb_elite();
    assert_eq!(desc.num_profiles, 3);
    let p = corsair::read_profile(&desc, vec![800, 1600, 3200, 6400, 12000], 1000);
    let mut a = App::new(desc, 0, vec![p]);
    press(&mut a, Key::Char('2'));
    assert_eq!(a.active_profile, 0);
    assert!(a.status.is_none());
    press(&mut a, Key::Char('1'));
    assert_eq!(a.active_profile, 0);
    assert_eq!(status(&a).0, "Switched to profile 1");
    assert_eq!(a.current_profile().settings.dpi_presets[4], 12000);
}

#[test]
fn quit_confirmation_is_asked_again_after_another_key() {
    let mut a = app();
    press(&mut a, Key::Tab);
    press(&mut a, Key::Right);
    press(&mut a, Key::Char('q'));
    assert!(a.confirm_quit);
    press(&mut a, Key::Char('2'));
    assert!(!a.confirm_quit);
    press(&mut a, Key::Char('q'));
    assert!(a.confirm_quit);
    assert!(!a.should_quit);
    press(&mut a, Key::Char('q'));
    assert!(a.should_quit);
}
