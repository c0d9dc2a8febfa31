//! The interactive configurator's state and how it answers each key press.
//!
//! Terminal drawing, reading keys, grabbing the mouse and talking to the device are
//! the caller's part: a key press gives back an [`Action`] for the caller to perform,
//! and the caller reports the outcome with the `on_*` methods.
use vstd::prelude::*;
use crate::config::{
    assoc_map, config_sliceable, config_to_profile_spec, lemma_assoc_map_lookup,
    lemma_profile_config_roundtrip, profile_configs, profile_fits, profile_number_keys,
    profiles_view, store_profiles, Config, ConfigErrorView,
};
use crate::devices::{DescriptorView, DeviceDescriptor};
use crate::evdev::button_code_to_slot;
use crate::namemap::NameMap;
use crate::text::{decimal_chars, lemma_decimal_chars_injective, hex_byte_chars, parse_radix, pop_char, push_char, push_decimal, push_hex_byte, radix_value};
use crate::types::{
    debounce_index, debounce_table, debounce_times, first_index_of, lemma_first_index_of,
    lemma_led_mode_byte_roundtrip, led_mode_byte, led_mode_from_byte, polling_rate_index,
    polling_rate_table, polling_rates, BindingKind, ButtonBinding, ButtonCode, DeviceProfile,
    LedConfig, LedMode, ProfileView,
};

verus! {

/// Which tab is currently selected.
#[derive(Debug, Clone, Copy, PartialEq, Eq, Structural)]
pub enum Tab {
    Buttons,
    Dpi,
    Leds,
    Settings,
}

pub open spec fn tab_next(t: Tab) -> Tab {
    match t {
        Tab::Buttons => Tab::Dpi,
        Tab::Dpi => Tab::Leds,
        Tab::Leds => Tab::Settings,
        Tab::Settings => Tab::Buttons,
    }
}

pub open spec fn tab_prev(t: Tab) -> Tab {
    match t {
        Tab::Buttons => Tab::Settings,
        Tab::Dpi => Tab::Buttons,
        Tab::Leds => Tab::Dpi,
        Tab::Settings => Tab::Leds,
    }
}

impl Tab {
    pub fn name(&self) -> (r: &'static str)
        ensures
            r@ == (match *self {
                Tab::Buttons => "Buttons"@,
                Tab::Dpi => "DPI"@,
                Tab::Leds => "LEDs"@,
                Tab::Settings => "Settings"@,
            }),
    {
        match self {
            Tab::Buttons => "Buttons",
            Tab::Dpi => "DPI",
            Tab::Leds => "LEDs",
            Tab::Settings => "Settings",
        }
    }

    pub fn next(&self) -> (r: Tab)
        ensures
            r == tab_next(*self),
    {
        match self {
            Tab::Buttons => Tab::Dpi,
            Tab::Dpi => Tab::Leds,
            Tab::Leds => Tab::Settings,
            Tab::Settings => Tab::Buttons,
        }
    }

    pub fn prev(&self) -> (r: Tab)
        ensures
            r == tab_prev(*self),
    {
        match self {
            Tab::Buttons => Tab::Settings,
            Tab::Dpi => Tab::Buttons,
            Tab::Leds => Tab::Dpi,
            Tab::Settings => Tab::Leds,
        }
    }
}

/// Moving to the next tab and back, or back and then forward, returns to the same tab;
/// four steps either way go all the way round.
pub proof fn lemma_tab_cycle(t: Tab)
    ensures
        tab_prev(tab_next(t)) == t,
        tab_next(tab_prev(t)) == t,
        tab_next(tab_next(tab_next(tab_next(t)))) == t,
{
}

/// TUI interaction mode.
#[derive(Debug, Clone, Copy, PartialEq, Eq, Structural)]
pub enum Mode {
    Normal,
    WaitingForButton,
    EditingBinding { slot: usize },
    EditingDpi { preset: usize },
    EditingLedColor { zone: usize },
}

/// A key press, as the configurator reads it.
#[derive(Debug, Clone, Copy, PartialEq, Eq, Structural)]
pub enum Key {
    Char(char),
    Tab,
    BackTab,
    Up,
    Down,
    Left,
    Right,
    Enter,
    Esc,
    Backspace,
    Other,
}

/// What the caller is asked to do after a key press.
#[derive(Debug, Clone, Copy, PartialEq, Eq, Structural)]
pub enum Action {
    /// Nothing to do.
    Nothing,
    /// Grab the mouse exclusively, then report with `on_grab_result`.
    GrabEvdev,
    /// Release the mouse grab.
    UngrabEvdev,
    /// Save the config file (see `App::build_config`), then report with `on_save_result`.
    SaveConfig,
    /// Write every modified profile to the device, then report with `on_apply_result`.
    ApplyToDevice,
}

/// Status message shown in the footer.
#[derive(Debug)]
pub struct StatusMessage {
    pub text: String,
    pub is_error: bool,
}

/// The content of a status message.
pub struct StatusView {
    pub text: Seq<char>,
    pub is_error: bool,
}

/// All mutable TUI state.
pub struct App {
    pub desc: DeviceDescriptor,
    pub active_profile: u8,
    pub profiles: Vec<DeviceProfile>,
    pub tab: Tab,
    pub mode: Mode,
    pub cursor: usize,
    pub dirty: Vec<bool>,
    pub status: Option<StatusMessage>,
    pub should_quit: bool,
    pub confirm_quit: bool,
    pub input_buf: String,
    pub binding_cursor: usize,
    pub binding_filter: Option<String>,
}

/// The content of the configurator's state.
#[verifier::ext_equal]
pub struct AppView {
    pub desc: DescriptorView,
    pub active_profile: u8,
    pub profiles: Seq<ProfileView>,
    pub tab: Tab,
    pub mode: Mode,
    pub cursor: usize,
    pub dirty: Seq<bool>,
    pub status: Option<StatusView>,
    pub should_quit: bool,
    pub confirm_quit: bool,
    pub input_buf: Seq<char>,
    pub binding_cursor: usize,
    pub binding_filter: Option<Seq<char>>,
}


impl View for App {
    type V = AppView;

    open spec fn view(&self) -> AppView {
        AppView {
            desc: self.desc@,
            active_profile: self.active_profile,
            profiles: profiles_view(self.profiles@),
            tab: self.tab,
            mode: self.mode,
            cursor: self.cursor,
            dirty: self.dirty@,
            status: match self.status {
                Some(s) => Some(StatusView { text: s.text@, is_error: s.is_error }),
                None => None,
            },
            should_quit: self.should_quit,
            confirm_quit: self.confirm_quit,
            input_buf: self.input_buf@,
            binding_cursor: self.binding_cursor,
            binding_filter: match self.binding_filter {
                Some(f) => Some(f@),
                None => None,
            },
        }
    }
}

// --- State helpers, as specifications ---

/// The active profile.
pub open spec fn cur(a: AppView) -> ProfileView {
    a.profiles[a.active_profile as int]
}

/// The active profile and its modified flag exist.
pub open spec fn active_ok(a: AppView) -> bool {
    a.active_profile < a.profiles.len() && a.active_profile < a.dirty.len()
}

pub open spec fn with_status(a: AppView, text: Seq<char>, is_error: bool) -> AppView {
    AppView { status: Some(StatusView { text, is_error }), ..a }
}

pub open spec fn marked_dirty(a: AppView) -> AppView {
    AppView { dirty: a.dirty.update(a.active_profile as int, true), ..a }
}

pub open spec fn with_cur(a: AppView, p: ProfileView) -> AppView {
    AppView { profiles: a.profiles.update(a.active_profile as int, p), ..a }
}

pub open spec fn any_dirty(a: AppView) -> bool {
    exists|i: int| 0 <= i < a.dirty.len() && a.dirty[i]
}

pub open spec fn sat_pred(n: usize) -> usize {
    if n == 0 { 0 } else { (n - 1) as usize }
}

pub open spec fn max_cursor_spec(a: AppView) -> usize {
    match a.tab {
        Tab::Buttons => sat_pred(a.desc.button_slots.len() as usize),
        Tab::Dpi => sat_pred(a.desc.num_dpi_presets),
        Tab::Leds => sat_pred(a.desc.num_leds),
        Tab::Settings => 2,
    }
}

pub open spec fn clamp_int(v: int, lo: int, hi: int) -> int {
    if v < lo { lo } else if v > hi { hi } else { v }
}

// --- Value adjustment, as specifications ---

pub open spec fn adjust_dpi_spec(a: AppView, preset: int, delta: int) -> AppView {
    let p = cur(a);
    let v = clamp_int(p.dpi_presets[preset] + delta, a.desc.dpi_min as int, a.desc.dpi_max as int) as u16;
    marked_dirty(with_cur(a, ProfileView { dpi_presets: p.dpi_presets.update(preset, v), ..p }))
}

pub open spec fn adjust_dpi_safe(a: AppView, preset: int) -> bool {
    active_ok(a) && 0 <= preset < cur(a).dpi_presets.len() && a.desc.dpi_min <= a.desc.dpi_max
}

pub open spec fn cycled_index(idx: int, len: int, forward: bool) -> int {
    if forward { (idx + 1) % len } else { (idx + len - 1) % len }
}

pub open spec fn cycle_polling_rate_spec(a: AppView, forward: bool) -> AppView {
    let p = cur(a);
    let idx = match first_index_of(polling_rate_table(), p.polling_rate) { Some(i) => i, None => 3 };
    let rate = polling_rate_table()[cycled_index(idx, 4, forward)];
    marked_dirty(with_cur(a, ProfileView { polling_rate: rate, ..p }))
}

pub open spec fn cycle_debounce_spec(a: AppView, forward: bool) -> AppView {
    let p = cur(a);
    let idx = match first_index_of(debounce_table(), p.debounce_ms) { Some(i) => i, None => 1 };
    let ms = debounce_table()[cycled_index(idx, 8, forward)];
    marked_dirty(with_cur(a, ProfileView { debounce_ms: ms, ..p }))
}

pub open spec fn toggle_angle_snapping_spec(a: AppView) -> AppView {
    let p = cur(a);
    marked_dirty(with_cur(a, ProfileView { angle_snapping: !p.angle_snapping, ..p }))
}

pub open spec fn cycle_led_mode_spec(a: AppView, zone: int, forward: bool) -> AppView {
    let p = cur(a);
    let l = p.leds[zone];
    let m = led_mode_from_byte(cycled_index(led_mode_byte(l.mode) as int, 7, forward) as u8)->0;
    marked_dirty(with_cur(a, ProfileView { leds: p.leds.update(zone, LedConfig { mode: m, ..l }), ..p }))
}

pub open spec fn led_safe(a: AppView, zone: int) -> bool {
    active_ok(a) && 0 <= zone < cur(a).leds.len()
}

/// The next brightness of a zone: one more, back to 0 after the device's limit.
pub open spec fn cycle_led_brightness_spec(a: AppView, zone: int) -> AppView {
    let p = cur(a);
    let l = p.leds[zone];
    let b = ((l.brightness + 1) % (a.desc.brightness_max + 1)) as u8;
    marked_dirty(with_cur(a, ProfileView { leds: p.leds.update(zone, LedConfig { brightness: b, ..l }), ..p }))
}

/// Cycling the brightness of a zone needs only that the zone exists; the step is
/// computed without overflow for every brightness and limit, 255 included.
pub open spec fn cycle_led_brightness_safe(a: AppView, zone: int) -> bool {
    led_safe(a, zone)
}

/// The bindings that the binding editor offers, with the names it shows.
pub open spec fn action_list_spec() -> Seq<(Seq<char>, ButtonBinding)> {
    seq![
        ("left_click"@, ButtonBinding { action_code: 0xF0, kind: BindingKind::Mouse }),
        ("right_click"@, ButtonBinding { action_code: 0xF1, kind: BindingKind::Mouse }),
        ("middle_click"@, ButtonBinding { action_code: 0xF2, kind: BindingKind::Mouse }),
        ("back"@, ButtonBinding { action_code: 0xE4, kind: BindingKind::Mouse }),
        ("forward"@, ButtonBinding { action_code: 0xE5, kind: BindingKind::Mouse }),
        ("dpi_cycle"@, ButtonBinding { action_code: 0xE6, kind: BindingKind::Mouse }),
        ("dpi_target"@, ButtonBinding { action_code: 0xE7, kind: BindingKind::Mouse }),
        ("scroll_up"@, ButtonBinding { action_code: 0xE8, kind: BindingKind::Mouse }),
        ("scroll_down"@, ButtonBinding { action_code: 0xE9, kind: BindingKind::Mouse }),
        ("side_a"@, ButtonBinding { action_code: 0xEA, kind: BindingKind::Mouse }),
        ("side_b"@, ButtonBinding { action_code: 0xEB, kind: BindingKind::Mouse }),
        ("side_c"@, ButtonBinding { action_code: 0xEC, kind: BindingKind::Mouse }),
        ("side_d"@, ButtonBinding { action_code: 0xED, kind: BindingKind::Mouse }),
        ("side_e"@, ButtonBinding { action_code: 0xEE, kind: BindingKind::Mouse }),
        ("side_f"@, ButtonBinding { action_code: 0xEF, kind: BindingKind::Mouse }),
        ("side_g"@, ButtonBinding { action_code: 0xDA, kind: BindingKind::Mouse }),
        ("side_h"@, ButtonBinding { action_code: 0xDB, kind: BindingKind::Mouse }),
        ("side_i"@, ButtonBinding { action_code: 0xDC, kind: BindingKind::Mouse }),
        ("side_j"@, ButtonBinding { action_code: 0xDD, kind: BindingKind::Mouse }),
        ("side_k"@, ButtonBinding { action_code: 0xDE, kind: BindingKind::Mouse }),
        ("side_l"@, ButtonBinding { action_code: 0xDF, kind: BindingKind::Mouse }),
        ("disabled"@, ButtonBinding { action_code: 0xFF, kind: BindingKind::Mouse }),
        ("key:a"@, ButtonBinding { action_code: 0x04, kind: BindingKind::Keyboard }),
        ("key:b"@, ButtonBinding { action_code: 0x05, kind: BindingKind::Keyboard }),
        ("key:c"@, ButtonBinding { action_code: 0x06, kind: BindingKind::Keyboard }),
        ("key:d"@, ButtonBinding { action_code: 0x07, kind: BindingKind::Keyboard }),
        ("key:e"@, ButtonBinding { action_code: 0x08, kind: BindingKind::Keyboard }),
        ("key:f"@, ButtonBinding { action_code: 0x09, kind: BindingKind::Keyboard }),
        ("key:r"@, ButtonBinding { action_code: 0x15, kind: BindingKind::Keyboard }),
        ("key:space"@, ButtonBinding { action_code: 0x2C, kind: BindingKind::Keyboard }),
        ("key:enter"@, ButtonBinding { action_code: 0x28, kind: BindingKind::Keyboard }),
        ("key:escape"@, ButtonBinding { action_code: 0x29, kind: BindingKind::Keyboard }),
        ("key:tab"@, ButtonBinding { action_code: 0x2B, kind: BindingKind::Keyboard }),
        ("key:f1"@, ButtonBinding { action_code: 0x3A, kind: BindingKind::Keyboard }),
        ("key:f2"@, ButtonBinding { action_code: 0x3B, kind: BindingKind::Keyboard }),
        ("key:f3"@, ButtonBinding { action_code: 0x3C, kind: BindingKind::Keyboard }),
        ("key:f4"@, ButtonBinding { action_code: 0x3D, kind: BindingKind::Keyboard }),
        ("key:f5"@, ButtonBinding { action_code: 0x3E, kind: BindingKind::Keyboard }),
    ]
}

/// The bindings that the binding editor offers, with the names it shows.
pub fn binding_action_list() -> (r: Vec<(&'static str, ButtonBinding)>)
    ensures
        r@.len() == action_list_spec().len(),
        forall|i: int| 0 <= i < r@.len() ==> (#[trigger] r@[i]).0@ == action_list_spec()[i].0
            && r@[i].1 == action_list_spec()[i].1,
{
    let mut v: Vec<(&'static str, ButtonBinding)> = Vec::new();
    v.push(("left_click", ButtonBinding::mouse_action(ButtonCode::LeftClick)));
    v.push(("right_click", ButtonBinding::mouse_action(ButtonCode::RightClick)));
    v.push(("middle_click", ButtonBinding::mouse_action(ButtonCode::MiddleClick)));
    v.push(("back", ButtonBinding::mouse_action(ButtonCode::Back)));
    v.push(("forward", ButtonBinding::mouse_action(ButtonCode::Forward)));
    v.push(("dpi_cycle", ButtonBinding::mouse_action(ButtonCode::DpiCycle)));
    v.push(("dpi_target", ButtonBinding::mouse_action(ButtonCode::DpiTarget)));
    v.push(("scroll_up", ButtonBinding::mouse_action(ButtonCode::ScrollUp)));
    v.push(("scroll_down", ButtonBinding::mouse_action(ButtonCode::ScrollDown)));
    v.push(("side_a", ButtonBinding::mouse_action(ButtonCode::SideA)));
    v.push(("side_b", ButtonBinding::mouse_action(ButtonCode::SideB)));
    v.push(("side_c", ButtonBinding::mouse_action(ButtonCode::SideC)));
    v.push(("side_d", ButtonBinding::mouse_action(ButtonCode::SideD)));
    v.push(("side_e", ButtonBinding::mouse_action(ButtonCode::SideE)));
    v.push(("side_f", ButtonBinding::mouse_action(ButtonCode::SideF)));
    v.push(("side_g", ButtonBinding::mouse_action(ButtonCode::SideG)));
    v.push(("side_h", ButtonBinding::mouse_action(ButtonCode::SideH)));
    v.push(("side_i", ButtonBinding::mouse_action(ButtonCode::SideI)));
    v.push(("side_j", ButtonBinding::mouse_action(ButtonCode::SideJ)));
    v.push(("side_k", ButtonBinding::mouse_action(ButtonCode::SideK)));
    v.push(("side_l", ButtonBinding::mouse_action(ButtonCode::SideL)));
    v.push(("disabled", ButtonBinding::disabled()));
    v.push(("key:a", ButtonBinding::keyboard_key(0x04)));
    v.push(("key:b", ButtonBinding::keyboard_key(0x05)));
    v.push(("key:c", ButtonBinding::keyboard_key(0x06)));
    v.push(("key:d", ButtonBinding::keyboard_key(0x07)));
    v.push(("key:e", ButtonBinding::keyboard_key(0x08)));
    v.push(("key:f", ButtonBinding::keyboard_key(0x09)));
    v.push(("key:r", ButtonBinding::keyboard_key(0x15)));
    v.push(("key:space", ButtonBinding::keyboard_key(0x2C)));
    v.push(("key:enter", ButtonBinding::keyboard_key(0x28)));
    v.push(("key:escape", ButtonBinding::keyboard_key(0x29)));
    v.push(("key:tab", ButtonBinding::keyboard_key(0x2B)));
    v.push(("key:f1", ButtonBinding::keyboard_key(0x3A)));
    v.push(("key:f2", ButtonBinding::keyboard_key(0x3B)));
    v.push(("key:f3", ButtonBinding::keyboard_key(0x3C)));
    v.push(("key:f4", ButtonBinding::keyboard_key(0x3D)));
    v.push(("key:f5", ButtonBinding::keyboard_key(0x3E)));
    v
}
// --- Key handling, as specifications ---

pub open spec fn quit_warning_text() -> Seq<char> {
    "Unsaved changes! Press 'q' again to quit or 's' to save."@
}

pub open spec fn enter_normal_spec(a: AppView) -> AppView {
    match a.tab {
        Tab::Buttons => AppView { mode: Mode::EditingBinding { slot: a.cursor }, binding_cursor: 0, ..a },
        Tab::Dpi => AppView {
            mode: Mode::EditingDpi { preset: a.cursor },
            input_buf: decimal_chars(cur(a).dpi_presets[a.cursor as int] as nat),
            ..a
        },
        Tab::Leds => cycle_led_mode_spec(a, a.cursor as int, true),
        Tab::Settings => if a.cursor == 0 {
            cycle_polling_rate_spec(a, true)
        } else if a.cursor == 1 {
            cycle_debounce_spec(a, true)
        } else if a.cursor == 2 {
            toggle_angle_snapping_spec(a)
        } else {
            a
        },
    }
}

pub open spec fn enter_normal_safe(a: AppView) -> bool {
    match a.tab {
        Tab::Buttons => true,
        Tab::Dpi => active_ok(a) && a.cursor < cur(a).dpi_presets.len(),
        Tab::Leds => led_safe(a, a.cursor as int),
        Tab::Settings => a.cursor <= 2 ==> active_ok(a),
    }
}

/// Left (`forward` false) or right (`forward` true) on a row: step a DPI preset by 50,
/// or cycle a polling rate, debounce time or LED mode.
pub open spec fn adjust_spec(a: AppView, forward: bool) -> AppView {
    if a.tab == Tab::Dpi {
        adjust_dpi_spec(a, a.cursor as int, if forward { 50 } else { -50 })
    } else if a.tab == Tab::Settings && a.cursor == 0 {
        cycle_polling_rate_spec(a, forward)
    } else if a.tab == Tab::Settings && a.cursor == 1 {
        cycle_debounce_spec(a, forward)
    } else if a.tab == Tab::Leds {
        cycle_led_mode_spec(a, a.cursor as int, forward)
    } else {
        a
    }
}

pub open spec fn adjust_safe(a: AppView) -> bool {
    if a.tab == Tab::Dpi {
        adjust_dpi_safe(a, a.cursor as int)
    } else if a.tab == Tab::Settings && (a.cursor == 0 || a.cursor == 1) {
        active_ok(a)
    } else if a.tab == Tab::Leds {
        led_safe(a, a.cursor as int)
    } else {
        true
    }
}

pub open spec fn is_digit_1_9(c: char) -> bool {
    '1' <= c <= '9'
}

/// A key in normal mode.
pub open spec fn normal_step(a0: AppView, key: Key, evdev_available: bool) -> (AppView, Action) {
    // Any key but 'q' clears the quit confirmation and the status line.
    let a = if key != Key::Char('q') { AppView { confirm_quit: false, status: None, ..a0 } } else { a0 };
    if key == Key::Char('q') {
        if any_dirty(a) && !a.confirm_quit {
            (with_status(AppView { confirm_quit: true, ..a }, quit_warning_text(), false), Action::Nothing)
        } else {
            (AppView { should_quit: true, ..a }, Action::Nothing)
        }
    } else if key == Key::Tab {
        (AppView { tab: tab_next(a.tab), cursor: 0, ..a }, Action::Nothing)
    } else if key == Key::BackTab {
        (AppView { tab: tab_prev(a.tab), cursor: 0, ..a }, Action::Nothing)
    } else if key matches Key::Char(c) && is_digit_1_9(c) {
        let idx = ((key->Char_0 as u32) - 49) as u8;
        if (idx as int) < a.desc.num_profiles && (idx as int) < a.profiles.len() {
            (with_status(AppView { active_profile: idx, cursor: 0, ..a },
                "Switched to profile "@ + decimal_chars(idx as nat + 1), false), Action::Nothing)
        } else {
            (a, Action::Nothing)
        }
    } else if key == Key::Up || key == Key::Char('k') {
        (if a.cursor > 0 { AppView { cursor: (a.cursor - 1) as usize, ..a } } else { a }, Action::Nothing)
    } else if key == Key::Down || key == Key::Char('j') {
        (if a.cursor < max_cursor_spec(a) { AppView { cursor: (a.cursor + 1) as usize, ..a } } else { a }, Action::Nothing)
    } else if key == Key::Enter {
        (enter_normal_spec(a), Action::Nothing)
    } else if key == Key::Left || key == Key::Char(',') {
        (adjust_spec(a, false), Action::Nothing)
    } else if key == Key::Right || key == Key::Char('.') {
        (adjust_spec(a, true), Action::Nothing)
    } else if key == Key::Char('p') && a.tab == Tab::Buttons {
        if evdev_available {
            (a, Action::GrabEvdev)
        } else {
            (with_status(a, "No evdev device available for button detection"@, true), Action::Nothing)
        }
    } else if key == Key::Char('c') && a.tab == Tab::Leds {
        let l = cur(a).leds[a.cursor as int];
        (AppView {
            input_buf: hex_byte_chars(l.r) + hex_byte_chars(l.g) + hex_byte_chars(l.b),
            mode: Mode::EditingLedColor { zone: a.cursor },
            ..a
        }, Action::Nothing)
    } else if key == Key::Char('b') && a.tab == Tab::Leds {
        (cycle_led_brightness_spec(a, a.cursor as int), Action::Nothing)
    } else if key == Key::Char('s') {
        (a, Action::SaveConfig)
    } else if key == Key::Char('a') {
        (a, Action::ApplyToDevice)
    } else {
        (a, Action::Nothing)
    }
}

/// Whether a key in normal mode stays within the profile, preset and zone lists and within
/// the arithmetic limits.
pub open spec fn normal_safe(a: AppView, key: Key) -> bool {
    if key == Key::Enter {
        enter_normal_safe(a)
    } else if key == Key::Left || key == Key::Char(',') || key == Key::Right || key == Key::Char('.') {
        adjust_safe(a)
    } else if key == Key::Char('c') && a.tab == Tab::Leds {
        active_ok(a) && a.cursor < cur(a).leds.len()
    } else if key == Key::Char('b') && a.tab == Tab::Leds {
        cycle_led_brightness_safe(a, a.cursor as int)
    } else {
        true
    }
}

/// A key while choosing a binding from the list for `slot`.
pub open spec fn editing_binding_step(a: AppView, key: Key, slot: usize) -> AppView {
    let actions = action_list_spec();
    if key == Key::Esc {
        AppView { mode: Mode::Normal, ..a }
    } else if key == Key::Up || key == Key::Char('k') {
        if a.binding_cursor > 0 { AppView { binding_cursor: (a.binding_cursor - 1) as usize, ..a } } else { a }
    } else if key == Key::Down || key == Key::Char('j') {
        if a.binding_cursor < actions.len() - 1 { AppView { binding_cursor: (a.binding_cursor + 1) as usize, ..a } } else { a }
    } else if key == Key::Enter {
        if a.binding_cursor < actions.len() {
            let (name, binding) = actions[a.binding_cursor as int];
            let p = cur(a);
            with_status(
                AppView { mode: Mode::Normal, ..marked_dirty(with_cur(a, ProfileView { buttons: p.buttons.update(slot as int, binding), ..p })) },
                "Set button "@ + decimal_chars(slot as nat) + " to "@ + name,
                false,
            )
        } else {
            a
        }
    } else {
        a
    }
}

pub open spec fn editing_binding_safe(a: AppView, key: Key, slot: usize) -> bool {
    (key == Key::Enter && a.binding_cursor < action_list_spec().len()) ==> (active_ok(a) && slot < cur(a).buttons.len())
}

/// The DPI a typed value sets: clamped to the device's range, rounded down to its step,
/// and not below its minimum.
pub open spec fn rounded_dpi(d: DescriptorView, dpi: u16) -> u16 {
    let clamped = clamp_int(dpi as int, d.dpi_min as int, d.dpi_max as int);
    let rounded = (clamped / (d.dpi_step as int)) * (d.dpi_step as int);
    (if rounded < d.dpi_min { d.dpi_min as int } else { rounded }) as u16
}

/// The bytes of the typed text.
pub open spec fn input_bytes(a: AppView) -> Seq<u8> {
    vstd::utf8::encode_utf8(a.input_buf)
}

pub open spec fn is_ascii_digit(c: char) -> bool {
    '0' <= c <= '9'
}

pub open spec fn is_ascii_hexdigit(c: char) -> bool {
    ('0' <= c <= '9') || ('a' <= c <= 'f') || ('A' <= c <= 'F')
}

/// A key while typing the value of DPI preset `preset`.
pub open spec fn editing_dpi_step(a: AppView, key: Key, preset: usize) -> AppView {
    if key == Key::Esc {
        AppView { mode: Mode::Normal, input_buf: Seq::empty(), ..a }
    } else if key == Key::Enter {
        let b = match radix_value(input_bytes(a), 10, 65535) {
            Some(v) => {
                let dpi = rounded_dpi(a.desc, v as u16);
                let p = cur(a);
                with_status(
                    marked_dirty(with_cur(a, ProfileView { dpi_presets: p.dpi_presets.update(preset as int, dpi), ..p })),
                    "DPI preset "@ + decimal_chars(preset as nat + 1) + " set to "@ + decimal_chars(dpi as nat),
                    false,
                )
            },
            None => with_status(a, "Invalid DPI value"@, true),
        };
        AppView { mode: Mode::Normal, input_buf: Seq::empty(), ..b }
    } else if key == Key::Backspace {
        AppView { input_buf: if a.input_buf.len() > 0 { a.input_buf.drop_last() } else { a.input_buf }, ..a }
    } else if key matches Key::Char(c) && is_ascii_digit(c) {
        if input_bytes(a).len() < 5 { AppView { input_buf: a.input_buf.push(key->Char_0), ..a } } else { a }
    } else {
        a
    }
}

pub open spec fn editing_dpi_safe(a: AppView, key: Key, preset: usize) -> bool {
    (key == Key::Enter && radix_value(input_bytes(a), 10, 65535) is Some) ==> {
        &&& a.desc.dpi_min <= a.desc.dpi_max
        &&& a.desc.dpi_step != 0
        &&& active_ok(a)
        &&& preset < cur(a).dpi_presets.len()
        &&& preset < usize::MAX
    }
}

/// The color that six typed bytes stand for, as three two-byte hexadecimal numbers.
pub open spec fn typed_color(b: Seq<u8>) -> Option<(u8, u8, u8)> {
    match (radix_value(b.subrange(0, 2), 16, 255), radix_value(b.subrange(2, 4), 16, 255), radix_value(b.subrange(4, 6), 16, 255)) {
        (Some(r), Some(g), Some(bl)) => Some((r as u8, g as u8, bl as u8)),
        _ => None,
    }
}

/// A key while typing the color of LED zone `zone`.
pub open spec fn editing_color_step(a: AppView, key: Key, zone: usize) -> AppView {
    if key == Key::Esc {
        AppView { mode: Mode::Normal, input_buf: Seq::empty(), ..a }
    } else if key == Key::Enter {
        let b = if input_bytes(a).len() == 6 {
            match typed_color(input_bytes(a)) {
                Some((r, g, bl)) => {
                    let p = cur(a);
                    let l = p.leds[zone as int];
                    with_status(
                        marked_dirty(with_cur(a, ProfileView { leds: p.leds.update(zone as int, LedConfig { r, g, b: bl, ..l }), ..p })),
                        "LED zone "@ + decimal_chars(zone as nat) + " color set to #"@ + a.input_buf,
                        false,
                    )
                },
                None => with_status(a, "Invalid hex color"@, true),
            }
        } else {
            with_status(a, "Color must be 6 hex digits (e.g. ff8800)"@, true)
        };
        AppView { mode: Mode::Normal, input_buf: Seq::empty(), ..b }
    } else if key == Key::Backspace {
        AppView { input_buf: if a.input_buf.len() > 0 { a.input_buf.drop_last() } else { a.input_buf }, ..a }
    } else if key matches Key::Char(c) && is_ascii_hexdigit(c) {
        if input_bytes(a).len() < 6 { AppView { input_buf: a.input_buf.push(key->Char_0), ..a } } else { a }
    } else {
        a
    }
}

pub open spec fn editing_color_safe(a: AppView, key: Key, zone: usize) -> bool {
    (key == Key::Enter && input_bytes(a).len() == 6) ==> {
        // slicing the typed text at bytes 2 and 4 needs character boundaries there
        &&& !(128 <= input_bytes(a)[2] < 192)
        &&& !(128 <= input_bytes(a)[4] < 192)
        &&& typed_color(input_bytes(a)) is Some ==> active_ok(a) && zone < cur(a).leds.len()
    }
}

/// A key while waiting for a mouse button press.
pub open spec fn waiting_step(a: AppView, key: Key) -> (AppView, Action) {
    if key == Key::Esc {
        (with_status(AppView { mode: Mode::Normal, ..a }, "Button select cancelled"@, false), Action::UngrabEvdev)
    } else {
        (a, Action::Nothing)
    }
}

/// The configurator's answer to a key press: its next state and what the caller should do.
pub open spec fn key_step(a: AppView, key: Key, evdev_available: bool) -> (AppView, Action) {
    match a.mode {
        Mode::Normal => normal_step(a, key, evdev_available),
        Mode::EditingBinding { slot } => (editing_binding_step(a, key, slot), Action::Nothing),
        Mode::EditingDpi { preset } => (editing_dpi_step(a, key, preset), Action::Nothing),
        Mode::EditingLedColor { zone } => (editing_color_step(a, key, zone), Action::Nothing),
        Mode::WaitingForButton => waiting_step(a, key),
    }
}

/// Whether answering a key stays within the lists and arithmetic limits.
pub open spec fn key_safe(a: AppView, key: Key) -> bool {
    match a.mode {
        Mode::Normal => normal_safe(a, key),
        Mode::EditingBinding { slot } => editing_binding_safe(a, key, slot),
        Mode::EditingDpi { preset } => editing_dpi_safe(a, key, preset),
        Mode::EditingLedColor { zone } => editing_color_safe(a, key, zone),
        Mode::WaitingForButton => true,
    }
}


// --- The state and its helpers ---

proof fn lemma_replace_profile(ps: Seq<DeviceProfile>, i: int, p: DeviceProfile)
    requires
        0 <= i < ps.len(),
    ensures
        profiles_view(ps.remove(i).insert(i, p)) == profiles_view(ps).update(i, p@),
{
    assert(ps.remove(i).insert(i, p) =~= ps.update(i, p));
    assert(profiles_view(ps.update(i, p)) =~= profiles_view(ps).update(i, p@));
}

impl App {
    /// A configurator showing `profiles`, with profile `active_profile` selected, on the
    /// buttons tab in normal mode, with nothing modified.
    pub fn new(desc: DeviceDescriptor, active_profile: u8, profiles: Vec<DeviceProfile>) -> (r: App)
        ensures
            r@ == (AppView {
                desc: desc@,
                active_profile,
                profiles: profiles_view(profiles@),
                tab: Tab::Buttons,
                mode: Mode::Normal,
                cursor: 0,
                dirty: Seq::new(profiles@.len(), |i: int| false),
                status: None,
                should_quit: false,
                confirm_quit: false,
                input_buf: Seq::empty(),
                binding_cursor: 0,
                binding_filter: None,
            }),
    {
        let n = profiles.len();
        let mut dirty: Vec<bool> = Vec::new();
        let mut i: usize = 0;
        while i < n
            invariant
                i <= n,
                dirty@ == Seq::new(i as nat, |k: int| false),
            decreases n - i,
        {
            dirty.push(false);
            i = i + 1;
            assert(dirty@ =~= Seq::new(i as nat, |k: int| false));
        }
        App {
            desc,
            active_profile,
            profiles,
            tab: Tab::Buttons,
            mode: Mode::Normal,
            cursor: 0,
            dirty,
            status: None,
            should_quit: false,
            confirm_quit: false,
            input_buf: String::new(),
            binding_cursor: 0,
            binding_filter: None,
        }
    }

    pub fn current_profile(&self) -> (r: &DeviceProfile)
        requires
            active_ok(self@),
        ensures
            r@ == cur(self@),
    {
        &self.profiles[self.active_profile as usize]
    }

    /// The active profile, for changing it in place.
    pub fn current_profile_mut(&mut self) -> (r: &mut DeviceProfile)
        requires
            active_ok(old(self)@),
        ensures
            r@ == cur(old(self)@),
            final(self)@ == with_cur(old(self)@, final(r)@),
    {
        let i = self.active_profile as usize;
        &mut self.profiles[i]
    }

    /// Shows `text` in the footer as information.
    pub fn set_status(&mut self, text: String)
        ensures
            final(self)@ == with_status(old(self)@, text@, false),
    {
        self.status = Some(StatusMessage { text, is_error: false });
    }

    /// Shows `text` in the footer as an error.
    pub fn set_error(&mut self, text: String)
        ensures
            final(self)@ == with_status(old(self)@, text@, true),
    {
        self.status = Some(StatusMessage { text, is_error: true });
    }

    /// Whether any profile has changes that were neither saved nor applied.
    pub fn is_any_dirty(&self) -> (r: bool)
        ensures
            r == any_dirty(self@),
    {
        let mut i: usize = 0;
        while i < self.dirty.len()
            invariant
                i <= self.dirty@.len(),
                forall|k: int| 0 <= k < i ==> !self.dirty@[k],
            decreases self.dirty@.len() - i,
        {
            if self.dirty[i] {
                assert(self@.dirty[i as int]);
                return true;
            }
            i = i + 1;
        }
        false
    }

    /// Marks the active profile as modified.
    pub fn mark_dirty(&mut self)
        requires
            old(self)@.active_profile < old(self)@.dirty.len(),
        ensures
            final(self)@ == marked_dirty(old(self)@),
    {
        let i = self.active_profile as usize;
        self.dirty.set(i, true);
    }

    /// The last row of the current tab.
    pub fn max_cursor(&self) -> (r: usize)
        ensures
            r == max_cursor_spec(self@),
    {
        match self.tab {
            Tab::Buttons => self.desc.button_slots.len().saturating_sub(1),
            Tab::Dpi => self.desc.num_dpi_presets.saturating_sub(1),
            Tab::Leds => self.desc.num_leds.saturating_sub(1),
            Tab::Settings => 2,
        }
    }

    // --- Value adjustment ---

    fn adjust_dpi(&mut self, preset: usize, delta: i32)
        requires
            adjust_dpi_safe(old(self)@, preset as int),
            delta == 50 || delta == -50,
        ensures
            final(self)@ == adjust_dpi_spec(old(self)@, preset as int, delta as int),
    {
        let i = self.active_profile as usize;
        let current = self.profiles[i].settings.dpi_presets[preset] as i32;
        let min = self.desc.dpi_min as i32;
        let max = self.desc.dpi_max as i32;
        let moved = current + delta;
        let new_val: u16 = if moved < min {
            min as u16
        } else if moved > max {
            max as u16
        } else {
            moved as u16
        };
        let ghost ps = self.profiles@;
        let mut p = self.profiles.remove(i);
        p.settings.dpi_presets.set(preset, new_val);
        self.profiles.insert(i, p);
        proof {
            lemma_replace_profile(ps, i as int, p);
            assert(p@ =~= (ProfileView { dpi_presets: ps[i as int]@.dpi_presets.update(preset as int, new_val), ..ps[i as int]@ }));
        }
        self.mark_dirty();
    }

    fn cycle_polling_rate(&mut self, forward: bool)
        requires
            active_ok(old(self)@),
        ensures
            final(self)@ == cycle_polling_rate_spec(old(self)@, forward),
    {
        let i = self.active_profile as usize;
        let current = self.profiles[i].settings.polling_rate;
        let idx: usize = match polling_rate_index(current) {
            Some(k) => k,
            None => 3,
        };
        proof {
            lemma_first_index_of(polling_rate_table(), current);
        }
        let new_idx: usize = if forward { (idx + 1) % 4 } else { (idx + 4 - 1) % 4 };
        let rates = polling_rates();
        let ghost ps = self.profiles@;
        let mut p = self.profiles.remove(i);
        p.settings.polling_rate = rates[new_idx];
        self.profiles.insert(i, p);
        proof {
            lemma_replace_profile(ps, i as int, p);
            assert(p@ =~= (ProfileView { polling_rate: polling_rate_table()[new_idx as int], ..ps[i as int]@ }));
        }
        self.mark_dirty();
    }

    fn cycle_debounce(&mut self, forward: bool)
        requires
            active_ok(old(self)@),
        ensures
            final(self)@ == cycle_debounce_spec(old(self)@, forward),
    {
        let i = self.active_profile as usize;
        let current = self.profiles[i].settings.debounce_ms;
        let idx: usize = match debounce_index(current) {
            Some(k) => k,
            None => 1,
        };
        proof {
            lemma_first_index_of(debounce_table(), current);
        }
        let new_idx: usize = if forward { (idx + 1) % 8 } else { (idx + 8 - 1) % 8 };
        let times = debounce_times();
        let ghost ps = self.profiles@;
        let mut p = self.profiles.remove(i);
        p.settings.debounce_ms = times[new_idx];
        self.profiles.insert(i, p);
        proof {
            lemma_replace_profile(ps, i as int, p);
            assert(p@ =~= (ProfileView { debounce_ms: debounce_table()[new_idx as int], ..ps[i as int]@ }));
        }
        self.mark_dirty();
    }

    fn toggle_angle_snapping(&mut self)
        requires
            active_ok(old(self)@),
        ensures
            final(self)@ == toggle_angle_snapping_spec(old(self)@),
    {
        let i = self.active_profile as usize;
        let ghost ps = self.profiles@;
        let mut p = self.profiles.remove(i);
        p.settings.angle_snapping = !p.settings.angle_snapping;
        self.profiles.insert(i, p);
        proof {
            lemma_replace_profile(ps, i as int, p);
            assert(p@ =~= (ProfileView { angle_snapping: !ps[i as int]@.angle_snapping, ..ps[i as int]@ }));
        }
        self.mark_dirty();
    }

    fn cycle_led_mode(&mut self, zone: usize, forward: bool)
        requires
            led_safe(old(self)@, zone as int),
        ensures
            final(self)@ == cycle_led_mode_spec(old(self)@, zone as int, forward),
    {
        let i = self.active_profile as usize;
        let current = self.profiles[i].leds[zone].mode.to_u8();
        let new_val: u8 = if forward { (current + 1) % 7 } else { (current + 7 - 1) % 7 };
        proof {
            lemma_led_mode_byte_roundtrip(self.profiles@[i as int].leds@[zone as int].mode, new_val);
        }
        if let Some(mode) = LedMode::from_u8(new_val) {
            let ghost ps = self.profiles@;
            let mut p = self.profiles.remove(i);
            let mut l = p.leds[zone];
            l.mode = mode;
            p.leds.set(zone, l);
            self.profiles.insert(i, p);
            proof {
                lemma_replace_profile(ps, i as int, p);
                assert(p@ =~= (ProfileView { leds: ps[i as int]@.leds.update(zone as int, l), ..ps[i as int]@ }));
            }
            self.mark_dirty();
        }
    }

    fn cycle_led_brightness(&mut self, zone: usize)
        requires
            cycle_led_brightness_safe(old(self)@, zone as int),
        ensures
            final(self)@ == cycle_led_brightness_spec(old(self)@, zone as int),
    {
        let max = self.desc.brightness_max;
        let i = self.active_profile as usize;
        let current = self.profiles[i].leds[zone].brightness;
        let ghost ps = self.profiles@;
        let mut p = self.profiles.remove(i);
        let mut l = p.leds[zone];
        l.brightness = ((current as u16 + 1) % (max as u16 + 1)) as u8;
        p.leds.set(zone, l);
        self.profiles.insert(i, p);
        proof {
            lemma_replace_profile(ps, i as int, p);
            assert(p@ =~= (ProfileView { leds: ps[i as int]@.leds.update(zone as int, l), ..ps[i as int]@ }));
        }
        self.mark_dirty();
    }
}


// --- Answering a key ---

impl App {
    fn enter_normal(&mut self)
        requires
            enter_normal_safe(old(self)@),
        ensures
            final(self)@ == enter_normal_spec(old(self)@),
    {
        match self.tab {
            Tab::Buttons => {
                self.mode = Mode::EditingBinding { slot: self.cursor };
                self.binding_cursor = 0;
            },
            Tab::Dpi => {
                self.mode = Mode::EditingDpi { preset: self.cursor };
                let v = self.profiles[self.active_profile as usize].settings.dpi_presets[self.cursor];
                let mut s = String::new();
                push_decimal(&mut s, v as usize);
                self.input_buf = s;
            },
            Tab::Leds => {
                self.cycle_led_mode(self.cursor, true);
            },
            Tab::Settings => {
                if self.cursor == 0 {
                    self.cycle_polling_rate(true);
                } else if self.cursor == 1 {
                    self.cycle_debounce(true);
                } else if self.cursor == 2 {
                    self.toggle_angle_snapping();
                }
            },
        }
    }

    fn adjust(&mut self, forward: bool)
        requires
            adjust_safe(old(self)@),
        ensures
            final(self)@ == adjust_spec(old(self)@, forward),
    {
        if self.tab == Tab::Dpi {
            self.adjust_dpi(self.cursor, if forward { 50 } else { -50 });
        } else if self.tab == Tab::Settings && self.cursor == 0 {
            self.cycle_polling_rate(forward);
        } else if self.tab == Tab::Settings && self.cursor == 1 {
            self.cycle_debounce(forward);
        } else if self.tab == Tab::Leds {
            self.cycle_led_mode(self.cursor, forward);
        }
    }

    fn handle_normal(&mut self, key: Key, evdev_available: bool) -> (r: Action)
        requires
            normal_safe(old(self)@, key),
        ensures
            final(self)@ == normal_step(old(self)@, key, evdev_available).0,
            r == normal_step(old(self)@, key, evdev_available).1,
    {
        // Any key but 'q' clears the quit confirmation and the status line.
        if key != Key::Char('q') {
            self.confirm_quit = false;
            self.status = None;
        }
        let digit: Option<char> = match key {
            Key::Char(c) => if '1' <= c && c <= '9' { Some(c) } else { None },
            _ => None,
        };
        if key == Key::Char('q') {
            if self.is_any_dirty() && !self.confirm_quit {
                self.confirm_quit = true;
                self.set_status(String::from_str("Unsaved changes! Press 'q' again to quit or 's' to save."));
                return Action::Nothing;
            }
            self.should_quit = true;
            Action::Nothing
        } else if key == Key::Tab {
            self.tab = self.tab.next();
            self.cursor = 0;
            Action::Nothing
        } else if key == Key::BackTab {
            self.tab = self.tab.prev();
            self.cursor = 0;
            Action::Nothing
        } else if let Some(c) = digit {
            let idx: u8 = ((c as u32) - 49) as u8;
            if (idx as usize) < self.desc.num_profiles && (idx as usize) < self.profiles.len() {
                self.active_profile = idx;
                self.cursor = 0;
                let mut s = String::from_str("Switched to profile ");
                push_decimal(&mut s, idx as usize + 1);
                self.set_status(s);
            }
            Action::Nothing
        } else if key == Key::Up || key == Key::Char('k') {
            if self.cursor > 0 {
                self.cursor = self.cursor - 1;
            }
            Action::Nothing
        } else if key == Key::Down || key == Key::Char('j') {
            if self.cursor < self.max_cursor() {
                self.cursor = self.cursor + 1;
            }
            Action::Nothing
        } else if key == Key::Enter {
            self.enter_normal();
            Action::Nothing
        } else if key == Key::Left || key == Key::Char(',') {
            self.adjust(false);
            Action::Nothing
        } else if key == Key::Right || key == Key::Char('.') {
            self.adjust(true);
            Action::Nothing
        } else if key == Key::Char('p') && self.tab == Tab::Buttons {
            if evdev_available {
                Action::GrabEvdev
            } else {
                self.set_error(String::from_str("No evdev device available for button detection"));
                Action::Nothing
            }
        } else if key == Key::Char('c') && self.tab == Tab::Leds {
            let led = self.profiles[self.active_profile as usize].leds[self.cursor];
            let mut s = String::new();
            push_hex_byte(&mut s, led.r);
            push_hex_byte(&mut s, led.g);
            push_hex_byte(&mut s, led.b);
            self.input_buf = s;
            self.mode = Mode::EditingLedColor { zone: self.cursor };
            Action::Nothing
        } else if key == Key::Char('b') && self.tab == Tab::Leds {
            self.cycle_led_brightness(self.cursor);
            Action::Nothing
        } else if key == Key::Char('s') {
            Action::SaveConfig
        } else if key == Key::Char('a') {
            Action::ApplyToDevice
        } else {
            Action::Nothing
        }
    }

    fn handle_editing_binding(&mut self, key: Key, slot: usize)
        requires
            editing_binding_safe(old(self)@, key, slot),
        ensures
            final(self)@ == editing_binding_step(old(self)@, key, slot),
    {
        let actions = binding_action_list();
        if key == Key::Esc {
            self.mode = Mode::Normal;
        } else if key == Key::Up || key == Key::Char('k') {
            if self.binding_cursor > 0 {
                self.binding_cursor = self.binding_cursor - 1;
            }
        } else if key == Key::Down || key == Key::Char('j') {
            if self.binding_cursor < actions.len() - 1 {
                self.binding_cursor = self.binding_cursor + 1;
            }
        } else if key == Key::Enter {
            if self.binding_cursor < actions.len() {
                let (name, binding) = actions[self.binding_cursor];
                let i = self.active_profile as usize;
                let ghost ps = self.profiles@;
                let mut p = self.profiles.remove(i);
                p.buttons.set(slot, binding);
                self.profiles.insert(i, p);
                proof {
                    lemma_replace_profile(ps, i as int, p);
                    assert(p@ =~= (ProfileView { buttons: ps[i as int]@.buttons.update(slot as int, binding), ..ps[i as int]@ }));
                }
                self.mark_dirty();
                self.mode = Mode::Normal;
                let mut s = String::from_str("Set button ");
                push_decimal(&mut s, slot);
                s.append(" to ");
                s.append(name);
                self.set_status(s);
            }
        }
    }

    fn handle_editing_dpi(&mut self, key: Key, preset: usize)
        requires
            editing_dpi_safe(old(self)@, key, preset),
        ensures
            final(self)@ == editing_dpi_step(old(self)@, key, preset),
    {
        if key == Key::Esc {
            self.mode = Mode::Normal;
            self.input_buf = String::new();
        } else if key == Key::Enter {
            let bytes = self.input_buf.as_str().as_bytes();
            proof {
                assert(bytes@.subrange(0, bytes@.len() as int) =~= input_bytes(self@));
            }
            match parse_radix(bytes, 0, bytes.len(), 10, 65535) {
                Some(v) => {
                    let typed = v as u16;
                    let min = self.desc.dpi_min;
                    let max = self.desc.dpi_max;
                    let step = self.desc.dpi_step;
                    let clamped = if typed < min { min } else if typed > max { max } else { typed };
                    assert((clamped / step) * step <= clamped) by (nonlinear_arith)
                        requires step > 0;
                    let down = (clamped / step) * step;
                    let rounded = if down < min { min } else { down };
                    let i = self.active_profile as usize;
                    let ghost ps = self.profiles@;
                    let mut p = self.profiles.remove(i);
                    p.settings.dpi_presets.set(preset, rounded);
                    self.profiles.insert(i, p);
                    proof {
                        lemma_replace_profile(ps, i as int, p);
                        assert(p@ =~= (ProfileView { dpi_presets: ps[i as int]@.dpi_presets.update(preset as int, rounded), ..ps[i as int]@ }));
                    }
                    self.mark_dirty();
                    let mut s = String::from_str("DPI preset ");
                    push_decimal(&mut s, preset + 1);
                    s.append(" set to ");
                    push_decimal(&mut s, rounded as usize);
                    self.set_status(s);
                },
                None => {
                    self.set_error(String::from_str("Invalid DPI value"));
                },
            }
            self.mode = Mode::Normal;
            self.input_buf = String::new();
        } else if key == Key::Backspace {
            pop_char(&mut self.input_buf);
        } else if let Key::Char(c) = key {
            if '0' <= c && c <= '9' {
                if self.input_buf.as_str().as_bytes().len() < 5 {
                    push_char(&mut self.input_buf, c);
                }
            }
        }
    }

    fn handle_editing_led_color(&mut self, key: Key, zone: usize)
        requires
            editing_color_safe(old(self)@, key, zone),
        ensures
            final(self)@ == editing_color_step(old(self)@, key, zone),
    {
        if key == Key::Esc {
            self.mode = Mode::Normal;
            self.input_buf = String::new();
        } else if key == Key::Enter {
            let bytes = self.input_buf.as_str().as_bytes();
            if bytes.len() == 6 {
                let r = parse_radix(bytes, 0, 2, 16, 255);
                let g = parse_radix(bytes, 2, 4, 16, 255);
                let b = parse_radix(bytes, 4, 6, 16, 255);
                match (r, g, b) {
                    (Some(r), Some(g), Some(b)) => {
                        let i = self.active_profile as usize;
                        let ghost ps = self.profiles@;
                        let mut p = self.profiles.remove(i);
                        let mut l = p.leds[zone];
                        l.r = r as u8;
                        l.g = g as u8;
                        l.b = b as u8;
                        p.leds.set(zone, l);
                        self.profiles.insert(i, p);
                        proof {
                            lemma_replace_profile(ps, i as int, p);
                            assert(p@ =~= (ProfileView { leds: ps[i as int]@.leds.update(zone as int, l), ..ps[i as int]@ }));
                        }
                        self.mark_dirty();
                        let mut s = String::from_str("LED zone ");
                        push_decimal(&mut s, zone);
                        s.append(" color set to #");
                        s.append(self.input_buf.as_str());
                        self.set_status(s);
                    },
                    _ => {
                        self.set_error(String::from_str("Invalid hex color"));
                    },
                }
            } else {
                self.set_error(String::from_str("Color must be 6 hex digits (e.g. ff8800)"));
            }
            self.mode = Mode::Normal;
            self.input_buf = String::new();
        } else if key == Key::Backspace {
            pop_char(&mut self.input_buf);
        } else if let Key::Char(c) = key {
            if ('0' <= c && c <= '9') || ('a' <= c && c <= 'f') || ('A' <= c && c <= 'F') {
                if self.input_buf.as_str().as_bytes().len() < 6 {
                    push_char(&mut self.input_buf, c);
                }
            }
        }
    }

    fn handle_waiting_for_button(&mut self, key: Key) -> (r: Action)
        ensures
            final(self)@ == waiting_step(old(self)@, key).0,
            r == waiting_step(old(self)@, key).1,
    {
        if key == Key::Esc {
            self.mode = Mode::Normal;
            self.set_status(String::from_str("Button select cancelled"));
            Action::UngrabEvdev
        } else {
            Action::Nothing
        }
    }

    /// Answers a key press: updates the state as `key_step` says and returns what the
    /// caller should do. `evdev_available` tells whether a mouse event device was found.
    pub fn handle_key(&mut self, key: Key, evdev_available: bool) -> (r: Action)
        requires
            key_safe(old(self)@, key),
        ensures
            final(self)@ == key_step(old(self)@, key, evdev_available).0,
            r == key_step(old(self)@, key, evdev_available).1,
    {
        match self.mode {
            Mode::Normal => self.handle_normal(key, evdev_available),
            Mode::EditingBinding { slot } => {
                self.handle_editing_binding(key, slot);
                Action::Nothing
            },
            Mode::EditingDpi { preset } => {
                self.handle_editing_dpi(key, preset);
                Action::Nothing
            },
            Mode::EditingLedColor { zone } => {
                self.handle_editing_led_color(key, zone);
                Action::Nothing
            },
            Mode::WaitingForButton => self.handle_waiting_for_button(key),
        }
    }
}


// --- Outcomes reported by the caller ---

/// What answering the outcome of an attempt to grab the mouse does.
pub open spec fn grab_result_step(a: AppView, result: Result<(), Seq<char>>) -> AppView {
    match result {
        Ok(()) => with_status(AppView { mode: Mode::WaitingForButton, ..a }, "Press a mouse button... [Esc] cancel"@, false),
        Err(e) => with_status(a, "Failed to grab mouse: "@ + e, true),
    }
}

/// What a poll of the mouse's event device does while waiting for a button: a press of a
/// configurable button opens its binding editor, any other press or a failure returns to
/// normal mode with an error; either way the grab is released. Outside that mode, or when
/// nothing was pressed, nothing changes.
pub open spec fn button_poll_step(a: AppView, result: Result<Option<ButtonCode>, Seq<char>>) -> (AppView, Action) {
    if a.mode != Mode::WaitingForButton {
        (a, Action::Nothing)
    } else {
        match result {
            Ok(Some(code)) => (
                match first_index_of(a.desc.button_slots, code) {
                    Some(slot) => AppView {
                        cursor: slot as usize,
                        mode: Mode::EditingBinding { slot: slot as usize },
                        binding_cursor: 0,
                        ..a
                    },
                    None => with_status(AppView { mode: Mode::Normal, ..a }, "Button not mappable to a configurable slot"@, true),
                },
                Action::UngrabEvdev,
            ),
            Ok(None) => (a, Action::Nothing),
            Err(e) => (with_status(AppView { mode: Mode::Normal, ..a }, "evdev error: "@ + e, true), Action::UngrabEvdev),
        }
    }
}

/// What the outcome of saving the config file to `path` does.
pub open spec fn save_result_step(a: AppView, result: Result<(), Seq<char>>, path: Seq<char>) -> AppView {
    match result {
        Ok(()) => with_status(AppView { dirty: Seq::new(a.dirty.len(), |i: int| false), ..a }, "Config saved to "@ + path, false),
        Err(e) => with_status(a, "Save failed: "@ + e, true),
    }
}

/// What the outcome of writing the modified profiles to the device does.
pub open spec fn apply_result_step(a: AppView, result: Result<(), Seq<char>>) -> AppView {
    match result {
        Ok(()) => with_status(a, "Applied to device and saved to flash"@, false),
        Err(e) => with_status(a, "Apply failed: "@ + e, true),
    }
}

pub open spec fn result_view(r: Result<(), String>) -> Result<(), Seq<char>> {
    match r {
        Ok(()) => Ok(()),
        Err(e) => Err(e@),
    }
}

pub open spec fn poll_view(r: Result<Option<ButtonCode>, String>) -> Result<Option<ButtonCode>, Seq<char>> {
    match r {
        Ok(c) => Ok(c),
        Err(e) => Err(e@),
    }
}

/// The positions of the modified profiles among the first `n`, in increasing order.
pub open spec fn dirty_indices(dirty: Seq<bool>, n: int) -> Seq<usize>
    decreases n,
{
    if n <= 0 {
        Seq::empty()
    } else if dirty[n - 1] {
        dirty_indices(dirty, n - 1).push((n - 1) as usize)
    } else {
        dirty_indices(dirty, n - 1)
    }
}


impl App {
    fn active_is_ok(&self) -> (r: bool)
        ensures
            r == active_ok(self@),
    {
        (self.active_profile as usize) < self.profiles.len() && (self.active_profile as usize) < self.dirty.len()
    }

    /// Whether `handle_key` may be called with `key`: false where answering it would
    /// index past a list or overflow.
    pub fn key_is_safe(&self, key: Key) -> (r: bool)
        ensures
            r == key_safe(self@, key),
    {
        let a_ok = self.active_is_ok();
        match self.mode {
            Mode::Normal => {
                if key == Key::Enter {
                    match self.tab {
                        Tab::Buttons => true,
                        Tab::Dpi => a_ok && self.cursor < self.profiles[self.active_profile as usize].settings.dpi_presets.len(),
                        Tab::Leds => a_ok && self.cursor < self.profiles[self.active_profile as usize].leds.len(),
                        Tab::Settings => self.cursor > 2 || a_ok,
                    }
                } else if key == Key::Left || key == Key::Char(',') || key == Key::Right || key == Key::Char('.') {
                    if self.tab == Tab::Dpi {
                        a_ok && self.cursor < self.profiles[self.active_profile as usize].settings.dpi_presets.len()
                            && self.desc.dpi_min <= self.desc.dpi_max
                    } else if self.tab == Tab::Settings && (self.cursor == 0 || self.cursor == 1) {
                        a_ok
                    } else if self.tab == Tab::Leds {
                        a_ok && self.cursor < self.profiles[self.active_profile as usize].leds.len()
                    } else {
                        true
                    }
                } else if key == Key::Char('c') && self.tab == Tab::Leds {
                    a_ok && self.cursor < self.profiles[self.active_profile as usize].leds.len()
                } else if key == Key::Char('b') && self.tab == Tab::Leds {
                    a_ok && self.cursor < self.profiles[self.active_profile as usize].leds.len()
                } else {
                    true
                }
            },
            Mode::EditingBinding { slot } => {
                if key == Key::Enter && self.binding_cursor < 38 {
                    a_ok && slot < self.profiles[self.active_profile as usize].buttons.len()
                } else {
                    true
                }
            },
            Mode::EditingDpi { preset } => {
                let bytes = self.input_buf.as_str().as_bytes();
                proof {
                    assert(bytes@.subrange(0, bytes@.len() as int) =~= input_bytes(self@));
                }
                if key == Key::Enter && parse_radix(bytes, 0, bytes.len(), 10, 65535).is_some() {
                    self.desc.dpi_min <= self.desc.dpi_max && self.desc.dpi_step != 0 && a_ok
                        && preset < self.profiles[self.active_profile as usize].settings.dpi_presets.len()
                        && preset < usize::MAX
                } else {
                    true
                }
            },
            Mode::EditingLedColor { zone } => {
                let bytes = self.input_buf.as_str().as_bytes();
                if key == Key::Enter && bytes.len() == 6 {
                    let boundaries = !(128 <= bytes[2] && bytes[2] < 192) && !(128 <= bytes[4] && bytes[4] < 192);
                    let color = parse_radix(bytes, 0, 2, 16, 255).is_some() && parse_radix(bytes, 2, 4, 16, 255).is_some()
                        && parse_radix(bytes, 4, 6, 16, 255).is_some();
                    boundaries && (!color || (a_ok && zone < self.profiles[self.active_profile as usize].leds.len()))
                } else {
                    true
                }
            },
            Mode::WaitingForButton => true,
        }
    }

    /// Whether the configurator waits for a press of a mouse button.
    pub fn is_waiting_for_button(&self) -> (r: bool)
        ensures
            r == (self@.mode == Mode::WaitingForButton),
    {
        self.mode == Mode::WaitingForButton
    }

    /// Answers the outcome of grabbing the mouse (asked for by `Action::GrabEvdev`).
    pub fn on_grab_result(&mut self, result: Result<(), String>)
        ensures
            final(self)@ == grab_result_step(old(self)@, result_view(result)),
    {
        match result {
            Ok(()) => {
                self.mode = Mode::WaitingForButton;
                self.set_status(String::from_str("Press a mouse button... [Esc] cancel"));
            },
            Err(e) => {
                let mut s = String::from_str("Failed to grab mouse: ");
                s.append(e.as_str());
                self.set_error(s);
            },
        }
    }

    /// Answers a poll of the mouse's event device: the first button pressed, if any, or
    /// the failure's message.
    pub fn on_button_poll(&mut self, result: Result<Option<ButtonCode>, String>) -> (r: Action)
        ensures
            final(self)@ == button_poll_step(old(self)@, poll_view(result)).0,
            r == button_poll_step(old(self)@, poll_view(result)).1,
    {
        if self.mode != Mode::WaitingForButton {
            return Action::Nothing;
        }
        match result {
            Ok(Some(code)) => {
                match button_code_to_slot(&self.desc, code) {
                    Some(slot) => {
                        self.cursor = slot;
                        self.mode = Mode::EditingBinding { slot };
                        self.binding_cursor = 0;
                    },
                    None => {
                        self.mode = Mode::Normal;
                        self.set_error(String::from_str("Button not mappable to a configurable slot"));
                    },
                }
                Action::UngrabEvdev
            },
            Ok(None) => Action::Nothing,
            Err(e) => {
                self.mode = Mode::Normal;
                let mut s = String::from_str("evdev error: ");
                s.append(e.as_str());
                self.set_error(s);
                Action::UngrabEvdev
            },
        }
    }

    /// Answers the outcome of saving the config file (asked for by `Action::SaveConfig`);
    /// `path` is shown in the message.
    pub fn on_save_result(&mut self, result: Result<(), String>, path: &str)
        ensures
            final(self)@ == save_result_step(old(self)@, result_view(result), path@),
    {
        match result {
            Ok(()) => {
                let n = self.dirty.len();
                let mut cleared: Vec<bool> = Vec::new();
                let mut i: usize = 0;
                while i < n
                    invariant
                        i <= n,
                        cleared@ == Seq::new(i as nat, |k: int| false),
                    decreases n - i,
                {
                    cleared.push(false);
                    i = i + 1;
                    assert(cleared@ =~= Seq::new(i as nat, |k: int| false));
                }
                self.dirty = cleared;
                let mut s = String::from_str("Config saved to ");
                s.append(path);
                self.set_status(s);
            },
            Err(e) => {
                let mut s = String::from_str("Save failed: ");
                s.append(e.as_str());
                self.set_error(s);
            },
        }
    }

    /// Answers the outcome of writing the modified profiles to the device (asked for by
    /// `Action::ApplyToDevice`).
    pub fn on_apply_result(&mut self, result: Result<(), String>)
        ensures
            final(self)@ == apply_result_step(old(self)@, result_view(result)),
    {
        match result {
            Ok(()) => self.set_status(String::from_str("Applied to device and saved to flash")),
            Err(e) => {
                let mut s = String::from_str("Apply failed: ");
                s.append(e.as_str());
                self.set_error(s);
            },
        }
    }

    /// The positions of the modified profiles, in the order in which they are written to
    /// the device.
    pub fn profiles_to_apply(&self) -> (r: Vec<usize>)
        requires
            self@.profiles.len() <= self@.dirty.len(),
        ensures
            r@ == dirty_indices(self@.dirty, self@.profiles.len() as int),
    {
        let mut r: Vec<usize> = Vec::new();
        let n = self.profiles.len();
        let mut i: usize = 0;
        while i < n
            invariant
                n == self@.profiles.len(),
                n <= self@.dirty.len(),
                i <= n,
                r@ == dirty_indices(self@.dirty, i as int),
            decreases n - i,
        {
            if self.dirty[i] {
                r.push(i);
            }
            i = i + 1;
        }
        r
    }

    /// Marks profile `i` as written to the device.
    pub fn mark_clean(&mut self, i: usize)
        requires
            i < old(self)@.dirty.len(),
        ensures
            final(self)@ == (AppView { dirty: old(self)@.dirty.update(i as int, false), ..old(self)@ }),
    {
        self.dirty.set(i, false);
    }

    /// The config file that saving writes: the active profile's number and every profile
    /// under its number.
    pub fn build_config(&self) -> (r: Config)
        requires
            self@.active_profile < 255,
        ensures
            r.active_profile == Some((self@.active_profile + 1) as u8),
            r.profile@ == assoc_map(profile_number_keys(), profile_configs(self@.profiles, self@.desc)),
    {
        let mut cfg = Config { active_profile: Some(self.active_profile + 1), profile: NameMap::new() };
        store_profiles(&mut cfg, &self.profiles, &self.desc);
        assert(cfg.profile@ =~= assoc_map(profile_number_keys(), profile_configs(self@.profiles, self@.desc)));
        cfg
    }
}


// --- Laws of the configurator ---

/// With unsaved changes, the first `q` in normal mode does not quit but asks for
/// confirmation, and a second `q` quits; without unsaved changes the first `q` quits.
pub proof fn lemma_quit_warns_on_unsaved(a: AppView, evdev_available: bool)
    requires
        a.mode == Mode::Normal,
        !a.confirm_quit,
        !a.should_quit,
    ensures
        any_dirty(a) ==> {
            let b = key_step(a, Key::Char('q'), evdev_available).0;
            &&& !b.should_quit
            &&& b.confirm_quit
            &&& b.status == Some(StatusView { text: quit_warning_text(), is_error: false })
            &&& key_step(b, Key::Char('q'), evdev_available).0.should_quit
        },
        !any_dirty(a) ==> key_step(a, Key::Char('q'), evdev_available).0.should_quit,
{
    let b = key_step(a, Key::Char('q'), evdev_available).0;
    if any_dirty(a) {
        let i = choose|i: int| 0 <= i < a.dirty.len() && a.dirty[i];
        assert(b.dirty == a.dirty);
        assert(0 <= i < b.dirty.len() && b.dirty[i]);
    }
}

/// Stepping a DPI preset left or right keeps it within the device's DPI range.
pub proof fn lemma_adjust_dpi_in_range(a: AppView, evdev_available: bool, forward: bool)
    requires
        a.mode == Mode::Normal,
        a.tab == Tab::Dpi,
        adjust_dpi_safe(a, a.cursor as int),
    ensures
        ({
            let key = if forward { Key::Right } else { Key::Left };
            let b = key_step(a, key, evdev_available).0;
            let v = cur(b).dpi_presets[a.cursor as int];
            a.desc.dpi_min <= v <= a.desc.dpi_max
        }),
{
}

/// Cycling the polling rate or the debounce time always lands on a value the devices
/// accept, whatever the current value is.
pub proof fn lemma_cycle_settings_accepted(a: AppView, forward: bool)
    requires
        active_ok(a),
    ensures
        polling_rate_table().contains(cur(cycle_polling_rate_spec(a, forward)).polling_rate),
        debounce_table().contains(cur(cycle_debounce_spec(a, forward)).debounce_ms),
{
    lemma_first_index_of(polling_rate_table(), cur(a).polling_rate);
    lemma_first_index_of(debounce_table(), cur(a).debounce_ms);
    let pi = match first_index_of(polling_rate_table(), cur(a).polling_rate) { Some(i) => i, None => 3 };
    let di = match first_index_of(debounce_table(), cur(a).debounce_ms) { Some(i) => i, None => 1 };
    let pj = cycled_index(pi, 4, forward);
    let dj = cycled_index(di, 8, forward);
    assert(polling_rate_table()[pj] == cur(cycle_polling_rate_spec(a, forward)).polling_rate);
    assert(debounce_table()[dj] == cur(cycle_debounce_spec(a, forward)).debounce_ms);
}

/// A typed DPI value that is accepted is stored within the device's DPI range.
pub proof fn lemma_typed_dpi_in_range(d: DescriptorView, dpi: u16)
    requires
        d.dpi_min <= d.dpi_max,
        d.dpi_step > 0,
    ensures
        d.dpi_min <= rounded_dpi(d, dpi) <= d.dpi_max,
{
    let clamped = clamp_int(dpi as int, d.dpi_min as int, d.dpi_max as int);
    let step = d.dpi_step as int;
    assert((clamped / step) * step <= clamped) by (nonlinear_arith)
        requires step > 0, clamped >= 0;
    assert((clamped / step) * step >= 0) by (nonlinear_arith)
        requires step > 0, clamped >= 0;
}

/// After a successful save no profile is marked as modified.
pub proof fn lemma_save_clears_modified(a: AppView, path: Seq<char>)
    ensures
        !any_dirty(save_result_step(a, Ok(()), path)),
{
}

/// Esc while typing a DPI value or a color leaves the profiles and their modified flags
/// as they were, returns to normal mode and discards what was typed.
pub proof fn lemma_esc_discards_typing(a: AppView, evdev_available: bool)
    requires
        a.mode is EditingDpi || a.mode is EditingLedColor,
    ensures
        ({
            let b = key_step(a, Key::Esc, evdev_available).0;
            &&& b.mode == Mode::Normal
            &&& b.input_buf.len() == 0
            &&& b.profiles == a.profiles
            &&& b.dirty == a.dirty
        }),
{
}


/// What saving writes is what applying the file writes back: the config that saving
/// stores under the number of profile `i` (counted from 1) converts back to profile `i`,
/// for a profile that the device can hold.
pub proof fn lemma_saved_profile_applies_back(a: AppView, i: int)
    requires
        0 <= i < a.profiles.len(),
        profile_fits(a.profiles[i], a.desc),
    ensures
        ({
            let saved = assoc_map(profile_number_keys(), profile_configs(a.profiles, a.desc));
            let key = decimal_chars((i + 1) as nat);
            &&& saved.contains_key(key)
            &&& config_sliceable(saved[key], a.desc)
            &&& config_to_profile_spec(saved[key], a.desc) == Ok::<ProfileView, ConfigErrorView>(a.profiles[i])
        }),
{
    let cs = profile_configs(a.profiles, a.desc);
    assert forall|x: int, y: int| 0 <= x < y < cs.len() implies #[trigger] profile_number_keys()(x) != #[trigger] profile_number_keys()(y) by {
        if profile_number_keys()(x) == profile_number_keys()(y) {
            lemma_decimal_chars_injective((x + 1) as nat, (y + 1) as nat);
        }
    }
    lemma_assoc_map_lookup(profile_number_keys(), cs, i);
    lemma_profile_config_roundtrip(a.profiles[i], a.desc);
}


/// Answering a key keeps the device description, the number of profiles and of modified
/// flags, never clears a modified flag, and marks as modified every profile that it
/// changes.
pub proof fn lemma_key_marks_changes(a: AppView, key: Key, evdev_available: bool)
    requires
        key_safe(a, key),
    ensures
        ({
            let b = key_step(a, key, evdev_available).0;
            &&& b.desc == a.desc
            &&& b.profiles.len() == a.profiles.len()
            &&& b.dirty.len() == a.dirty.len()
            &&& forall|i: int| 0 <= i < a.dirty.len() && a.dirty[i] ==> b.dirty[i]
            &&& forall|i: int| 0 <= i < a.profiles.len() && b.profiles[i] != a.profiles[i] ==> i < b.dirty.len() && b.dirty[i]
        }),
{
}


/// A cursor on one of the current tab's rows stays on one after any key.
pub proof fn lemma_cursor_stays_on_rows(a: AppView, key: Key, evdev_available: bool)
    requires
        a.cursor <= max_cursor_spec(a),
    ensures
        key_step(a, key, evdev_available).0.cursor <= max_cursor_spec(key_step(a, key, evdev_available).0),
{
}


/// Every key keeps the active profile among the profiles held, with its modified flag,
/// and the cursor on one of the current tab's rows: a digit key selects only a profile
/// that is held.
pub proof fn lemma_keys_keep_active_profile(a: AppView, key: Key, evdev_available: bool)
    requires
        active_ok(a),
        a.profiles.len() == a.dirty.len(),
        a.cursor <= max_cursor_spec(a),
    ensures
        ({
            let b = key_step(a, key, evdev_available).0;
            &&& active_ok(b)
            &&& b.profiles.len() == b.dirty.len()
            &&& b.cursor <= max_cursor_spec(b)
        }),
{
    lemma_cursor_stays_on_rows(a, key, evdev_available);
    let b = key_step(a, key, evdev_available).0;
    match a.mode {
        Mode::Normal => {
            if key matches Key::Char(c) && is_digit_1_9(c) {
                assert(active_ok(b));
            } else {
                assert(b.active_profile == a.active_profile);
            }
        },
        _ => {
            assert(b.active_profile == a.active_profile);
        },
    }
}

/// In normal mode, any key but `q` withdraws a pending quit confirmation and does not quit.
pub proof fn lemma_other_keys_cancel_quit(a: AppView, key: Key, evdev_available: bool)
    requires
        a.mode == Mode::Normal,
        key != Key::Char('q'),
    ensures
        !key_step(a, key, evdev_available).0.confirm_quit,
        !key_step(a, key, evdev_available).0.should_quit || a.should_quit,
{
}

/// `b` on the LEDs tab steps the cursor's zone one brightness up, and back to 0 after the
/// device's limit, whatever the limit (255 included); it marks the profile as modified.
pub proof fn lemma_brightness_cycles(a: AppView, evdev_available: bool)
    requires
        a.mode == Mode::Normal,
        a.tab == Tab::Leds,
        led_safe(a, a.cursor as int),
        cur(a).leds[a.cursor as int].brightness <= a.desc.brightness_max,
    ensures
        ({
            let b = key_step(a, Key::Char('b'), evdev_available).0;
            let old_level = cur(a).leds[a.cursor as int].brightness;
            &&& cur(b).leds[a.cursor as int].brightness == if old_level < a.desc.brightness_max { old_level + 1 } else { 0 }
            &&& b.dirty[a.active_profile as int]
        }),
{
    let level = cur(a).leds[a.cursor as int].brightness as int;
    let m = a.desc.brightness_max as int + 1;
    if level + 1 < m {
        assert((level + 1) % m == level + 1) by (nonlinear_arith)
            requires 0 <= level + 1 < m;
    } else {
        assert((level + 1) % m == 0) by (nonlinear_arith)
            requires level + 1 == m, m > 0;
    }
}

} // verus!
