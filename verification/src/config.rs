//! The config-file model of a profile, and the conversions between it and the
//! device's view of a profile: button bindings as names, LED colors as hex,
//! DPI presets as numbered keys.
use vstd::prelude::*;
use crate::devices::{
    deathadder_v2_view, scimitar_rgb_elite_view, spatha_x_view, DescriptorView, DeviceDescriptor,
    ProtocolKind,
};
use crate::namemap::NameMap;
use crate::text::{
    decimal_chars, has_prefix, hex_byte_chars, parse_radix, push_decimal, push_hex_byte,
    radix_value, starts_with,
};
use crate::types::{
    button_code_byte, button_code_from_byte, button_code_from_name, button_code_name,
    lemma_button_code_byte_roundtrip, debounce_index, debounce_table, hid_key_from_name, hid_key_name,
    hid_keycode_to_name, led_mode_from_name, led_mode_name, name_to_hid_keycode,
    polling_rate_index, polling_rate_table, BindingKind, ButtonBinding, ButtonCode, DeviceProfile,
    LedConfig, LedMode, ProfileView, Settings,
};

verus! {

// --- Config types ---

/// One LED zone as the config file holds it.
#[derive(Debug)]
pub struct LedZoneConfig {
    pub mode: String,
    pub brightness: u8,
    pub color: Option<String>,
}

pub struct LedZoneView {
    pub mode: Seq<char>,
    pub brightness: u8,
    pub color: Option<Seq<char>>,
}

impl View for LedZoneConfig {
    type V = LedZoneView;

    open spec fn view(&self) -> LedZoneView {
        LedZoneView {
            mode: self.mode@,
            brightness: self.brightness,
            color: match self.color {
                Some(c) => Some(c@),
                None => None,
            },
        }
    }
}

/// One profile as the config file holds it.
#[derive(Debug)]
pub struct ProfileConfig {
    pub polling_rate: u16,
    pub debounce_ms: u8,
    pub angle_snapping: bool,
    pub dpi: NameMap<u16>,
    pub buttons: NameMap<String>,
    pub leds: NameMap<LedZoneConfig>,
}

pub struct ProfileConfigView {
    pub polling_rate: u16,
    pub debounce_ms: u8,
    pub angle_snapping: bool,
    pub dpi: Map<Seq<char>, u16>,
    pub buttons: Map<Seq<char>, Seq<char>>,
    pub leds: Map<Seq<char>, LedZoneView>,
}

impl View for ProfileConfig {
    type V = ProfileConfigView;

    open spec fn view(&self) -> ProfileConfigView {
        ProfileConfigView {
            polling_rate: self.polling_rate,
            debounce_ms: self.debounce_ms,
            angle_snapping: self.angle_snapping,
            dpi: self.dpi@,
            buttons: self.buttons@,
            leds: self.leds@,
        }
    }
}

/// The whole config file: the active profile and the profiles by number.
#[derive(Debug)]
pub struct Config {
    pub active_profile: Option<u8>,
    pub profile: NameMap<ProfileConfig>,
}

// --- Errors ---

/// Why a binding string was refused.
#[derive(Debug)]
pub enum BindingError {
    /// `key:<name>` with a name that is not in the keycode table.
    UnknownKey(String),
    /// Neither a mouse action name nor `key:<name>`.
    UnknownBinding(String),
}

pub enum BindingErrorView {
    UnknownKey(Seq<char>),
    UnknownBinding(Seq<char>),
}

impl View for BindingError {
    type V = BindingErrorView;

    open spec fn view(&self) -> BindingErrorView {
        match self {
            BindingError::UnknownKey(s) => BindingErrorView::UnknownKey(s@),
            BindingError::UnknownBinding(s) => BindingErrorView::UnknownBinding(s@),
        }
    }
}

/// Why a color string was refused.
#[derive(Debug)]
pub enum ColorError {
    /// Not six bytes once a leading `#` is removed; holds what remained.
    WrongLength(String),
    /// A pair of bytes that is not a hexadecimal number.
    InvalidDigit,
}

pub enum ColorErrorView {
    WrongLength(Seq<char>),
    InvalidDigit,
}

impl View for ColorError {
    type V = ColorErrorView;

    open spec fn view(&self) -> ColorErrorView {
        match self {
            ColorError::WrongLength(s) => ColorErrorView::WrongLength(s@),
            ColorError::InvalidDigit => ColorErrorView::InvalidDigit,
        }
    }
}

/// Why a profile in the config file cannot be applied to a device.
#[derive(Debug)]
pub enum ConfigError {
    MissingButton(String),
    InvalidBinding { button: String, cause: BindingError },
    MissingDpi(String),
    DpiOutOfRange { key: String, dpi: u16, min: u16, max: u16 },
    InvalidPollingRate(u16),
    InvalidDebounce(u8),
    MissingLedZone(String),
    UnknownLedMode { mode: String, zone: String },
    InvalidColor { color: String, zone: String, cause: ColorError },
    BrightnessTooHigh { zone: String, brightness: u8, max: u8 },
}

pub enum ConfigErrorView {
    MissingButton(Seq<char>),
    InvalidBinding { button: Seq<char>, cause: BindingErrorView },
    MissingDpi(Seq<char>),
    DpiOutOfRange { key: Seq<char>, dpi: u16, min: u16, max: u16 },
    InvalidPollingRate(u16),
    InvalidDebounce(u8),
    MissingLedZone(Seq<char>),
    UnknownLedMode { mode: Seq<char>, zone: Seq<char> },
    InvalidColor { color: Seq<char>, zone: Seq<char>, cause: ColorErrorView },
    BrightnessTooHigh { zone: Seq<char>, brightness: u8, max: u8 },
}

impl View for ConfigError {
    type V = ConfigErrorView;

    open spec fn view(&self) -> ConfigErrorView {
        match self {
            ConfigError::MissingButton(s) => ConfigErrorView::MissingButton(s@),
            ConfigError::InvalidBinding { button, cause } => ConfigErrorView::InvalidBinding {
                button: button@,
                cause: cause@,
            },
            ConfigError::MissingDpi(s) => ConfigErrorView::MissingDpi(s@),
            ConfigError::DpiOutOfRange { key, dpi, min, max } => ConfigErrorView::DpiOutOfRange {
                key: key@,
                dpi: *dpi,
                min: *min,
                max: *max,
            },
            ConfigError::InvalidPollingRate(r) => ConfigErrorView::InvalidPollingRate(*r),
            ConfigError::InvalidDebounce(d) => ConfigErrorView::InvalidDebounce(*d),
            ConfigError::MissingLedZone(s) => ConfigErrorView::MissingLedZone(s@),
            ConfigError::UnknownLedMode { mode, zone } => ConfigErrorView::UnknownLedMode {
                mode: mode@,
                zone: zone@,
            },
            ConfigError::InvalidColor { color, zone, cause } => ConfigErrorView::InvalidColor {
                color: color@,
                zone: zone@,
                cause: cause@,
            },
            ConfigError::BrightnessTooHigh { zone, brightness, max } => ConfigErrorView::BrightnessTooHigh {
                zone: zone@,
                brightness: *brightness,
                max: *max,
            },
        }
    }
}

pub open spec fn binding_result_view(r: Result<ButtonBinding, BindingError>) -> Result<ButtonBinding, BindingErrorView> {
    match r {
        Ok(b) => Ok(b),
        Err(e) => Err(e@),
    }
}

pub open spec fn color_result_view(r: Result<(u8, u8, u8), ColorError>) -> Result<(u8, u8, u8), ColorErrorView> {
    match r {
        Ok(c) => Ok(c),
        Err(e) => Err(e@),
    }
}

pub open spec fn led_result_view(r: Result<LedConfig, ConfigError>) -> Result<LedConfig, ConfigErrorView> {
    match r {
        Ok(l) => Ok(l),
        Err(e) => Err(e@),
    }
}

pub open spec fn profile_result_view(r: Result<DeviceProfile, ConfigError>) -> Result<ProfileView, ConfigErrorView> {
    match r {
        Ok(p) => Ok(p@),
        Err(e) => Err(e@),
    }
}

// --- Button binding serialization ---

/// The text of a binding: a mouse action's name, `key:<name>`, or the raw code in hex.
pub open spec fn format_binding_spec(b: ButtonBinding) -> Seq<char> {
    if b.kind == BindingKind::Mouse {
        match button_code_from_byte(b.action_code) {
            Some(c) => button_code_name(c),
            None => "mouse:0x"@ + hex_byte_chars(b.action_code),
        }
    } else {
        match hid_key_name(b.action_code) {
            Some(n) => "key:"@ + n,
            None => "key:0x"@ + hex_byte_chars(b.action_code),
        }
    }
}

/// What a binding text stands for.
pub open spec fn parse_binding_spec(s: Seq<char>) -> Result<ButtonBinding, BindingErrorView> {
    if has_prefix(s, "key:"@) {
        let rest = s.skip(4);
        match hid_key_from_name(rest) {
            Some(k) => Ok(ButtonBinding { action_code: k, kind: BindingKind::Keyboard }),
            None => Err(BindingErrorView::UnknownKey(rest)),
        }
    } else {
        match button_code_from_name(s) {
            Some(c) => Ok(ButtonBinding { action_code: button_code_byte(c), kind: BindingKind::Mouse }),
            None => Err(BindingErrorView::UnknownBinding(s)),
        }
    }
}

pub fn format_binding(binding: &ButtonBinding) -> (r: String)
    ensures
        r@ == format_binding_spec(*binding),
{
    if binding.kind == BindingKind::Mouse {
        match ButtonCode::from_u8(binding.action_code) {
            Some(c) => String::from_str(c.name()),
            None => {
                let mut s = String::from_str("mouse:0x");
                push_hex_byte(&mut s, binding.action_code);
                s
            },
        }
    } else {
        match hid_keycode_to_name(binding.action_code) {
            Some(name) => {
                let mut s = String::from_str("key:");
                s.append(name);
                s
            },
            None => {
                let mut s = String::from_str("key:0x");
                push_hex_byte(&mut s, binding.action_code);
                s
            },
        }
    }
}

pub fn parse_binding(s: &str) -> (r: Result<ButtonBinding, BindingError>)
    ensures
        binding_result_view(r) == parse_binding_spec(s@),
{
    if starts_with(s, "key:") {
        proof {
            reveal_strlit("key:");
        }
        let n = s.unicode_len();
        let key_name = s.substring_char(4, n);
        assert(key_name@ =~= s@.skip(4));
        match name_to_hid_keycode(key_name) {
            Some(keycode) => Ok(ButtonBinding::keyboard_key(keycode)),
            None => Err(BindingError::UnknownKey(String::from_str(key_name))),
        }
    } else {
        match ButtonCode::from_name(s) {
            Some(code) => Ok(ButtonBinding::mouse_action(code)),
            None => Err(BindingError::UnknownBinding(String::from_str(s))),
        }
    }
}

/// A binding that has a name: a known mouse action, or a key in the keycode table.
pub open spec fn binding_representable(b: ButtonBinding) -> bool {
    ||| (b.kind == BindingKind::Mouse && button_code_from_byte(b.action_code) is Some)
    ||| (b.kind == BindingKind::Keyboard && hid_key_name(b.action_code) is Some)
}

/// A binding that has a name reads back from its text as itself.
pub proof fn lemma_binding_roundtrip(b: ButtonBinding)
    requires
        binding_representable(b),
    ensures
        parse_binding_spec(format_binding_spec(b)) == Ok::<ButtonBinding, BindingErrorView>(b),
{
    reveal_strlit("key:");
    assert("key:"@.len() == 4 && "key:"@[0] == 'k');
    if b.kind == BindingKind::Mouse {
        let c = button_code_from_byte(b.action_code)->0;
        crate::types::lemma_button_code_byte_roundtrip(c, b.action_code);
        crate::types::lemma_button_code_name_roundtrip(c, button_code_name(c));
        crate::types::lemma_button_code_name_first_char(c);
        let s = button_code_name(c);
        if has_prefix(s, "key:"@) {
            assert(s.subrange(0, 4)[0] == s[0]);
        }
    } else {
        let n = hid_key_name(b.action_code)->0;
        crate::types::lemma_hid_key_name_roundtrip(b.action_code, n);
        let s = "key:"@ + n;
        assert(s.subrange(0, 4) =~= "key:"@);
        assert(s.skip(4) =~= n);
    }
}

// --- LED zones ---

/// The `#rrggbb` text of a color.
pub open spec fn color_chars(r: u8, g: u8, b: u8) -> Seq<char> {
    "#"@ + hex_byte_chars(r) + hex_byte_chars(g) + hex_byte_chars(b)
}

/// The config-file form of an LED zone: black is written as no color at all.
pub open spec fn led_to_config_spec(l: LedConfig) -> LedZoneView {
    LedZoneView {
        mode: led_mode_name(l.mode),
        brightness: l.brightness,
        color: if l.r != 0 || l.g != 0 || l.b != 0 {
            Some(color_chars(l.r, l.g, l.b))
        } else {
            None
        },
    }
}

/// `s` without one leading `#`.
pub open spec fn strip_hash(s: Seq<char>) -> Seq<char> {
    if s.len() > 0 && s[0] == '#' {
        s.drop_first()
    } else {
        s
    }
}

/// A byte that continues a multi-byte UTF-8 character.
pub open spec fn is_continuation_byte(b: u8) -> bool {
    128 <= b < 192
}

/// Whether the three two-byte slices of a color's text fall on character boundaries;
/// slicing a string anywhere else panics.
pub open spec fn hex_color_sliceable(s: Seq<char>) -> bool {
    let t = vstd::utf8::encode_utf8(strip_hash(s));
    t.len() == 6 ==> !is_continuation_byte(t[2]) && !is_continuation_byte(t[4])
}

/// What a color text stands for: six bytes after an optional `#`, read as three
/// radix-16 numbers of two bytes each.
pub open spec fn parse_hex_color_spec(s: Seq<char>) -> Result<(u8, u8, u8), ColorErrorView> {
    let t = vstd::utf8::encode_utf8(strip_hash(s));
    if t.len() != 6 {
        Err(ColorErrorView::WrongLength(strip_hash(s)))
    } else {
        match (
            radix_value(t.subrange(0, 2), 16, 255),
            radix_value(t.subrange(2, 4), 16, 255),
            radix_value(t.subrange(4, 6), 16, 255),
        ) {
            (Some(r), Some(g), Some(b)) => Ok((r as u8, g as u8, b as u8)),
            _ => Err(ColorErrorView::InvalidDigit),
        }
    }
}

/// Whether a color text can be parsed without panicking.
pub fn hex_color_is_sliceable(s: &str) -> (r: bool)
    ensures
        r == hex_color_sliceable(s@),
{
    let n = s.unicode_len();
    let t: &str = if n > 0 && s.get_char(0) == '#' {
        s.substring_char(1, n)
    } else {
        s
    };
    proof {
        assert(t@ =~= strip_hash(s@));
    }
    let b = t.as_bytes();
    if b.len() != 6 {
        return true;
    }
    !(128 <= b[2] && b[2] < 192) && !(128 <= b[4] && b[4] < 192)
}

pub fn parse_hex_color(s: &str) -> (r: Result<(u8, u8, u8), ColorError>)
    requires
        hex_color_sliceable(s@),
    ensures
        color_result_view(r) == parse_hex_color_spec(s@),
{
    let n = s.unicode_len();
    let t: &str = if n > 0 && s.get_char(0) == '#' {
        s.substring_char(1, n)
    } else {
        s
    };
    proof {
        assert(t@ =~= strip_hash(s@));
    }
    let b = t.as_bytes();
    if b.len() != 6 {
        return Err(ColorError::WrongLength(String::from_str(t)));
    }
    let r = parse_radix(b, 0, 2, 16, 255);
    let g = parse_radix(b, 2, 4, 16, 255);
    let bl = parse_radix(b, 4, 6, 16, 255);
    match (r, g, bl) {
        (Some(r), Some(g), Some(bl)) => Ok((r as u8, g as u8, bl as u8)),
        _ => Err(ColorError::InvalidDigit),
    }
}

pub fn led_to_config(led: &LedConfig) -> (r: LedZoneConfig)
    ensures
        r@ == led_to_config_spec(*led),
{
    let color = if led.r != 0 || led.g != 0 || led.b != 0 {
        let mut s = String::from_str("#");
        push_hex_byte(&mut s, led.r);
        push_hex_byte(&mut s, led.g);
        push_hex_byte(&mut s, led.b);
        proof {
            assert(s@ =~= color_chars(led.r, led.g, led.b));
        }
        Some(s)
    } else {
        None
    };
    LedZoneConfig { mode: String::from_str(led.mode.name()), brightness: led.brightness, color }
}

/// What an LED zone of the config file stands for.
pub open spec fn config_to_led_spec(z: LedZoneView, zone: Seq<char>) -> Result<LedConfig, ConfigErrorView> {
    match led_mode_from_name(z.mode) {
        None => Err(ConfigErrorView::UnknownLedMode { mode: z.mode, zone }),
        Some(m) => match z.color {
            None => Ok(LedConfig { mode: m, brightness: z.brightness, r: 0, g: 0, b: 0 }),
            Some(h) => match parse_hex_color_spec(h) {
                Ok((r, g, b)) => Ok(LedConfig { mode: m, brightness: z.brightness, r, g, b }),
                Err(e) => Err(ConfigErrorView::InvalidColor { color: h, zone, cause: e }),
            },
        },
    }
}

/// Whether reading an LED zone would slice its color text safely.
pub open spec fn led_zone_sliceable(z: LedZoneView) -> bool {
    led_mode_from_name(z.mode) is Some ==> (z.color matches Some(h) ==> hex_color_sliceable(h))
}

pub fn config_to_led(config: &LedZoneConfig, zone_name: &str) -> (r: Result<LedConfig, ConfigError>)
    requires
        led_zone_sliceable(config@),
    ensures
        led_result_view(r) == config_to_led_spec(config@, zone_name@),
{
    let mode = match LedMode::from_name(config.mode.as_str()) {
        Some(m) => m,
        None => {
            return Err(ConfigError::UnknownLedMode {
                mode: config.mode.clone(),
                zone: String::from_str(zone_name),
            });
        },
    };
    let (r, g, b) = match &config.color {
        Some(hex) => match parse_hex_color(hex.as_str()) {
            Ok(c) => c,
            Err(e) => {
                return Err(ConfigError::InvalidColor {
                    color: hex.clone(),
                    zone: String::from_str(zone_name),
                    cause: e,
                });
            },
        },
        None => (0, 0, 0),
    };
    Ok(LedConfig { mode, brightness: config.brightness, r, g, b })
}

/// Every byte of a color written by this library is an ASCII hex digit, so it reads back.
pub proof fn lemma_color_roundtrip(r: u8, g: u8, b: u8)
    ensures
        hex_color_sliceable(color_chars(r, g, b)),
        parse_hex_color_spec(color_chars(r, g, b)) == Ok::<(u8, u8, u8), ColorErrorView>((r, g, b)),
{
    reveal_strlit("#");
    let s = color_chars(r, g, b);
    let t = hex_byte_chars(r) + hex_byte_chars(g) + hex_byte_chars(b);
    assert(s[0] == '#');
    assert(strip_hash(s) =~= t);
    lemma_hex_byte_ascii(r);
    lemma_hex_byte_ascii(g);
    lemma_hex_byte_ascii(b);
    assert(vstd::utf8::is_ascii_chars(t));
    vstd::utf8::is_ascii_chars_encode_utf8(t);
    let bytes = vstd::utf8::encode_utf8(t);
    assert(bytes.len() == 6);
    lemma_hex_pair_value(r, bytes.subrange(0, 2));
    lemma_hex_pair_value(g, bytes.subrange(2, 4));
    lemma_hex_pair_value(b, bytes.subrange(4, 6));
}

proof fn lemma_hex_byte_ascii(v: u8)
    ensures
        forall|i: int| 0 <= i < 2 ==> '0' <= #[trigger] hex_byte_chars(v)[i] <= 'f',
        forall|i: int| 0 <= i < 2 ==> (#[trigger] hex_byte_chars(v)[i] as u8) == (if (if i == 0 { v / 16 } else { v % 16 }) < 10 {
            48 + (if i == 0 { v / 16 } else { v % 16 })
        } else {
            87 + (if i == 0 { v / 16 } else { v % 16 })
        }),
{
}

proof fn lemma_hex_pair_value(v: u8, pair: Seq<u8>)
    requires
        pair.len() == 2,
        pair[0] == (if v / 16 < 10 { 48 + v / 16 } else { 87 + v / 16 }),
        pair[1] == (if v % 16 < 10 { 48 + v % 16 } else { 87 + v % 16 }),
    ensures
        radix_value(pair, 16, 255) == Some(v as nat),
{
    let first = pair.drop_last();
    assert(first.drop_last() =~= Seq::<u8>::empty());
    assert(first.last() == pair[0]);
    assert(pair.last() == pair[1]);
    assert(pair[0] != 43u8);
    assert(crate::text::digit_value(pair[0], 16) == Some((v / 16) as nat));
    assert(crate::text::digit_value(pair[1], 16) == Some((v % 16) as nat));
    assert(crate::text::digits_value(first.drop_last(), 16) == Some(0nat));
    assert(crate::text::digits_value(first, 16) == Some((v / 16) as nat));
    assert(crate::text::digits_value(pair, 16) == Some((16 * (v / 16) + v % 16) as nat));
}

/// An LED zone's config-file form reads back as the same zone settings.
pub proof fn lemma_led_roundtrip(l: LedConfig, zone: Seq<char>)
    ensures
        led_zone_sliceable(led_to_config_spec(l)),
        config_to_led_spec(led_to_config_spec(l), zone) == Ok::<LedConfig, ConfigErrorView>(l),
{
    crate::types::lemma_led_mode_name_roundtrip(l.mode, led_mode_name(l.mode));
    lemma_color_roundtrip(l.r, l.g, l.b);
}


// --- Conversion: DeviceProfile -> ProfileConfig ---

/// The config key of DPI preset `i` (counted from 0): `preset_1`, `preset_2`, ...
pub open spec fn preset_key(i: int) -> Seq<char> {
    "preset_"@ + decimal_chars((i + 1) as nat)
}

/// The config key of button `i`: its slot's name, or `button_<i>` past the last slot.
pub open spec fn button_key(slots: Seq<ButtonCode>, i: int) -> Seq<char> {
    if 0 <= i < slots.len() {
        button_code_name(slots[i])
    } else {
        "button_"@ + decimal_chars(i as nat)
    }
}

/// The config key of LED zone `i`: its name, or `unknown` past the last name.
pub open spec fn led_key(names: Seq<Seq<char>>, i: int) -> Seq<char> {
    if 0 <= i < names.len() {
        names[i]
    } else {
        "unknown"@
    }
}

pub open spec fn preset_keys() -> spec_fn(int) -> Seq<char> {
    |i: int| preset_key(i)
}

pub open spec fn button_keys(slots: Seq<ButtonCode>) -> spec_fn(int) -> Seq<char> {
    |i: int| button_key(slots, i)
}

pub open spec fn led_keys(names: Seq<Seq<char>>) -> spec_fn(int) -> Seq<char> {
    |i: int| led_key(names, i)
}

/// The map built by inserting `vals[i]` under `key(i)` for each `i` in order;
/// a later value replaces an earlier one under the same key.
pub open spec fn assoc_map<V>(key: spec_fn(int) -> Seq<char>, vals: Seq<V>) -> Map<Seq<char>, V>
    decreases vals.len(),
{
    if vals.len() == 0 {
        Map::empty()
    } else {
        assoc_map(key, vals.drop_last()).insert(key(vals.len() - 1), vals.last())
    }
}

pub open spec fn formatted_bindings(bs: Seq<ButtonBinding>) -> Seq<Seq<char>> {
    bs.map_values(|b: ButtonBinding| format_binding_spec(b))
}

pub open spec fn led_zone_views(ls: Seq<LedConfig>) -> Seq<LedZoneView> {
    ls.map_values(|l: LedConfig| led_to_config_spec(l))
}

/// The config-file form of a profile.
pub open spec fn profile_to_config_spec(p: ProfileView, d: DescriptorView) -> ProfileConfigView {
    ProfileConfigView {
        polling_rate: p.polling_rate,
        debounce_ms: p.debounce_ms,
        angle_snapping: p.angle_snapping,
        dpi: assoc_map(preset_keys(), p.dpi_presets),
        buttons: assoc_map(button_keys(d.button_slots), formatted_bindings(p.buttons)),
        leds: assoc_map(led_keys(d.led_names), led_zone_views(p.leds)),
    }
}

/// Adding the next value to the front part of the list adds its key to the map.
pub proof fn lemma_assoc_map_step<V>(key: spec_fn(int) -> Seq<char>, vals: Seq<V>, i: int)
    requires
        0 <= i < vals.len(),
    ensures
        assoc_map(key, vals.take(i + 1)) == assoc_map(key, vals.take(i)).insert(key(i), vals[i]),
{
    assert(vals.take(i + 1).drop_last() =~= vals.take(i));
}

pub fn profile_to_config(profile: &DeviceProfile, desc: &DeviceDescriptor) -> (r: ProfileConfig)
    ensures
        r@ == profile_to_config_spec(profile@, desc@),
{
    let ghost pv = profile@;
    let ghost dv = desc@;

    let mut dpi: NameMap<u16> = NameMap::new();
    let n = profile.settings.dpi_presets.len();
    let mut i: usize = 0;
    assert(pv.dpi_presets.take(0) =~= Seq::<u16>::empty());
    while i < n
        invariant
            n == profile.settings.dpi_presets@.len(),
            pv == profile@,
            i <= n,
            dpi@ == assoc_map(preset_keys(), pv.dpi_presets.take(i as int)),
        decreases n - i,
    {
        let mut key = String::from_str("preset_");
        push_decimal(&mut key, i + 1);
        dpi.insert(key, profile.settings.dpi_presets[i]);
        proof {
            lemma_assoc_map_step(preset_keys(), pv.dpi_presets, i as int);
        }
        i = i + 1;
    }
    assert(pv.dpi_presets.take(n as int) =~= pv.dpi_presets);

    let mut buttons: NameMap<String> = NameMap::new();
    let nb = profile.buttons.len();
    let mut i: usize = 0;
    assert(formatted_bindings(pv.buttons).take(0) =~= Seq::<Seq<char>>::empty());
    while i < nb
        invariant
            nb == profile.buttons@.len(),
            pv == profile@,
            dv == desc@,
            i <= nb,
            buttons@ == assoc_map(button_keys(dv.button_slots), formatted_bindings(pv.buttons).take(i as int)),
        decreases nb - i,
    {
        let name = if i < desc.button_slots.len() {
            String::from_str(desc.button_slots[i].name())
        } else {
            let mut s = String::from_str("button_");
            push_decimal(&mut s, i);
            s
        };
        assert(name@ == button_key(dv.button_slots, i as int));
        buttons.insert(name, format_binding(&profile.buttons[i]));
        proof {
            lemma_assoc_map_step(button_keys(dv.button_slots), formatted_bindings(pv.buttons), i as int);
        }
        i = i + 1;
    }
    assert(formatted_bindings(pv.buttons).take(nb as int) =~= formatted_bindings(pv.buttons));

    let mut leds: NameMap<LedZoneConfig> = NameMap::new();
    let nl = profile.leds.len();
    let mut i: usize = 0;
    assert(led_zone_views(pv.leds).take(0) =~= Seq::<LedZoneView>::empty());
    while i < nl
        invariant
            nl == profile.leds@.len(),
            pv == profile@,
            dv == desc@,
            i <= nl,
            leds@ == assoc_map(led_keys(dv.led_names), led_zone_views(pv.leds).take(i as int)),
        decreases nl - i,
    {
        let zone_name = if i < desc.led_names.len() {
            String::from_str(desc.led_names[i])
        } else {
            String::from_str("unknown")
        };
        assert(zone_name@ == led_key(dv.led_names, i as int));
        leds.insert(zone_name, led_to_config(&profile.leds[i]));
        proof {
            lemma_assoc_map_step(led_keys(dv.led_names), led_zone_views(pv.leds), i as int);
        }
        i = i + 1;
    }
    assert(led_zone_views(pv.leds).take(nl as int) =~= led_zone_views(pv.leds));

    ProfileConfig {
        polling_rate: profile.settings.polling_rate,
        debounce_ms: profile.settings.debounce_ms,
        angle_snapping: profile.settings.angle_snapping,
        dpi,
        buttons,
        leds,
    }
}

// --- Conversion: ProfileConfig -> DeviceProfile ---

/// The bindings of the given slots, read from the config in slot order; the first
/// missing or unreadable one is the error.
pub open spec fn parse_buttons(buttons: Map<Seq<char>, Seq<char>>, slots: Seq<ButtonCode>) -> Result<Seq<ButtonBinding>, ConfigErrorView>
    decreases slots.len(),
{
    if slots.len() == 0 {
        Ok(Seq::empty())
    } else {
        match parse_buttons(buttons, slots.drop_last()) {
            Err(e) => Err(e),
            Ok(bs) => {
                let name = button_code_name(slots.last());
                if !buttons.contains_key(name) {
                    Err(ConfigErrorView::MissingButton(name))
                } else {
                    match parse_binding_spec(buttons[name]) {
                        Ok(b) => Ok(bs.push(b)),
                        Err(e) => Err(ConfigErrorView::InvalidBinding { button: name, cause: e }),
                    }
                }
            },
        }
    }
}

/// The first `n` DPI presets, read from the config in order and checked against the range.
pub open spec fn parse_dpis(dpi: Map<Seq<char>, u16>, n: nat, min: u16, max: u16) -> Result<Seq<u16>, ConfigErrorView>
    decreases n,
{
    if n == 0 {
        Ok(Seq::empty())
    } else {
        match parse_dpis(dpi, (n - 1) as nat, min, max) {
            Err(e) => Err(e),
            Ok(ds) => {
                let key = preset_key(n - 1);
                if !dpi.contains_key(key) {
                    Err(ConfigErrorView::MissingDpi(key))
                } else if dpi[key] < min || dpi[key] > max {
                    Err(ConfigErrorView::DpiOutOfRange { key, dpi: dpi[key], min, max })
                } else {
                    Ok(ds.push(dpi[key]))
                }
            },
        }
    }
}

/// The LED zones of the given names, read from the config in order; brightness is
/// checked against `bmax`.
pub open spec fn parse_leds(leds: Map<Seq<char>, LedZoneView>, names: Seq<Seq<char>>, bmax: u8) -> Result<Seq<LedConfig>, ConfigErrorView>
    decreases names.len(),
{
    if names.len() == 0 {
        Ok(Seq::empty())
    } else {
        match parse_leds(leds, names.drop_last(), bmax) {
            Err(e) => Err(e),
            Ok(ls) => {
                let zone = names.last();
                if !leds.contains_key(zone) {
                    Err(ConfigErrorView::MissingLedZone(zone))
                } else {
                    match config_to_led_spec(leds[zone], zone) {
                        Err(e) => Err(e),
                        Ok(l) => if l.brightness > bmax {
                            Err(ConfigErrorView::BrightnessTooHigh { zone, brightness: l.brightness, max: bmax })
                        } else {
                            Ok(ls.push(l))
                        },
                    }
                }
            },
        }
    }
}

/// Whether reading the LED zones slices every color text that it reaches safely.
pub open spec fn leds_sliceable(leds: Map<Seq<char>, LedZoneView>, names: Seq<Seq<char>>, bmax: u8) -> bool
    decreases names.len(),
{
    if names.len() == 0 {
        true
    } else {
        &&& leds_sliceable(leds, names.drop_last(), bmax)
        &&& (parse_leds(leds, names.drop_last(), bmax) is Ok && leds.contains_key(names.last()))
            ==> led_zone_sliceable(leds[names.last()])
    }
}

/// Whether a profile's debounce time is checked against the accepted times. The Razer
/// protocol cannot set a debounce time and ignores the value, so any value is accepted for
/// it (the value that reading it reports, 0, included); every other device checks it.
pub open spec fn debounce_checked(d: DescriptorView) -> bool {
    d.protocol != ProtocolKind::Razer
}

/// What a profile of the config file stands for on a device.
pub open spec fn config_to_profile_spec(c: ProfileConfigView, d: DescriptorView) -> Result<ProfileView, ConfigErrorView> {
    match parse_buttons(c.buttons, d.button_slots) {
        Err(e) => Err(e),
        Ok(bs) => match parse_dpis(c.dpi, d.num_dpi_presets as nat, d.dpi_min, d.dpi_max) {
            Err(e) => Err(e),
            Ok(ds) => if !polling_rate_table().contains(c.polling_rate) {
                Err(ConfigErrorView::InvalidPollingRate(c.polling_rate))
            } else if debounce_checked(d) && !debounce_table().contains(c.debounce_ms) {
                Err(ConfigErrorView::InvalidDebounce(c.debounce_ms))
            } else {
                match parse_leds(c.leds, d.led_names, d.brightness_max) {
                    Err(e) => Err(e),
                    Ok(ls) => Ok(ProfileView {
                        buttons: bs,
                        dpi_presets: ds,
                        polling_rate: c.polling_rate,
                        debounce_ms: c.debounce_ms,
                        angle_snapping: c.angle_snapping,
                        leds: ls,
                    }),
                }
            },
        },
    }
}

/// Whether reading a profile of the config file slices every color text that it reaches
/// safely; where it does not, the conversion panics.
pub open spec fn config_sliceable(c: ProfileConfigView, d: DescriptorView) -> bool {
    (parse_buttons(c.buttons, d.button_slots) is Ok
        && parse_dpis(c.dpi, d.num_dpi_presets as nat, d.dpi_min, d.dpi_max) is Ok
        && polling_rate_table().contains(c.polling_rate)
        && (debounce_checked(d) ==> debounce_table().contains(c.debounce_ms)))
        ==> leds_sliceable(c.leds, d.led_names, d.brightness_max)
}

proof fn lemma_parse_buttons_prefix(m: Map<Seq<char>, Seq<char>>, slots: Seq<ButtonCode>, k: int)
    requires
        0 <= k <= slots.len(),
        parse_buttons(m, slots.take(k)) is Err,
    ensures
        parse_buttons(m, slots) == parse_buttons(m, slots.take(k)),
    decreases slots.len(),
{
    if k < slots.len() {
        assert(slots.drop_last().take(k) =~= slots.take(k));
        lemma_parse_buttons_prefix(m, slots.drop_last(), k);
    } else {
        assert(slots.take(k) =~= slots);
    }
}

proof fn lemma_parse_dpis_prefix(m: Map<Seq<char>, u16>, n: nat, k: nat, min: u16, max: u16)
    requires
        k <= n,
        parse_dpis(m, k, min, max) is Err,
    ensures
        parse_dpis(m, n, min, max) == parse_dpis(m, k, min, max),
    decreases n,
{
    if k < n {
        lemma_parse_dpis_prefix(m, (n - 1) as nat, k, min, max);
    }
}

proof fn lemma_parse_leds_prefix(m: Map<Seq<char>, LedZoneView>, names: Seq<Seq<char>>, k: int, bmax: u8)
    requires
        0 <= k <= names.len(),
        parse_leds(m, names.take(k), bmax) is Err,
    ensures
        parse_leds(m, names, bmax) == parse_leds(m, names.take(k), bmax),
        leds_sliceable(m, names, bmax) == leds_sliceable(m, names.take(k), bmax),
    decreases names.len(),
{
    if k < names.len() {
        assert(names.drop_last().take(k) =~= names.take(k));
        lemma_parse_leds_prefix(m, names.drop_last(), k, bmax);
    } else {
        assert(names.take(k) =~= names);
    }
}

proof fn lemma_leds_sliceable_prefix(m: Map<Seq<char>, LedZoneView>, names: Seq<Seq<char>>, k: int, bmax: u8)
    requires
        0 <= k <= names.len(),
        leds_sliceable(m, names, bmax),
    ensures
        leds_sliceable(m, names.take(k), bmax),
    decreases names.len(),
{
    if k < names.len() {
        assert(names.drop_last().take(k) =~= names.take(k));
        lemma_leds_sliceable_prefix(m, names.drop_last(), k, bmax);
    } else {
        assert(names.take(k) =~= names);
    }
}

/// Whether reading one LED zone would slice its color text safely.
fn led_zone_is_sliceable(z: &LedZoneConfig) -> (r: bool)
    ensures
        r == led_zone_sliceable(z@),
{
    match LedMode::from_name(z.mode.as_str()) {
        None => true,
        Some(_) => match &z.color {
            None => true,
            Some(h) => hex_color_is_sliceable(h.as_str()),
        },
    }
}

/// Converts a profile of the config file for a device, or gives `None` exactly where the
/// conversion would slice a color text off a character boundary (and so panic).
pub fn config_to_profile_checked(config: &ProfileConfig, desc: &DeviceDescriptor) -> (r: Option<Result<DeviceProfile, ConfigError>>)
    ensures
        r is None <==> !config_sliceable(config@, desc@),
        r matches Some(x) ==> profile_result_view(x) == config_to_profile_spec(config@, desc@),
{
    let ghost cv = config@;
    let ghost dv = desc@;

    // Parse buttons in slot order
    let mut buttons: Vec<ButtonBinding> = Vec::with_capacity(desc.button_slots.len());
    let mut i: usize = 0;
    assert(dv.button_slots.take(0) =~= Seq::<ButtonCode>::empty());
    while i < desc.button_slots.len()
        invariant
            cv == config@,
            dv == desc@,
            i <= dv.button_slots.len(),
            parse_buttons(cv.buttons, dv.button_slots.take(i as int)) == Ok::<Seq<ButtonBinding>, ConfigErrorView>(buttons@),
        decreases dv.button_slots.len() - i,
    {
        let slot = desc.button_slots[i];
        let name = slot.name();
        assert(dv.button_slots.take(i + 1).drop_last() =~= dv.button_slots.take(i as int));
        assert(dv.button_slots.take(i + 1).last() == slot);
        let binding_str = match config.buttons.get(name) {
            Some(b) => b,
            None => {
                proof {
                    lemma_parse_buttons_prefix(cv.buttons, dv.button_slots, i + 1);
                }
                return Some(Err(ConfigError::MissingButton(String::from_str(name))));
            },
        };
        match parse_binding(binding_str.as_str()) {
            Ok(b) => {
                buttons.push(b);
            },
            Err(e) => {
                proof {
                    lemma_parse_buttons_prefix(cv.buttons, dv.button_slots, i + 1);
                }
                return Some(Err(ConfigError::InvalidBinding { button: String::from_str(name), cause: e }));
            },
        }
        i = i + 1;
    }
    assert(dv.button_slots.take(i as int) =~= dv.button_slots);

    // Parse DPI presets
    let mut dpi_presets: Vec<u16> = Vec::with_capacity(desc.num_dpi_presets);
    let mut i: usize = 0;
    while i < desc.num_dpi_presets
        invariant
            cv == config@,
            dv == desc@,
            i <= dv.num_dpi_presets,
            parse_buttons(cv.buttons, dv.button_slots) is Ok,
            parse_dpis(cv.dpi, i as nat, dv.dpi_min, dv.dpi_max) == Ok::<Seq<u16>, ConfigErrorView>(dpi_presets@),
        decreases dv.num_dpi_presets - i,
    {
        let mut key = String::from_str("preset_");
        push_decimal(&mut key, i + 1);
        assert(key@ == preset_key(i as int));
        let dpi = match config.dpi.get(key.as_str()) {
            Some(d) => *d,
            None => {
                proof {
                    lemma_parse_dpis_prefix(cv.dpi, dv.num_dpi_presets as nat, (i + 1) as nat, dv.dpi_min, dv.dpi_max);
                }
                return Some(Err(ConfigError::MissingDpi(key)));
            },
        };
        if dpi < desc.dpi_min || dpi > desc.dpi_max {
            proof {
                lemma_parse_dpis_prefix(cv.dpi, dv.num_dpi_presets as nat, (i + 1) as nat, dv.dpi_min, dv.dpi_max);
            }
            return Some(Err(ConfigError::DpiOutOfRange { key, dpi, min: desc.dpi_min, max: desc.dpi_max }));
        }
        dpi_presets.push(dpi);
        i = i + 1;
    }

    // Validate polling rate
    if polling_rate_index(config.polling_rate).is_none() {
        proof {
            crate::types::lemma_first_index_of(polling_rate_table(), config.polling_rate);
        }
        return Some(Err(ConfigError::InvalidPollingRate(config.polling_rate)));
    }
    // Validate debounce, unless the protocol ignores it
    if desc.protocol != ProtocolKind::Razer && debounce_index(config.debounce_ms).is_none() {
        proof {
            crate::types::lemma_first_index_of(polling_rate_table(), config.polling_rate);
            crate::types::lemma_first_index_of(debounce_table(), config.debounce_ms);
        }
        return Some(Err(ConfigError::InvalidDebounce(config.debounce_ms)));
    }
    proof {
        crate::types::lemma_first_index_of(polling_rate_table(), config.polling_rate);
        crate::types::lemma_first_index_of(debounce_table(), config.debounce_ms);
    }

    let settings = Settings {
        dpi_presets,
        polling_rate: config.polling_rate,
        debounce_ms: config.debounce_ms,
        angle_snapping: config.angle_snapping,
    };

    // Parse LEDs
    let mut leds: Vec<LedConfig> = Vec::with_capacity(desc.num_leds);
    let mut i: usize = 0;
    assert(dv.led_names.take(0) =~= Seq::<Seq<char>>::empty());
    while i < desc.led_names.len()
        invariant
            cv == config@,
            dv == desc@,
            i <= dv.led_names.len(),
            dv.led_names.len() == desc.led_names@.len(),
            parse_buttons(cv.buttons, dv.button_slots) == Ok::<Seq<ButtonBinding>, ConfigErrorView>(buttons@),
            parse_dpis(cv.dpi, dv.num_dpi_presets as nat, dv.dpi_min, dv.dpi_max) == Ok::<Seq<u16>, ConfigErrorView>(settings.dpi_presets@),
            settings.polling_rate == cv.polling_rate,
            settings.debounce_ms == cv.debounce_ms,
            settings.angle_snapping == cv.angle_snapping,
            polling_rate_table().contains(cv.polling_rate),
            debounce_checked(dv) ==> debounce_table().contains(cv.debounce_ms),
            parse_leds(cv.leds, dv.led_names.take(i as int), dv.brightness_max) == Ok::<Seq<LedConfig>, ConfigErrorView>(leds@),
            leds_sliceable(cv.leds, dv.led_names.take(i as int), dv.brightness_max),
        decreases dv.led_names.len() - i,
    {
        let zone_name: &str = desc.led_names[i];
        assert(zone_name@ == dv.led_names[i as int]);
        assert(dv.led_names.take(i + 1).drop_last() =~= dv.led_names.take(i as int));
        assert(dv.led_names.take(i + 1).last() == zone_name@);
        let zone_cfg = match config.leds.get(zone_name) {
            Some(z) => z,
            None => {
                proof {
                    lemma_parse_leds_prefix(cv.leds, dv.led_names, i + 1, dv.brightness_max);
                }
                return Some(Err(ConfigError::MissingLedZone(String::from_str(zone_name))));
            },
        };
        if !led_zone_is_sliceable(zone_cfg) {
            proof {
                if leds_sliceable(cv.leds, dv.led_names, dv.brightness_max) {
                    lemma_leds_sliceable_prefix(cv.leds, dv.led_names, i + 1, dv.brightness_max);
                }
            }
            return None;
        }
        let led = match config_to_led(zone_cfg, zone_name) {
            Ok(l) => l,
            Err(e) => {
                proof {
                    lemma_parse_leds_prefix(cv.leds, dv.led_names, i + 1, dv.brightness_max);
                }
                return Some(Err(e));
            },
        };
        if led.brightness > desc.brightness_max {
            proof {
                lemma_parse_leds_prefix(cv.leds, dv.led_names, i + 1, dv.brightness_max);
            }
            return Some(Err(ConfigError::BrightnessTooHigh {
                zone: String::from_str(zone_name),
                brightness: led.brightness,
                max: desc.brightness_max,
            }));
        }
        leds.push(led);
        i = i + 1;
    }
    assert(dv.led_names.take(i as int) =~= dv.led_names);

    Some(Ok(DeviceProfile { buttons, settings, leds }))
}

pub fn config_to_profile(config: &ProfileConfig, desc: &DeviceDescriptor) -> (r: Result<DeviceProfile, ConfigError>)
    requires
        config_sliceable(config@, desc@),
    ensures
        profile_result_view(r) == config_to_profile_spec(config@, desc@),
{
    match config_to_profile_checked(config, desc) {
        Some(r) => r,
        None => {
            proof {
                assert(false);
            }
            Err(ConfigError::InvalidDebounce(config.debounce_ms))
        },
    }
}


// --- Dumping a profile and applying it back ---

/// A profile that the config file can carry to the device and back unchanged: one
/// binding per slot, each with a name; one preset per DPI slot, in range; a valid
/// polling rate, and a valid debounce time where the protocol writes one; one zone per LED name, within the brightness limit;
/// and no slot or zone named twice.
pub open spec fn profile_fits(p: ProfileView, d: DescriptorView) -> bool {
    &&& p.buttons.len() == d.button_slots.len()
    &&& forall|i: int, j: int| 0 <= i < j < d.button_slots.len() ==> #[trigger] d.button_slots[i] != #[trigger] d.button_slots[j]
    &&& forall|i: int| 0 <= i < p.buttons.len() ==> binding_representable(#[trigger] p.buttons[i])
    &&& p.dpi_presets.len() == d.num_dpi_presets
    &&& forall|i: int| 0 <= i < p.dpi_presets.len() ==> d.dpi_min <= #[trigger] p.dpi_presets[i] <= d.dpi_max
    &&& polling_rate_table().contains(p.polling_rate)
    &&& debounce_checked(d) ==> debounce_table().contains(p.debounce_ms)
    &&& p.leds.len() == d.led_names.len()
    &&& forall|i: int, j: int| 0 <= i < j < d.led_names.len() ==> #[trigger] d.led_names[i] != #[trigger] d.led_names[j]
    &&& forall|i: int| 0 <= i < p.leds.len() ==> (#[trigger] p.leds[i]).brightness <= d.brightness_max
}

/// A key that no other position of the list shares maps to its own value.
pub proof fn lemma_assoc_map_lookup<V>(key: spec_fn(int) -> Seq<char>, vals: Seq<V>, j: int)
    requires
        0 <= j < vals.len(),
        forall|a: int, b: int| 0 <= a < b < vals.len() ==> #[trigger] key(a) != #[trigger] key(b),
    ensures
        assoc_map(key, vals).contains_key(key(j)),
        assoc_map(key, vals)[key(j)] == vals[j],
    decreases vals.len(),
{
    if j < vals.len() - 1 {
        let t = vals.drop_last();
        assert forall|a: int, b: int| 0 <= a < b < t.len() implies #[trigger] key(a) != #[trigger] key(b) by {
            assert(b < vals.len());
        }
        lemma_assoc_map_lookup(key, t, j);
        assert(key(j) != key(vals.len() - 1));
        assert(t[j] == vals[j]);
    }
}

proof fn lemma_button_keys_distinct(p: ProfileView, d: DescriptorView)
    requires
        profile_fits(p, d),
    ensures
        forall|a: int, b: int| 0 <= a < b < formatted_bindings(p.buttons).len() ==>
            #[trigger] button_keys(d.button_slots)(a) != #[trigger] button_keys(d.button_slots)(b),
{
    assert forall|a: int, b: int| 0 <= a < b < formatted_bindings(p.buttons).len() implies
        #[trigger] button_keys(d.button_slots)(a) != #[trigger] button_keys(d.button_slots)(b) by {
        let ca = d.button_slots[a];
        let cb = d.button_slots[b];
        crate::types::lemma_button_code_name_roundtrip(ca, button_code_name(cb));
        crate::types::lemma_button_code_name_roundtrip(cb, button_code_name(ca));
        assert(ca != cb);
    }
}

proof fn lemma_preset_keys_distinct(n: int)
    ensures
        forall|a: int, b: int| 0 <= a < b < n ==> #[trigger] preset_keys()(a) != #[trigger] preset_keys()(b),
{
    assert forall|a: int, b: int| 0 <= a < b < n implies #[trigger] preset_keys()(a) != #[trigger] preset_keys()(b) by {
        let pre = "preset_"@;
        let x = decimal_chars((a + 1) as nat);
        let y = decimal_chars((b + 1) as nat);
        if pre + x == pre + y {
            assert((pre + x).skip(pre.len() as int) =~= x);
            assert((pre + y).skip(pre.len() as int) =~= y);
            crate::text::lemma_decimal_chars_injective((a + 1) as nat, (b + 1) as nat);
        }
    }
}

proof fn lemma_led_keys_distinct(p: ProfileView, d: DescriptorView)
    requires
        profile_fits(p, d),
    ensures
        forall|a: int, b: int| 0 <= a < b < led_zone_views(p.leds).len() ==>
            #[trigger] led_keys(d.led_names)(a) != #[trigger] led_keys(d.led_names)(b),
{
    assert forall|a: int, b: int| 0 <= a < b < led_zone_views(p.leds).len() implies
        #[trigger] led_keys(d.led_names)(a) != #[trigger] led_keys(d.led_names)(b) by {
        assert(d.led_names[a] != d.led_names[b]);
    }
}

proof fn lemma_parse_buttons_roundtrip(p: ProfileView, d: DescriptorView, k: int)
    requires
        profile_fits(p, d),
        0 <= k <= d.button_slots.len(),
    ensures
        parse_buttons(profile_to_config_spec(p, d).buttons, d.button_slots.take(k))
            == Ok::<Seq<ButtonBinding>, ConfigErrorView>(p.buttons.take(k)),
    decreases k,
{
    let slots = d.button_slots;
    if k == 0 {
        assert(slots.take(0) =~= Seq::<ButtonCode>::empty());
        assert(p.buttons.take(0) =~= Seq::<ButtonBinding>::empty());
    } else {
        lemma_parse_buttons_roundtrip(p, d, k - 1);
        assert(slots.take(k).drop_last() =~= slots.take(k - 1));
        assert(slots.take(k).last() == slots[k - 1]);
        lemma_button_keys_distinct(p, d);
        lemma_assoc_map_lookup(button_keys(slots), formatted_bindings(p.buttons), k - 1);
        assert(button_keys(slots)(k - 1) == button_code_name(slots[k - 1]));
        assert(binding_representable(p.buttons[k - 1]));
        lemma_binding_roundtrip(p.buttons[k - 1]);
        assert(p.buttons.take(k - 1).push(p.buttons[k - 1]) =~= p.buttons.take(k));
    }
}

proof fn lemma_parse_dpis_roundtrip(p: ProfileView, d: DescriptorView, k: nat)
    requires
        profile_fits(p, d),
        k <= d.num_dpi_presets,
    ensures
        parse_dpis(profile_to_config_spec(p, d).dpi, k, d.dpi_min, d.dpi_max)
            == Ok::<Seq<u16>, ConfigErrorView>(p.dpi_presets.take(k as int)),
    decreases k,
{
    if k == 0 {
        assert(p.dpi_presets.take(0) =~= Seq::<u16>::empty());
    } else {
        lemma_parse_dpis_roundtrip(p, d, (k - 1) as nat);
        lemma_preset_keys_distinct(p.dpi_presets.len() as int);
        lemma_assoc_map_lookup(preset_keys(), p.dpi_presets, k - 1);
        assert(preset_keys()(k - 1) == preset_key(k - 1));
        assert(d.dpi_min <= p.dpi_presets[k - 1] <= d.dpi_max);
        assert(p.dpi_presets.take(k - 1).push(p.dpi_presets[k - 1]) =~= p.dpi_presets.take(k as int));
    }
}

proof fn lemma_parse_leds_roundtrip(p: ProfileView, d: DescriptorView, k: int)
    requires
        profile_fits(p, d),
        0 <= k <= d.led_names.len(),
    ensures
        parse_leds(profile_to_config_spec(p, d).leds, d.led_names.take(k), d.brightness_max)
            == Ok::<Seq<LedConfig>, ConfigErrorView>(p.leds.take(k)),
        leds_sliceable(profile_to_config_spec(p, d).leds, d.led_names.take(k), d.brightness_max),
    decreases k,
{
    let names = d.led_names;
    if k == 0 {
        assert(names.take(0) =~= Seq::<Seq<char>>::empty());
        assert(p.leds.take(0) =~= Seq::<LedConfig>::empty());
    } else {
        lemma_parse_leds_roundtrip(p, d, k - 1);
        assert(names.take(k).drop_last() =~= names.take(k - 1));
        assert(names.take(k).last() == names[k - 1]);
        lemma_led_keys_distinct(p, d);
        lemma_assoc_map_lookup(led_keys(names), led_zone_views(p.leds), k - 1);
        assert(led_keys(names)(k - 1) == names[k - 1]);
        lemma_led_roundtrip(p.leds[k - 1], names[k - 1]);
        assert(p.leds[k - 1].brightness <= d.brightness_max);
        assert(p.leds.take(k - 1).push(p.leds[k - 1]) =~= p.leds.take(k));
    }
}

/// Dumping a profile to the config file and applying that config back gives the same
/// profile, for every profile that the config file can carry (see `profile_fits`).
pub proof fn lemma_profile_config_roundtrip(p: ProfileView, d: DescriptorView)
    requires
        profile_fits(p, d),
    ensures
        config_sliceable(profile_to_config_spec(p, d), d),
        config_to_profile_spec(profile_to_config_spec(p, d), d) == Ok::<ProfileView, ConfigErrorView>(p),
{
    let n = d.button_slots.len() as int;
    lemma_parse_buttons_roundtrip(p, d, n);
    assert(d.button_slots.take(n) =~= d.button_slots);
    assert(p.buttons.take(n) =~= p.buttons);
    lemma_parse_dpis_roundtrip(p, d, d.num_dpi_presets as nat);
    assert(p.dpi_presets.take(d.num_dpi_presets as int) =~= p.dpi_presets);
    let m = d.led_names.len() as int;
    lemma_parse_leds_roundtrip(p, d, m);
    assert(d.led_names.take(m) =~= d.led_names);
    assert(p.leds.take(m) =~= p.leds);
}


// --- Storing profiles in the config file ---

/// The views of a list of profiles.
pub open spec fn profiles_view(ps: Seq<DeviceProfile>) -> Seq<ProfileView> {
    Seq::new(ps.len(), |i: int| ps[i]@)
}

/// The config-file key of the profile at position `i`: its number, counted from 1.
pub open spec fn profile_number_key(i: int) -> Seq<char> {
    decimal_chars((i + 1) as nat)
}

pub open spec fn profile_number_keys() -> spec_fn(int) -> Seq<char> {
    |i: int| profile_number_key(i)
}

/// The config-file form of each profile.
pub open spec fn profile_configs(ps: Seq<ProfileView>, d: DescriptorView) -> Seq<ProfileConfigView> {
    ps.map_values(|p: ProfileView| profile_to_config_spec(p, d))
}

/// Stores `profile` under its number `number` (counted from 1), replacing what was there.
pub fn store_profile(cfg: &mut Config, number: u8, profile: &DeviceProfile, desc: &DeviceDescriptor)
    ensures
        final(cfg).active_profile == old(cfg).active_profile,
        final(cfg).profile@ == old(cfg).profile@.insert(decimal_chars(number as nat), profile_to_config_spec(profile@, desc@)),
{
    let mut key = String::new();
    push_decimal(&mut key, number as usize);
    cfg.profile.insert(key, profile_to_config(profile, desc));
}

/// Stores every profile under its number (the first is 1), replacing what was stored
/// under those numbers and keeping the other profiles of the file.
pub fn store_profiles(cfg: &mut Config, profiles: &Vec<DeviceProfile>, desc: &DeviceDescriptor)
    ensures
        final(cfg).active_profile == old(cfg).active_profile,
        final(cfg).profile@ == old(cfg).profile@.union_prefer_right(
            assoc_map(profile_number_keys(), profile_configs(profiles_view(profiles@), desc@)),
        ),
{
    let ghost base = old(cfg).profile@;
    let ghost cs = profile_configs(profiles_view(profiles@), desc@);
    let n = profiles.len();
    let mut i: usize = 0;
    assert(cs.take(0) =~= Seq::<ProfileConfigView>::empty());
    assert(base.union_prefer_right(Map::empty()) =~= base);
    while i < n
        invariant
            n == profiles@.len(),
            cs == profile_configs(profiles_view(profiles@), desc@),
            i <= n,
            cfg.active_profile == old(cfg).active_profile,
            base == old(cfg).profile@,
            cfg.profile@ == base.union_prefer_right(assoc_map(profile_number_keys(), cs.take(i as int))),
        decreases n - i,
    {
        let mut key = String::new();
        push_decimal(&mut key, i + 1);
        let pc = profile_to_config(&profiles[i], desc);
        let ghost before = assoc_map(profile_number_keys(), cs.take(i as int));
        cfg.profile.insert(key, pc);
        proof {
            lemma_assoc_map_step(profile_number_keys(), cs, i as int);
            assert(base.union_prefer_right(before).insert(profile_number_key(i as int), cs[i as int])
                =~= base.union_prefer_right(before.insert(profile_number_key(i as int), cs[i as int])));
        }
        i = i + 1;
    }
    assert(cs.take(n as int) =~= cs);
}



// --- Dumping each supported device and applying the file back ---

/// The button slots of each supported device are distinct.
proof fn lemma_slots_distinct(d: DescriptorView)
    requires
        d == spatha_x_view() || d == deathadder_v2_view() || d == scimitar_rgb_elite_view(),
    ensures
        forall|i: int, j: int| 0 <= i < j < d.button_slots.len() ==> #[trigger] d.button_slots[i] != #[trigger] d.button_slots[j],
        forall|i: int, j: int| 0 <= i < j < d.led_names.len() ==> #[trigger] d.led_names[i] != #[trigger] d.led_names[j],
{
    assert forall|i: int, j: int| 0 <= i < j < d.button_slots.len() implies #[trigger] d.button_slots[i] != #[trigger] d.button_slots[j] by {
        lemma_button_code_byte_roundtrip(d.button_slots[i], button_code_byte(d.button_slots[j]));
        assert(button_code_byte(d.button_slots[i]) != button_code_byte(d.button_slots[j]));
    }
    reveal_strlit("logo");
    reveal_strlit("wheel");
    reveal_strlit("side");
    reveal_strlit("scroll");
    reveal_strlit("side_panel");
    reveal_strlit("dpi_indicator");
    assert forall|i: int, j: int| 0 <= i < j < d.led_names.len() implies #[trigger] d.led_names[i] != #[trigger] d.led_names[j] by {
        assert(d.led_names[i].len() != d.led_names[j].len() || d.led_names[i][1] != d.led_names[j][1]
            || d.led_names[i][5] != d.led_names[j][5]);
    }
}

/// Dumping an ASUS ROG Spatha X and applying the file back gives the same profile, for a
/// profile whose bindings all have names, whose presets are in range and whose LED
/// brightness is within the limit (the polling rate and debounce time that the device
/// reports are always accepted values).
pub proof fn lemma_spatha_x_dump_applies_back(p: ProfileView)
    requires
        p.buttons.len() == spatha_x_view().button_slots.len(),
        forall|i: int| 0 <= i < p.buttons.len() ==> binding_representable(#[trigger] p.buttons[i]),
        p.dpi_presets.len() == spatha_x_view().num_dpi_presets,
        forall|i: int| 0 <= i < p.dpi_presets.len() ==> spatha_x_view().dpi_min <= #[trigger] p.dpi_presets[i] <= spatha_x_view().dpi_max,
        polling_rate_table().contains(p.polling_rate),
        debounce_table().contains(p.debounce_ms),
        p.leds.len() == spatha_x_view().led_names.len(),
        forall|i: int| 0 <= i < p.leds.len() ==> (#[trigger] p.leds[i]).brightness <= spatha_x_view().brightness_max,
    ensures
        config_sliceable(profile_to_config_spec(p, spatha_x_view()), spatha_x_view()),
        config_to_profile_spec(profile_to_config_spec(p, spatha_x_view()), spatha_x_view())
            == Ok::<ProfileView, ConfigErrorView>(p),
{
    lemma_slots_distinct(spatha_x_view());
    lemma_profile_config_roundtrip(p, spatha_x_view());
}

/// Dumping a Razer DeathAdder V2 and applying the file back gives the same profile: the
/// profile built from the current DPI (within the device's range), the polling-rate byte
/// and one reading per LED zone. Its debounce time, 0, is accepted since the protocol
/// ignores it.
pub proof fn lemma_deathadder_v2_dump_applies_back(dpi_x: u16, rate_byte: u8, readings: Seq<((u8, u8, u8), u8, u8)>)
    requires
        deathadder_v2_view().dpi_min <= dpi_x <= deathadder_v2_view().dpi_max,
        readings.len() == deathadder_v2_view().led_names.len(),
    ensures
        ({
            let d = deathadder_v2_view();
            let p = crate::razer::read_profile_spec(d, dpi_x, crate::razer::byte_to_rate_spec(rate_byte), readings);
            &&& config_sliceable(profile_to_config_spec(p, d), d)
            &&& config_to_profile_spec(profile_to_config_spec(p, d), d) == Ok::<ProfileView, ConfigErrorView>(p)
        }),
{
    let d = deathadder_v2_view();
    let p = crate::razer::read_profile_spec(d, dpi_x, crate::razer::byte_to_rate_spec(rate_byte), readings);
    lemma_slots_distinct(d);
    assert forall|i: int| 0 <= i < p.buttons.len() implies binding_representable(#[trigger] p.buttons[i]) by {
        assert(p.buttons[i] == ButtonBinding { action_code: button_code_byte(d.button_slots[i]), kind: BindingKind::Mouse });
        lemma_button_code_byte_roundtrip(d.button_slots[i], 0);
    }
    assert(polling_rate_table().contains(p.polling_rate)) by {
        let r = p.polling_rate;
        if r == 125 { assert(polling_rate_table()[0] == r); }
        else if r == 250 { assert(polling_rate_table()[1] == r); }
        else if r == 500 { assert(polling_rate_table()[2] == r); }
        else { assert(polling_rate_table()[3] == r); }
    }
    lemma_profile_config_roundtrip(p, d);
}

/// Dumping a Corsair Scimitar RGB Elite and applying the file back: the profile built
/// from one DPI per stage (within the device's range) and the polling interval, with its
/// LEDs reported black, is dumped with the debounce time 0, which applying refuses; with
/// an accepted debounce time `ms` written in its place, the file gives back that profile
/// with debounce time `ms`.
pub proof fn lemma_scimitar_rgb_elite_dump_applies_back(stages: Seq<u16>, interval: u8, ms: u8)
    requires
        stages.len() == scimitar_rgb_elite_view().num_dpi_presets,
        forall|i: int| 0 <= i < stages.len() ==> scimitar_rgb_elite_view().dpi_min <= #[trigger] stages[i]
            <= scimitar_rgb_elite_view().dpi_max,
        debounce_table().contains(ms),
    ensures
        ({
            let d = scimitar_rgb_elite_view();
            let p = crate::corsair::read_profile_spec(d, stages, crate::corsair::interval_to_hz_spec(interval));
            let c = profile_to_config_spec(p, d);
            let edited = ProfileConfigView { debounce_ms: ms, ..c };
            &&& config_to_profile_spec(c, d) == Err::<ProfileView, ConfigErrorView>(ConfigErrorView::InvalidDebounce(0))
            &&& config_sliceable(edited, d)
            &&& config_to_profile_spec(edited, d) == Ok::<ProfileView, ConfigErrorView>(ProfileView { debounce_ms: ms, ..p })
        }),
{
    let d = scimitar_rgb_elite_view();
    let p = crate::corsair::read_profile_spec(d, stages, crate::corsair::interval_to_hz_spec(interval));
    let q = ProfileView { debounce_ms: ms, ..p };
    lemma_slots_distinct(d);
    assert forall|i: int| 0 <= i < q.buttons.len() implies binding_representable(#[trigger] q.buttons[i]) by {
        assert(q.buttons[i] == ButtonBinding { action_code: button_code_byte(d.button_slots[i]), kind: BindingKind::Mouse });
        lemma_button_code_byte_roundtrip(d.button_slots[i], 0);
    }
    assert(polling_rate_table().contains(q.polling_rate)) by {
        let r = q.polling_rate;
        if r == 125 { assert(polling_rate_table()[0] == r); }
        else if r == 250 { assert(polling_rate_table()[1] == r); }
        else if r == 500 { assert(polling_rate_table()[2] == r); }
        else { assert(polling_rate_table()[3] == r); }
    }
    lemma_profile_config_roundtrip(q, d);
    assert(profile_to_config_spec(q, d) == ProfileConfigView { debounce_ms: ms, ..profile_to_config_spec(p, d) });
    assert(!debounce_table().contains(0u8)) by {
        assert forall|i: int| 0 <= i < debounce_table().len() implies debounce_table()[i] != 0u8 by {}
    }
}


// --- When applying a profile of the config file fails ---

/// Slot `i`'s binding is missing from the config or has no meaning.
pub open spec fn button_bad(m: Map<Seq<char>, Seq<char>>, slots: Seq<ButtonCode>, i: int) -> bool {
    let name = button_code_name(slots[i]);
    !m.contains_key(name) || parse_binding_spec(m[name]) is Err
}

/// DPI preset `i` (counted from 0) is missing from the config or out of range.
pub open spec fn dpi_bad(m: Map<Seq<char>, u16>, i: int, min: u16, max: u16) -> bool {
    let key = preset_key(i);
    !m.contains_key(key) || m[key] < min || m[key] > max
}

/// LED zone `i` is missing from the config, has an unknown mode or a bad color, or is
/// brighter than the limit.
pub open spec fn led_bad(m: Map<Seq<char>, LedZoneView>, names: Seq<Seq<char>>, i: int, bmax: u8) -> bool {
    let zone = names[i];
    ||| !m.contains_key(zone)
    ||| config_to_led_spec(m[zone], zone) is Err
    ||| config_to_led_spec(m[zone], zone)->Ok_0.brightness > bmax
}

/// Whether a profile of the config file is unfit for a device: a slot's binding missing
/// or meaningless, a preset missing or out of range, a polling rate not accepted, a
/// debounce time not accepted where the protocol writes one, or an LED zone missing, of
/// unknown mode, of bad color or too bright.
pub open spec fn config_unfit(c: ProfileConfigView, d: DescriptorView) -> bool {
    ||| exists|i: int| 0 <= i < d.button_slots.len() && #[trigger] button_bad(c.buttons, d.button_slots, i)
    ||| exists|i: int| 0 <= i < d.num_dpi_presets && #[trigger] dpi_bad(c.dpi, i, d.dpi_min, d.dpi_max)
    ||| !polling_rate_table().contains(c.polling_rate)
    ||| (debounce_checked(d) && !debounce_table().contains(c.debounce_ms))
    ||| exists|i: int| 0 <= i < d.led_names.len() && #[trigger] led_bad(c.leds, d.led_names, i, d.brightness_max)
}

proof fn lemma_parse_buttons_err(m: Map<Seq<char>, Seq<char>>, slots: Seq<ButtonCode>)
    ensures
        parse_buttons(m, slots) is Err <==> exists|i: int| 0 <= i < slots.len() && #[trigger] button_bad(m, slots, i),
    decreases slots.len(),
{
    if slots.len() > 0 {
        let front = slots.drop_last();
        lemma_parse_buttons_err(m, front);
        assert forall|i: int| 0 <= i < front.len() implies #[trigger] button_bad(m, front, i) == button_bad(m, slots, i) by {
            assert(front[i] == slots[i]);
        }
        if exists|i: int| 0 <= i < slots.len() && #[trigger] button_bad(m, slots, i) {
            let i = choose|i: int| 0 <= i < slots.len() && #[trigger] button_bad(m, slots, i);
            if i < front.len() {
                assert(button_bad(m, front, i));
            }
        }
        if exists|i: int| 0 <= i < front.len() && #[trigger] button_bad(m, front, i) {
            let i = choose|i: int| 0 <= i < front.len() && #[trigger] button_bad(m, front, i);
            assert(button_bad(m, slots, i));
        }
        if button_bad(m, slots, slots.len() - 1) {
            assert(exists|i: int| 0 <= i < slots.len() && #[trigger] button_bad(m, slots, i));
        }
    }
}

proof fn lemma_parse_dpis_err(m: Map<Seq<char>, u16>, n: nat, min: u16, max: u16)
    ensures
        parse_dpis(m, n, min, max) is Err <==> exists|i: int| 0 <= i < n && #[trigger] dpi_bad(m, i, min, max),
    decreases n,
{
    if n > 0 {
        lemma_parse_dpis_err(m, (n - 1) as nat, min, max);
        if exists|i: int| 0 <= i < n && #[trigger] dpi_bad(m, i, min, max) {
            let i = choose|i: int| 0 <= i < n && #[trigger] dpi_bad(m, i, min, max);
            if i < n - 1 {
                assert(dpi_bad(m, i, min, max));
            }
        }
        if dpi_bad(m, n - 1, min, max) {
            assert(exists|i: int| 0 <= i < n && #[trigger] dpi_bad(m, i, min, max));
        }
    }
}

proof fn lemma_parse_leds_err(m: Map<Seq<char>, LedZoneView>, names: Seq<Seq<char>>, bmax: u8)
    ensures
        parse_leds(m, names, bmax) is Err <==> exists|i: int| 0 <= i < names.len() && #[trigger] led_bad(m, names, i, bmax),
    decreases names.len(),
{
    if names.len() > 0 {
        let front = names.drop_last();
        lemma_parse_leds_err(m, front, bmax);
        assert forall|i: int| 0 <= i < front.len() implies #[trigger] led_bad(m, front, i, bmax) == led_bad(m, names, i, bmax) by {
            assert(front[i] == names[i]);
        }
        if exists|i: int| 0 <= i < names.len() && #[trigger] led_bad(m, names, i, bmax) {
            let i = choose|i: int| 0 <= i < names.len() && #[trigger] led_bad(m, names, i, bmax);
            if i < front.len() {
                assert(led_bad(m, front, i, bmax));
            }
        }
        if exists|i: int| 0 <= i < front.len() && #[trigger] led_bad(m, front, i, bmax) {
            let i = choose|i: int| 0 <= i < front.len() && #[trigger] led_bad(m, front, i, bmax);
            assert(led_bad(m, names, i, bmax));
        }
        if led_bad(m, names, names.len() - 1, bmax) {
            assert(exists|i: int| 0 <= i < names.len() && #[trigger] led_bad(m, names, i, bmax));
        }
    }
}

/// Applying a profile of the config file fails exactly when it is unfit for the device
/// (see `config_unfit`).
pub proof fn lemma_config_fails_iff_unfit(c: ProfileConfigView, d: DescriptorView)
    ensures
        config_to_profile_spec(c, d) is Err <==> config_unfit(c, d),
{
    lemma_parse_buttons_err(c.buttons, d.button_slots);
    lemma_parse_dpis_err(c.dpi, d.num_dpi_presets as nat, d.dpi_min, d.dpi_max);
    lemma_parse_leds_err(c.leds, d.led_names, d.brightness_max);
}

} // verus!
