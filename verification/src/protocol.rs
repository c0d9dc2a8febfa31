//! ASUS ROG HID protocol: 64-byte hidraw packets.
//!
//! Packet format:
//!   [0]     Command byte (high nibble: request class)
//!   [1]     Sub-command / mode
//!   [2]     Parameter (profile index, zone index, preset index, etc.)
//!   [3]     Reserved (0x00)
//!   [4..63] Payload (little-endian values, layout depends on command)
//!
//! Request classes:
//!   0x12: Read (profile data, LEDs, settings, buttons)
//!   0x50: Control (set profile, save to flash)
//!   0x51: Write (set button, set LED, set setting)
//!
//! Responses mirror the request command bytes, with payload starting at byte 4.
//! Error responses have bytes [0..1] = [0xFF, 0xAA].
//!
//! DPI encoding: raw value = (dpi - 50) / 50, transmitted as LE u16.
//! Settings register layout (from byte 4): N x DPI presets (LE u16 each),
//! then polling rate index (LE u16), debounce index (LE u16), angle snapping (LE u16).
//!
//! This module builds the requests and reads the responses; sending them is the
//! caller's part.
use vstd::prelude::*;
use crate::devices::{DescriptorView, DeviceDescriptor};
use crate::text::{decimal_chars, push_decimal};
use crate::types::{
    button_code_byte, debounce_index, debounce_table, first_index_of, led_mode_byte,
    led_mode_from_byte, polling_rate_index, polling_rate_table, BindingKind, ButtonBinding,
    DeviceProfile, LedConfig, LedMode, ProfileData, ProfileView, Settings,
};

verus! {

pub const PACKET_SIZE: usize = 64;

/// A packet of `n` zero bytes.
pub open spec fn zero_packet(n: nat) -> Seq<u8> {
    Seq::new(n, |i: int| 0u8)
}

/// A request with the given command bytes and zeros elsewhere.
pub open spec fn request_spec(c0: u8, c1: u8) -> Seq<u8> {
    zero_packet(64).update(0, c0).update(1, c1)
}

/// A little-endian 16-bit value.
pub open spec fn le16(lo: u8, hi: u8) -> int {
    lo + 256 * hi
}

/// Whether a response is the error sentinel that a sleeping or disconnected device sends.
pub fn is_error_response(resp: &[u8; 64]) -> (r: bool)
    ensures
        r == (resp@[0] == 0xFF && resp@[1] == 0xAA),
{
    resp[0] == 0xFF && resp[1] == 0xAA
}

/// Why a profile cannot be written to an ASUS device.
#[derive(Debug, Clone, Copy, PartialEq, Eq, Structural)]
pub enum AsusError {
    ButtonSlotOutOfRange { slot: usize, max: usize },
    PresetOutOfRange(usize),
    DpiOutOfRange { dpi: u16, min: u16, max: u16 },
    InvalidPollingRate(u16),
    InvalidDebounce(u8),
}

pub open spec fn packet_result_view(r: Result<[u8; 64], AsusError>) -> Result<Seq<u8>, AsusError> {
    match r {
        Ok(p) => Ok(p@),
        Err(e) => Err(e),
    }
}

pub fn make_request(cmd: [u8; 2]) -> (r: [u8; 64])
    ensures
        r@ == request_spec(cmd[0], cmd[1]),
{
    let mut buf = [0u8; 64];
    buf[0] = cmd[0];
    buf[1] = cmd[1];
    assert(buf@ =~= request_spec(cmd[0], cmd[1]));
    buf
}

// --- DPI conversion helpers ---

/// The DPI of a raw protocol value, clamped to what a `u16` holds.
pub open spec fn raw_to_dpi_spec(raw: u16) -> u16 {
    if raw * 50 + 50 > 65535 {
        65535
    } else {
        (raw * 50 + 50) as u16
    }
}

/// The raw protocol value of a DPI.
pub open spec fn dpi_to_raw_spec(dpi: u16) -> u16 {
    ((if dpi >= 50 { dpi - 50 } else { 0 }) / 50) as u16
}

/// Convert raw protocol value to DPI, computing in `u32` so that it cannot overflow.
pub fn raw_to_dpi(raw: u16) -> (r: u16)
    ensures
        r == raw_to_dpi_spec(raw),
{
    let dpi: u32 = raw as u32 * 50 + 50;
    if dpi > 65535 {
        65535
    } else {
        dpi as u16
    }
}

pub fn dpi_to_raw(dpi: u16) -> (r: u16)
    ensures
        r == dpi_to_raw_spec(dpi),
{
    let base: u16 = if dpi >= 50 { dpi - 50 } else { 0 };
    base / 50
}

/// A DPI that is a multiple of 50, from 50 up, survives the trip to the raw value and back;
/// any other DPI of at least 50 comes back rounded down to a multiple of 50.
pub proof fn lemma_dpi_roundtrip(dpi: u16)
    requires
        dpi >= 50,
    ensures
        raw_to_dpi_spec(dpi_to_raw_spec(dpi)) == dpi - dpi % 50,
        dpi % 50 == 0 ==> raw_to_dpi_spec(dpi_to_raw_spec(dpi)) == dpi,
{
    let raw = dpi_to_raw_spec(dpi);
    assert(raw * 50 + 50 == dpi - dpi % 50) by (nonlinear_arith)
        requires raw == (dpi - 50) / 50, dpi >= 50;
}

// --- Profile data ---

/// Request: current profile index and firmware version.
pub fn profile_data_request() -> (r: [u8; 64])
    ensures
        r@ == request_spec(0x12, 0x00),
{
    make_request([0x12, 0x00])
}

/// The firmware version text: bytes 13, 12 and 11 in decimal, joined by dots.
pub open spec fn firmware_version_spec(resp: Seq<u8>) -> Seq<char> {
    decimal_chars(resp[13] as nat) + "."@ + decimal_chars(resp[12] as nat) + "."@ + decimal_chars(resp[11] as nat)
}

/// Reads the profile-data response.
pub fn parse_profile_data(resp: &[u8; 64]) -> (r: ProfileData)
    ensures
        r.current_profile == resp@[6],
        r.firmware_version@ == firmware_version_spec(resp@),
{
    let mut fw = String::new();
    push_decimal(&mut fw, resp[13] as usize);
    fw.append(".");
    push_decimal(&mut fw, resp[12] as usize);
    fw.append(".");
    push_decimal(&mut fw, resp[11] as usize);
    assert(fw@ =~= firmware_version_spec(resp@));
    ProfileData { current_profile: resp[6], firmware_version: fw }
}

// --- Buttons ---

/// The button groups to read: the descriptor's group sizes, or one group of all slots.
pub open spec fn button_groups_spec(d: DescriptorView) -> Seq<usize> {
    if d.button_group_sizes.len() == 0 {
        seq![d.button_slots.len() as usize]
    } else {
        d.button_group_sizes
    }
}

pub fn button_groups(desc: &DeviceDescriptor) -> (r: Vec<usize>)
    ensures
        r@ == button_groups_spec(desc@),
{
    if desc.button_group_sizes.len() == 0 {
        // Single group: all buttons in group 0
        let r = vec![desc.button_slots.len()];
        assert(r@ =~= button_groups_spec(desc@));
        r
    } else {
        let mut r: Vec<usize> = Vec::new();
        let mut i: usize = 0;
        while i < desc.button_group_sizes.len()
            invariant
                i <= desc.button_group_sizes@.len(),
                r@ =~= desc.button_group_sizes@.take(i as int),
            decreases desc.button_group_sizes@.len() - i,
        {
            r.push(desc.button_group_sizes[i]);
            i = i + 1;
        }
        assert(r@ =~= button_groups_spec(desc@));
        r
    }
}

/// Request: the bindings of one button group.
pub fn button_data_request(group_idx: usize) -> (r: [u8; 64])
    ensures
        r@ == request_spec(0x12, 0x05).update(2, group_idx as u8),
{
    let mut req = make_request([0x12, 0x05]);
    req[2] = group_idx as u8;
    req
}

/// The binding stored at `off`: action code, then action type (0 = keyboard).
pub open spec fn binding_at(resp: Seq<u8>, off: int) -> ButtonBinding {
    ButtonBinding {
        action_code: resp[off],
        kind: if resp[off + 1] == 0 { BindingKind::Keyboard } else { BindingKind::Mouse },
    }
}

/// Reads the bindings of one button group: pairs of (action code, action type) from byte 4.
pub fn parse_button_group(resp: &[u8; 64], group_size: usize) -> (r: Vec<ButtonBinding>)
    requires
        4 + 2 * group_size <= 64,
    ensures
        r@ == Seq::new(group_size as nat, |i: int| binding_at(resp@, 4 + 2 * i)),
{
    let mut buttons: Vec<ButtonBinding> = Vec::new();
    let mut i: usize = 0;
    while i < group_size
        invariant
            4 + 2 * group_size <= 64,
            i <= group_size,
            buttons@ =~= Seq::new(i as nat, |j: int| binding_at(resp@, 4 + 2 * j)),
        decreases group_size - i,
    {
        let offset = 4 + i * 2;
        let kind = if resp[offset + 1] == 0 {
            BindingKind::Keyboard
        } else {
            BindingKind::Mouse
        };
        buttons.push(ButtonBinding { action_code: resp[offset], kind });
        i = i + 1;
    }
    buttons
}

// --- Settings ---

/// Request: DPI presets, polling rate, debounce and angle snapping (mode 0, not split X/Y).
pub fn settings_request() -> (r: [u8; 64])
    ensures
        r@ == request_spec(0x12, 0x04),
{
    make_request([0x12, 0x04])
}

/// The accepted value at a wire index, or `default` past the end of the table.
pub open spec fn table_or<T>(table: Seq<T>, idx: int, default: T) -> T {
    if 0 <= idx < table.len() {
        table[idx]
    } else {
        default
    }
}

/// Reads the settings response for a device with `ndpi` presets.
pub fn parse_settings(resp: &[u8; 64], ndpi: usize) -> (r: Settings)
    requires
        4 + 2 * ndpi + 6 <= 64,
    ensures
        r.dpi_presets@ == Seq::new(ndpi as nat, |i: int| raw_to_dpi_spec(le16(resp@[4 + 2 * i], resp@[5 + 2 * i]) as u16)),
        r.polling_rate == table_or(polling_rate_table(), le16(resp@[4 + 2 * ndpi], resp@[5 + 2 * ndpi]), 1000u16),
        r.debounce_ms == table_or(debounce_table(), le16(resp@[6 + 2 * ndpi], resp@[7 + 2 * ndpi]), 8u8),
        r.angle_snapping == (le16(resp@[8 + 2 * ndpi], resp@[9 + 2 * ndpi]) != 0),
{
    let mut dpi_presets: Vec<u16> = Vec::with_capacity(ndpi);
    let mut i: usize = 0;
    while i < ndpi
        invariant
            4 + 2 * ndpi + 6 <= 64,
            i <= ndpi,
            dpi_presets@ =~= Seq::new(i as nat, |j: int| raw_to_dpi_spec(le16(resp@[4 + 2 * j], resp@[5 + 2 * j]) as u16)),
        decreases ndpi - i,
    {
        let offset = 4 + i * 2;
        let raw = resp[offset] as u16 + 256 * (resp[offset + 1] as u16);
        dpi_presets.push(raw_to_dpi(raw));
        i = i + 1;
    }

    let rate_offset = 4 + ndpi * 2;
    let rate_idx = resp[rate_offset] as usize + 256 * (resp[rate_offset + 1] as usize);
    let rates = crate::types::polling_rates();
    let polling_rate = if rate_idx < 4 { rates[rate_idx] } else { 1000 };

    let debounce_offset = rate_offset + 2;
    let debounce_idx = resp[debounce_offset] as usize + 256 * (resp[debounce_offset + 1] as usize);
    let times = crate::types::debounce_times();
    let debounce_ms = if debounce_idx < 8 { times[debounce_idx] } else { 8 };

    let snapping_offset = debounce_offset + 2;
    let angle_snapping = resp[snapping_offset] != 0 || resp[snapping_offset + 1] != 0;

    Settings { dpi_presets, polling_rate, debounce_ms, angle_snapping }
}

// --- LEDs ---

/// Request: the LED settings of one zone (0-indexed).
pub fn led_data_request(zone_idx: u8) -> (r: [u8; 64])
    ensures
        r@ == request_spec(0x12, 0x03).update(2, zone_idx),
{
    let mut req = make_request([0x12, 0x03]);
    req[2] = zone_idx;
    req
}

/// Reads an LED zone response: mode (unknown modes read as static), brightness, color.
pub fn parse_led_data(resp: &[u8; 64]) -> (r: LedConfig)
    ensures
        r == (LedConfig {
            mode: match led_mode_from_byte(resp@[4]) {
                Some(m) => m,
                None => LedMode::Static,
            },
            brightness: resp@[5],
            r: resp@[6],
            g: resp@[7],
            b: resp@[8],
        }),
{
    let mode = match LedMode::from_u8(resp[4]) {
        Some(m) => m,
        None => LedMode::Static,
    };
    LedConfig { mode, brightness: resp[5], r: resp[6], g: resp[7], b: resp[8] }
}

// --- Write commands ---

/// Request: switch to a different profile (0-indexed).
pub fn set_profile_request(index: u8) -> (r: [u8; 64])
    ensures
        r@ == request_spec(0x50, 0x02).update(2, index),
{
    let mut req = make_request([0x50, 0x02]);
    req[2] = index;
    req
}

/// Request: save current settings to device flash.
pub fn save_request() -> (r: [u8; 64])
    ensures
        r@ == request_spec(0x50, 0x03),
{
    make_request([0x50, 0x03])
}

/// The profiles that reading every profile selects, in order: each of the device's
/// profiles from the first (their count taken as a byte), then the profile that was
/// active, to restore it.
pub fn read_all_selections(num_profiles: usize, active: u8) -> (r: Vec<u8>)
    ensures
        r@ == Seq::new((num_profiles as u8) as nat, |i: int| i as u8).push(active),
{
    let n: u8 = num_profiles as u8;
    let mut r: Vec<u8> = Vec::new();
    let mut i: u8 = 0;
    while i < n
        invariant
            i <= n,
            r@ == Seq::new(i as nat, |k: int| k as u8),
        decreases n - i,
    {
        r.push(i);
        i = i + 1;
    }
    r.push(active);
    r
}

pub open spec fn action_type_byte_spec(b: ButtonBinding) -> u8 {
    if b.kind == BindingKind::Keyboard { 0 } else { 1 }
}

pub open spec fn set_button_spec(d: DescriptorView, slot: int, b: ButtonBinding) -> Result<Seq<u8>, AsusError> {
    if slot >= d.button_slots.len() {
        Err(AsusError::ButtonSlotOutOfRange { slot: slot as usize, max: d.button_slots.len() as usize })
    } else {
        Ok(request_spec(0x51, 0x21)
            .update(4, button_code_byte(d.button_slots[slot]))
            .update(5, 0x01)
            .update(6, b.action_code)
            .update(7, action_type_byte_spec(b)))
    }
}

/// Request: set a single button binding (source type 1 = mouse button).
pub fn set_button_request(desc: &DeviceDescriptor, slot: usize, binding: ButtonBinding) -> (r: Result<[u8; 64], AsusError>)
    ensures
        packet_result_view(r) == set_button_spec(desc@, slot as int, binding),
{
    if slot >= desc.button_slots.len() {
        return Err(AsusError::ButtonSlotOutOfRange { slot, max: desc.button_slots.len() });
    }
    let src_code = desc.button_slots[slot].to_u8();
    let mut req = make_request([0x51, 0x21]);
    req[4] = src_code;
    req[5] = 0x01;
    req[6] = binding.action_code;
    req[7] = binding.action_type_byte();
    Ok(req)
}

pub open spec fn set_dpi_spec(d: DescriptorView, preset: int, dpi: u16) -> Result<Seq<u8>, AsusError> {
    if preset >= d.num_dpi_presets {
        Err(AsusError::PresetOutOfRange(preset as usize))
    } else if dpi < d.dpi_min || dpi > d.dpi_max {
        Err(AsusError::DpiOutOfRange { dpi, min: d.dpi_min, max: d.dpi_max })
    } else {
        Ok(request_spec(0x51, 0x31)
            .update(2, preset as u8)
            .update(4, (dpi_to_raw_spec(dpi) % 256) as u8)
            .update(5, (dpi_to_raw_spec(dpi) / 256) as u8))
    }
}

/// Request: set a DPI preset value.
pub fn set_dpi_request(desc: &DeviceDescriptor, preset: usize, dpi: u16) -> (r: Result<[u8; 64], AsusError>)
    ensures
        packet_result_view(r) == set_dpi_spec(desc@, preset as int, dpi),
{
    if preset >= desc.num_dpi_presets {
        return Err(AsusError::PresetOutOfRange(preset));
    }
    if dpi < desc.dpi_min || dpi > desc.dpi_max {
        return Err(AsusError::DpiOutOfRange { dpi, min: desc.dpi_min, max: desc.dpi_max });
    }
    let raw = dpi_to_raw(dpi);
    let mut req = make_request([0x51, 0x31]);
    req[2] = preset as u8;
    req[4] = (raw % 256) as u8;
    req[5] = (raw / 256) as u8;
    Ok(req)
}

pub open spec fn set_polling_rate_spec(d: DescriptorView, rate_hz: u16) -> Result<Seq<u8>, AsusError> {
    match first_index_of(polling_rate_table(), rate_hz) {
        None => Err(AsusError::InvalidPollingRate(rate_hz)),
        Some(idx) => Ok(request_spec(0x51, 0x31).update(2, d.num_dpi_presets as u8).update(4, idx as u8)),
    }
}

/// Request: set the polling rate by its value in Hz (field index: after the presets).
pub fn set_polling_rate_request(desc: &DeviceDescriptor, rate_hz: u16) -> (r: Result<[u8; 64], AsusError>)
    ensures
        packet_result_view(r) == set_polling_rate_spec(desc@, rate_hz),
{
    let idx = match polling_rate_index(rate_hz) {
        Some(i) => i,
        None => {
            return Err(AsusError::InvalidPollingRate(rate_hz));
        },
    };
    let mut req = make_request([0x51, 0x31]);
    req[2] = desc.num_dpi_presets as u8;
    req[4] = idx as u8;
    Ok(req)
}

pub open spec fn set_debounce_spec(d: DescriptorView, ms: u8) -> Result<Seq<u8>, AsusError> {
    match first_index_of(debounce_table(), ms) {
        None => Err(AsusError::InvalidDebounce(ms)),
        Some(idx) => Ok(request_spec(0x51, 0x31).update(2, (d.num_dpi_presets + 1) as u8).update(4, idx as u8)),
    }
}

/// Request: set the debounce time in ms (field index: after the polling rate).
pub fn set_debounce_request(desc: &DeviceDescriptor, ms: u8) -> (r: Result<[u8; 64], AsusError>)
    requires
        desc.num_dpi_presets < usize::MAX,
    ensures
        packet_result_view(r) == set_debounce_spec(desc@, ms),
{
    let idx = match debounce_index(ms) {
        Some(i) => i,
        None => {
            return Err(AsusError::InvalidDebounce(ms));
        },
    };
    let mut req = make_request([0x51, 0x31]);
    req[2] = (desc.num_dpi_presets + 1) as u8;
    req[4] = idx as u8;
    Ok(req)
}

pub open spec fn set_angle_snapping_spec(d: DescriptorView, enabled: bool) -> Seq<u8> {
    request_spec(0x51, 0x31).update(2, (d.num_dpi_presets + 2) as u8).update(4, if enabled { 1u8 } else { 0u8 })
}

/// Request: set angle snapping on or off (field index: after the debounce time).
pub fn set_angle_snapping_request(desc: &DeviceDescriptor, enabled: bool) -> (r: [u8; 64])
    requires
        desc.num_dpi_presets < usize::MAX - 1,
    ensures
        r@ == set_angle_snapping_spec(desc@, enabled),
{
    let mut req = make_request([0x51, 0x31]);
    req[2] = (desc.num_dpi_presets + 2) as u8;
    req[4] = if enabled { 1 } else { 0 };
    req
}

pub open spec fn set_led_spec(zone_idx: u8, c: LedConfig) -> Seq<u8> {
    request_spec(0x51, 0x28)
        .update(2, zone_idx)
        .update(4, led_mode_byte(c.mode))
        .update(5, c.brightness)
        .update(6, c.r)
        .update(7, c.g)
        .update(8, c.b)
}

/// Request: set the LED settings of one zone (0-indexed).
pub fn set_led_request(zone_idx: u8, config: &LedConfig) -> (r: [u8; 64])
    ensures
        r@ == set_led_spec(zone_idx, *config),
{
    let mut req = make_request([0x51, 0x28]);
    req[2] = zone_idx;
    req[4] = config.mode.to_u8();
    req[5] = config.brightness;
    req[6] = config.r;
    req[7] = config.g;
    req[8] = config.b;
    req
}

/// The writes that apply a profile, in order: every button, every DPI preset, the
/// polling rate, the debounce time, angle snapping, every LED zone. A write that the
/// profile makes invalid stands as its error; the writes before it are sent, none after.
pub open spec fn apply_profile_steps_spec(d: DescriptorView, p: ProfileView) -> Seq<Result<Seq<u8>, AsusError>> {
    Seq::new(p.buttons.len(), |i: int| set_button_spec(d, i, p.buttons[i]))
        + Seq::new(p.dpi_presets.len(), |i: int| set_dpi_spec(d, i, p.dpi_presets[i]))
        + seq![
            set_polling_rate_spec(d, p.polling_rate),
            set_debounce_spec(d, p.debounce_ms),
            Ok(set_angle_snapping_spec(d, p.angle_snapping)),
        ]
        + Seq::new(p.leds.len(), |i: int| Ok::<Seq<u8>, AsusError>(set_led_spec(i as u8, p.leds[i])))
}

pub open spec fn steps_view(s: Seq<Result<[u8; 64], AsusError>>) -> Seq<Result<Seq<u8>, AsusError>> {
    Seq::new(s.len(), |i: int| packet_result_view(s[i]))
}

/// The writes that apply a profile to the current profile slot (see `apply_profile_steps_spec`).
pub fn apply_profile_steps(desc: &DeviceDescriptor, profile: &DeviceProfile) -> (r: Vec<Result<[u8; 64], AsusError>>)
    requires
        desc.num_dpi_presets < usize::MAX - 1,
    ensures
        steps_view(r@) == apply_profile_steps_spec(desc@, profile@),
{
    let ghost d = desc@;
    let ghost p = profile@;
    let ghost buttons_part = Seq::new(p.buttons.len(), |i: int| set_button_spec(d, i, p.buttons[i]));
    let ghost dpi_part = Seq::new(p.dpi_presets.len(), |i: int| set_dpi_spec(d, i, p.dpi_presets[i]));
    let ghost fixed_part = seq![
        set_polling_rate_spec(d, p.polling_rate),
        set_debounce_spec(d, p.debounce_ms),
        Ok(set_angle_snapping_spec(d, p.angle_snapping)),
    ];
    let ghost led_part = Seq::new(p.leds.len(), |i: int| Ok::<Seq<u8>, AsusError>(set_led_spec(i as u8, p.leds[i])));

    let mut steps: Vec<Result<[u8; 64], AsusError>> = Vec::new();
    let mut i: usize = 0;
    while i < profile.buttons.len()
        invariant
            d == desc@,
            p == profile@,
            buttons_part == Seq::new(p.buttons.len(), |i: int| set_button_spec(d, i, p.buttons[i])),
            i <= p.buttons.len(),
            steps_view(steps@) =~= buttons_part.take(i as int),
        decreases p.buttons.len() - i,
    {
        let x = set_button_request(desc, i, profile.buttons[i]);
        let ghost old = steps@;
        steps.push(x);
        assert(steps_view(steps@) =~= steps_view(old).push(packet_result_view(x)));
        assert(buttons_part.take(i + 1) =~= buttons_part.take(i as int).push(buttons_part[i as int]));
        i = i + 1;
    }
    assert(buttons_part.take(i as int) =~= buttons_part);

    let mut i: usize = 0;
    while i < profile.settings.dpi_presets.len()
        invariant
            d == desc@,
            p == profile@,
            dpi_part == Seq::new(p.dpi_presets.len(), |i: int| set_dpi_spec(d, i, p.dpi_presets[i])),
            i <= p.dpi_presets.len(),
            steps_view(steps@) =~= buttons_part + dpi_part.take(i as int),
        decreases p.dpi_presets.len() - i,
    {
        let x = set_dpi_request(desc, i, profile.settings.dpi_presets[i]);
        let ghost old = steps@;
        steps.push(x);
        assert(steps_view(steps@) =~= steps_view(old).push(packet_result_view(x)));
        assert(dpi_part.take(i + 1) =~= dpi_part.take(i as int).push(dpi_part[i as int]));
        i = i + 1;
    }
    assert(dpi_part.take(i as int) =~= dpi_part);

    let ghost old0 = steps@;
    let x = set_polling_rate_request(desc, profile.settings.polling_rate);
    steps.push(x);
    assert(steps_view(steps@) =~= steps_view(old0).push(packet_result_view(x)));
    let ghost old1 = steps@;
    let x = set_debounce_request(desc, profile.settings.debounce_ms);
    steps.push(x);
    assert(steps_view(steps@) =~= steps_view(old1).push(packet_result_view(x)));
    let ghost old2 = steps@;
    let x = Ok(set_angle_snapping_request(desc, profile.settings.angle_snapping));
    steps.push(x);
    assert(steps_view(steps@) =~= steps_view(old2).push(packet_result_view(x)));
    assert(steps_view(steps@) =~= buttons_part + dpi_part + fixed_part);

    let mut i: usize = 0;
    while i < profile.leds.len()
        invariant
            d == desc@,
            p == profile@,
            led_part == Seq::new(p.leds.len(), |i: int| Ok::<Seq<u8>, AsusError>(set_led_spec(i as u8, p.leds[i]))),
            i <= p.leds.len(),
            steps_view(steps@) =~= buttons_part + dpi_part + fixed_part + led_part.take(i as int),
        decreases p.leds.len() - i,
    {
        let x = Ok(set_led_request(#[verifier::truncate] (i as u8), &profile.leds[i]));
        let ghost old = steps@;
        steps.push(x);
        assert(steps_view(steps@) =~= steps_view(old).push(packet_result_view(x)));
        assert(led_part.take(i + 1) =~= led_part.take(i as int).push(led_part[i as int]));
        i = i + 1;
    }
    assert(led_part.take(i as int) =~= led_part);
    steps
}


/// The part of a profile that a write applies.
#[derive(Debug, Clone, Copy, PartialEq, Eq, Structural)]
pub enum AsusStep {
    /// The button in this slot (counted from 0).
    Button(usize),
    /// The DPI preset with this number (counted from 1).
    DpiPreset(usize),
    PollingRate,
    Debounce,
    AngleSnapping,
    /// The LED zone with this index (counted from 0).
    LedZone(usize),
}

/// The part of a profile with `nb` buttons and `nd` DPI presets that write `k` of
/// `apply_profile_steps_spec` applies.
pub open spec fn apply_step_spec(nb: int, nd: int, k: int) -> AsusStep {
    if k < nb {
        AsusStep::Button(k as usize)
    } else if k < nb + nd {
        AsusStep::DpiPreset((k - nb + 1) as usize)
    } else if k == nb + nd {
        AsusStep::PollingRate
    } else if k == nb + nd + 1 {
        AsusStep::Debounce
    } else if k == nb + nd + 2 {
        AsusStep::AngleSnapping
    } else {
        AsusStep::LedZone((k - nb - nd - 3) as usize)
    }
}

/// The part of `profile` that write `k` of `apply_profile_steps` applies.
pub fn apply_step(profile: &DeviceProfile, k: usize) -> (r: AsusStep)
    ensures
        r == apply_step_spec(profile@.buttons.len() as int, profile@.dpi_presets.len() as int, k as int),
{
    let nb = profile.buttons.len();
    if k < nb {
        return AsusStep::Button(k);
    }
    let k1 = k - nb;
    let nd = profile.settings.dpi_presets.len();
    if k1 < nd {
        return AsusStep::DpiPreset(k1 + 1);
    }
    let k2 = k1 - nd;
    if k2 == 0 {
        AsusStep::PollingRate
    } else if k2 == 1 {
        AsusStep::Debounce
    } else if k2 == 2 {
        AsusStep::AngleSnapping
    } else {
        AsusStep::LedZone(k2 - 3)
    }
}

} // verus!
