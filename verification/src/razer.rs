//! Razer HID protocol: 90-byte feature reports over hidraw.
//!
//! Packet format:
//!   [0]     Status (0x00=new, 0x02=success, 0x03=fail)
//!   [1]     Transaction ID
//!   [2..4]  Remaining packets (BE u16)
//!   [4]     Protocol type (0x00)
//!   [5]     Data size (payload length)
//!   [6]     Command class
//!   [7]     Command ID (bit 7: 0=set, 1=get)
//!   [8..88] Arguments (80 bytes)
//!   [88]    CRC (XOR of bytes 2..87)
//!   [89]    Reserved (0x00)
//!
//! This module builds the reports and reads the replies; the ioctls that carry
//! them are the caller's part.
use vstd::prelude::*;
use crate::devices::{DescriptorView, DeviceDescriptor};
use crate::text::str_eq;
use crate::types::{
    button_code_byte, ButtonBinding, DeviceProfile, LedConfig, LedMode, ProfileView,
    Settings, BindingKind,
};

verus! {

pub const RAZER_PACKET_SIZE: usize = 90;

/// Transaction ID for mouse devices.
pub const TRANSACTION_ID: u8 = 0x1F;

// Command classes
pub const CLASS_MISC: u8 = 0x00;
pub const CLASS_LED: u8 = 0x03;
pub const CLASS_DPI: u8 = 0x04;

// Command IDs (set = ID, get = ID | 0x80)
pub const CMD_SET_POLLING_RATE: u8 = 0x05;
pub const CMD_GET_POLLING_RATE: u8 = 0x85;
pub const CMD_SET_LED_RGB: u8 = 0x01;
pub const CMD_GET_LED_RGB: u8 = 0x81;
pub const CMD_SET_LED_EFFECT: u8 = 0x02;
pub const CMD_GET_LED_EFFECT: u8 = 0x82;
pub const CMD_SET_LED_BRIGHTNESS: u8 = 0x03;
pub const CMD_GET_LED_BRIGHTNESS: u8 = 0x83;
pub const CMD_SET_DPI_XY: u8 = 0x05;
pub const CMD_GET_DPI_XY: u8 = 0x85;

// Razer LED IDs
pub const LED_SCROLL: u8 = 0x01;
pub const LED_LOGO: u8 = 0x04;

// Razer LED effects
pub const EFFECT_STATIC: u8 = 0x00;
pub const EFFECT_BREATHING: u8 = 0x02;
pub const EFFECT_SPECTRUM: u8 = 0x04;

// Polling rate values
pub const RATE_1000HZ: u8 = 0x01;
pub const RATE_500HZ: u8 = 0x02;
pub const RATE_250HZ: u8 = 0x04;
pub const RATE_125HZ: u8 = 0x08;

/// Buffer size for hidraw feature reports: 1 byte report ID + 90 bytes payload.
pub const FEATURE_REPORT_SIZE: usize = 91;

/// The ioctl request number `_IOC(_IOC_WRITE|_IOC_READ, 'H', nr, len)`.
pub open spec fn hid_ioctl_number(nr: u64, len: u64) -> u64 {
    0xC0000000u64 | (len << 16u64) | (0x48u64 << 8u64) | nr
}

/// HIDIOCSFEATURE(len): send a feature report.
pub fn hidiocsfeature(len: u64) -> (r: u64)
    ensures
        r == hid_ioctl_number(6, len),
{
    let dir: u64 = 0xC0000000;
    let typ: u64 = 0x48u64 << 8u64;
    let nr: u64 = 0x06;
    let size: u64 = len << 16u64;
    dir | size | typ | nr
}

/// HIDIOCGFEATURE(len): get a feature report.
pub fn hidiocgfeature(len: u64) -> (r: u64)
    ensures
        r == hid_ioctl_number(7, len),
{
    let dir: u64 = 0xC0000000;
    let typ: u64 = 0x48u64 << 8u64;
    let nr: u64 = 0x07;
    let size: u64 = len << 16u64;
    dir | size | typ | nr
}

/// How a reply reports a failed command.
#[derive(Debug, Clone, Copy, PartialEq, Eq, Structural)]
pub enum RazerStatusError {
    /// Status 0x03.
    CommandFailed,
    /// Status 0x04.
    Timeout,
    /// Status 0x05.
    NotSupported,
}

/// The failure that a reply's status byte reports, if any; some devices answer a
/// successful get with status 0x00, so every other status counts as success.
pub open spec fn reply_status_spec(status: u8) -> Option<RazerStatusError> {
    if status == 0x03 {
        Some(RazerStatusError::CommandFailed)
    } else if status == 0x04 {
        Some(RazerStatusError::Timeout)
    } else if status == 0x05 {
        Some(RazerStatusError::NotSupported)
    } else {
        None
    }
}

/// Checks the status byte of a reply.
pub fn reply_status(resp: &[u8; 90]) -> (r: Option<RazerStatusError>)
    ensures
        r == reply_status_spec(resp@[0]),
{
    match resp[0] {
        0x03 => Some(RazerStatusError::CommandFailed),
        0x04 => Some(RazerStatusError::Timeout),
        0x05 => Some(RazerStatusError::NotSupported),
        _ => None,
    }
}

/// XOR of all bytes of `s`.
pub open spec fn xor_all(s: Seq<u8>) -> u8
    decreases s.len(),
{
    if s.len() == 0 {
        0
    } else {
        xor_all(s.drop_last()) ^ s.last()
    }
}

/// A report before its CRC: header fields, then up to 80 argument bytes.
pub open spec fn packet_body(class: u8, cmd: u8, data_size: u8, args: Seq<u8>) -> Seq<u8> {
    Seq::new(90, |i: int|
        if i == 1 {
            TRANSACTION_ID
        } else if i == 5 {
            data_size
        } else if i == 6 {
            class
        } else if i == 7 {
            cmd
        } else if 8 <= i < 8 + args.len() && i < 88 {
            args[i - 8]
        } else {
            0u8
        })
}

/// A complete report: the body with byte 88 set to the XOR of bytes 2 through 87.
pub open spec fn packet_spec(class: u8, cmd: u8, data_size: u8, args: Seq<u8>) -> Seq<u8> {
    let body = packet_body(class, cmd, data_size, args);
    body.update(88, xor_all(body.subrange(2, 88)))
}

pub fn build_packet(class: u8, cmd: u8, data_size: u8, args: &[u8]) -> (r: [u8; 90])
    ensures
        r@ == packet_spec(class, cmd, data_size, args@),
        r@[88] == xor_all(r@.subrange(2, 88)),
{
    let mut pkt = [0u8; 90];
    pkt[0] = 0x00;
    pkt[1] = TRANSACTION_ID;
    pkt[4] = 0x00;
    pkt[5] = data_size;
    pkt[6] = class;
    pkt[7] = cmd;
    let len = if args.len() < 80 { args.len() } else { 80 };
    let mut i: usize = 0;
    while i < len
        invariant
            len <= 80,
            len <= args@.len(),
            len == args@.len() || len == 80,
            i <= len,
            forall|j: int| 0 <= j < 90 && !(8 <= j < 8 + i) ==> pkt@[j] == packet_body(class, cmd, data_size, args@)[j]
                || (8 + i <= j < 88),
            forall|j: int| 8 + i <= j < 88 ==> pkt@[j] == 0,
            forall|j: int| 8 <= j < 8 + i ==> pkt@[j] == args@[j - 8],
            pkt@[0] == 0 && pkt@[1] == TRANSACTION_ID && pkt@[2] == 0 && pkt@[3] == 0 && pkt@[4] == 0
                && pkt@[5] == data_size && pkt@[6] == class && pkt@[7] == cmd,
            pkt@[88] == 0 && pkt@[89] == 0,
        decreases len - i,
    {
        pkt[8 + i] = args[i];
        i = i + 1;
    }
    assert(pkt@ =~= packet_body(class, cmd, data_size, args@));
    let ghost body = pkt@;
    let mut crc: u8 = 0;
    let mut k: usize = 2;
    while k < 88
        invariant
            2 <= k <= 88,
            pkt@ == body,
            crc == xor_all(body.subrange(2, k as int)),
        decreases 88 - k,
    {
        assert(body.subrange(2, k + 1).drop_last() =~= body.subrange(2, k as int));
        crc = crc ^ pkt[k];
        k = k + 1;
    }
    pkt[88] = crc;
    assert(pkt@.subrange(2, 88) =~= body.subrange(2, 88));
    pkt
}

// --- DPI ---

/// Request: current DPI (X and Y).
pub fn get_dpi_request() -> (r: [u8; 90])
    ensures
        r@ == packet_spec(CLASS_DPI, CMD_GET_DPI_XY, 0x07, seq![0u8, 0u8, 0u8, 0u8, 0u8, 0u8, 0u8]),
{
    let args = [0u8; 7];
    assert(args@ =~= seq![0u8, 0u8, 0u8, 0u8, 0u8, 0u8, 0u8]);
    build_packet(CLASS_DPI, CMD_GET_DPI_XY, 0x07, &args)
}

/// A big-endian 16-bit value.
pub open spec fn be16(hi: u8, lo: u8) -> u16 {
    (256 * hi + lo) as u16
}

/// Reads the DPI reply: X from bytes 9 and 10, Y from bytes 11 and 12, big-endian.
pub fn parse_dpi(resp: &[u8; 90]) -> (r: (u16, u16))
    ensures
        r == (be16(resp@[9], resp@[10]), be16(resp@[11], resp@[12])),
{
    let dpi_x = 256 * (resp[9] as u16) + resp[10] as u16;
    let dpi_y = 256 * (resp[11] as u16) + resp[12] as u16;
    (dpi_x, dpi_y)
}

/// Request: set DPI, X and Y to the same value.
pub fn set_dpi_request(dpi: u16) -> (r: [u8; 90])
    ensures
        r@ == packet_spec(CLASS_DPI, CMD_SET_DPI_XY, 0x07, seq![
            0u8, (dpi / 256) as u8, (dpi % 256) as u8, (dpi / 256) as u8, (dpi % 256) as u8, 0u8, 0u8,
        ]),
{
    let hi = (dpi / 256) as u8;
    let lo = (dpi % 256) as u8;
    let args = [0x00, hi, lo, hi, lo, 0x00, 0x00];
    assert(args@ =~= seq![0u8, hi, lo, hi, lo, 0u8, 0u8]);
    build_packet(CLASS_DPI, CMD_SET_DPI_XY, 0x07, &args)
}

// --- Polling rate ---

pub open spec fn rate_to_byte_spec(hz: u16) -> Option<u8> {
    if hz == 1000 {
        Some(RATE_1000HZ)
    } else if hz == 500 {
        Some(RATE_500HZ)
    } else if hz == 250 {
        Some(RATE_250HZ)
    } else if hz == 125 {
        Some(RATE_125HZ)
    } else {
        None
    }
}

pub open spec fn byte_to_rate_spec(b: u8) -> u16 {
    if b == RATE_1000HZ {
        1000
    } else if b == RATE_500HZ {
        500
    } else if b == RATE_250HZ {
        250
    } else if b == RATE_125HZ {
        125
    } else {
        1000
    }
}

pub fn rate_to_byte(hz: u16) -> (r: Option<u8>)
    ensures
        r == rate_to_byte_spec(hz),
{
    match hz {
        1000 => Some(RATE_1000HZ),
        500 => Some(RATE_500HZ),
        250 => Some(RATE_250HZ),
        125 => Some(RATE_125HZ),
        _ => None,
    }
}

pub fn byte_to_rate(b: u8) -> (r: u16)
    ensures
        r == byte_to_rate_spec(b),
{
    if b == RATE_1000HZ {
        1000
    } else if b == RATE_500HZ {
        500
    } else if b == RATE_250HZ {
        250
    } else if b == RATE_125HZ {
        125
    } else {
        1000
    }
}

/// The four supported rates survive the trip to the wire byte and back, and no other
/// rate has a wire byte.
pub proof fn lemma_rate_roundtrip(hz: u16)
    ensures
        rate_to_byte_spec(hz) is Some <==> (hz == 125 || hz == 250 || hz == 500 || hz == 1000),
        rate_to_byte_spec(hz) matches Some(b) ==> byte_to_rate_spec(b) == hz,
{
}

/// Request: current polling rate.
pub fn get_polling_rate_request() -> (r: [u8; 90])
    ensures
        r@ == packet_spec(CLASS_MISC, CMD_GET_POLLING_RATE, 0x01, seq![0u8]),
{
    let args = [0u8; 1];
    assert(args@ =~= seq![0u8]);
    build_packet(CLASS_MISC, CMD_GET_POLLING_RATE, 0x01, &args)
}

/// Reads the polling-rate reply (unknown bytes read as 1000 Hz).
pub fn parse_polling_rate(resp: &[u8; 90]) -> (r: u16)
    ensures
        r == byte_to_rate_spec(resp@[8]),
{
    byte_to_rate(resp[8])
}

pub open spec fn set_polling_rate_spec(hz: u16) -> Option<Seq<u8>> {
    match rate_to_byte_spec(hz) {
        Some(b) => Some(packet_spec(CLASS_MISC, CMD_SET_POLLING_RATE, 0x01, seq![b])),
        None => None,
    }
}

/// Request: set the polling rate; `None` when the rate is not one of 125, 250, 500, 1000.
pub fn set_polling_rate_request(hz: u16) -> (r: Option<[u8; 90]>)
    ensures
        match r {
            Some(p) => set_polling_rate_spec(hz) == Some(p@),
            None => set_polling_rate_spec(hz) is None,
        },
{
    match rate_to_byte(hz) {
        Some(b) => {
            let args = [b];
            assert(args@ =~= seq![b]);
            Some(build_packet(CLASS_MISC, CMD_SET_POLLING_RATE, 0x01, &args))
        },
        None => None,
    }
}

// --- LEDs ---

pub open spec fn led_id_from_name_spec(name: Seq<char>) -> Option<u8> {
    if name == "logo"@ {
        Some(LED_LOGO)
    } else if name == "scroll"@ {
        Some(LED_SCROLL)
    } else {
        None
    }
}

pub fn led_id_from_name(name: &str) -> (r: Option<u8>)
    ensures
        r == led_id_from_name_spec(name@),
{
    if str_eq(name, "logo") {
        Some(LED_LOGO)
    } else if str_eq(name, "scroll") {
        Some(LED_SCROLL)
    } else {
        None
    }
}

/// The LED id of zone `i`: logo, then scroll wheel, then logo for any further zone.
pub open spec fn led_id_for_zone_spec(i: int) -> u8 {
    if i == 1 {
        LED_SCROLL
    } else {
        LED_LOGO
    }
}

pub fn led_id_for_zone(i: usize) -> (r: u8)
    ensures
        r == led_id_for_zone_spec(i as int),
{
    if i == 1 {
        LED_SCROLL
    } else {
        LED_LOGO
    }
}

/// Request: the color of one LED.
pub fn get_led_rgb_request(led_id: u8) -> (r: [u8; 90])
    ensures
        r@ == packet_spec(CLASS_LED, CMD_GET_LED_RGB, 0x05, seq![0u8, led_id, 0u8, 0u8, 0u8]),
{
    let args = [0x00, led_id, 0, 0, 0];
    assert(args@ =~= seq![0u8, led_id, 0u8, 0u8, 0u8]);
    build_packet(CLASS_LED, CMD_GET_LED_RGB, 0x05, &args)
}

/// Reads the color reply: red, green, blue at bytes 10, 11, 12.
pub fn parse_led_rgb(resp: &[u8; 90]) -> (r: (u8, u8, u8))
    ensures
        r == (resp@[10], resp@[11], resp@[12]),
{
    (resp[10], resp[11], resp[12])
}

/// Request: set the color of one LED.
pub fn set_led_rgb_request(led_id: u8, r: u8, g: u8, b: u8) -> (p: [u8; 90])
    ensures
        p@ == packet_spec(CLASS_LED, CMD_SET_LED_RGB, 0x05, seq![0u8, led_id, r, g, b]),
{
    let args = [0x00, led_id, r, g, b];
    assert(args@ =~= seq![0u8, led_id, r, g, b]);
    build_packet(CLASS_LED, CMD_SET_LED_RGB, 0x05, &args)
}

/// Request: the brightness of one LED.
pub fn get_led_brightness_request(led_id: u8) -> (r: [u8; 90])
    ensures
        r@ == packet_spec(CLASS_LED, CMD_GET_LED_BRIGHTNESS, 0x03, seq![0u8, led_id, 0u8]),
{
    let args = [0x00, led_id, 0];
    assert(args@ =~= seq![0u8, led_id, 0u8]);
    build_packet(CLASS_LED, CMD_GET_LED_BRIGHTNESS, 0x03, &args)
}

/// Request: set the brightness of one LED.
pub fn set_led_brightness_request(led_id: u8, brightness: u8) -> (r: [u8; 90])
    ensures
        r@ == packet_spec(CLASS_LED, CMD_SET_LED_BRIGHTNESS, 0x03, seq![0u8, led_id, brightness]),
{
    let args = [0x00, led_id, brightness];
    assert(args@ =~= seq![0u8, led_id, brightness]);
    build_packet(CLASS_LED, CMD_SET_LED_BRIGHTNESS, 0x03, &args)
}

/// Request: the effect of one LED.
pub fn get_led_effect_request(led_id: u8) -> (r: [u8; 90])
    ensures
        r@ == packet_spec(CLASS_LED, CMD_GET_LED_EFFECT, 0x03, seq![0u8, led_id, 0u8]),
{
    let args = [0x00, led_id, 0];
    assert(args@ =~= seq![0u8, led_id, 0u8]);
    build_packet(CLASS_LED, CMD_GET_LED_EFFECT, 0x03, &args)
}

/// Request: set the effect of one LED.
pub fn set_led_effect_request(led_id: u8, effect: u8) -> (r: [u8; 90])
    ensures
        r@ == packet_spec(CLASS_LED, CMD_SET_LED_EFFECT, 0x03, seq![0u8, led_id, effect]),
{
    let args = [0x00, led_id, effect];
    assert(args@ =~= seq![0u8, led_id, effect]);
    build_packet(CLASS_LED, CMD_SET_LED_EFFECT, 0x03, &args)
}

/// Reads a one-byte LED reply (brightness or effect) at byte 10.
pub fn parse_led_byte(resp: &[u8; 90]) -> (r: u8)
    ensures
        r == resp@[10],
{
    resp[10]
}

pub open spec fn razer_effect_to_led_mode_spec(effect: u8) -> LedMode {
    if effect == EFFECT_BREATHING {
        LedMode::Breathing
    } else if effect == EFFECT_SPECTRUM {
        LedMode::Cycle
    } else {
        LedMode::Static
    }
}

pub open spec fn led_mode_to_razer_effect_spec(mode: LedMode) -> u8 {
    match mode {
        LedMode::Static => EFFECT_STATIC,
        LedMode::Breathing => EFFECT_BREATHING,
        LedMode::Cycle | LedMode::Rainbow => EFFECT_SPECTRUM,
        _ => EFFECT_STATIC,
    }
}

pub fn razer_effect_to_led_mode(effect: u8) -> (r: LedMode)
    ensures
        r == razer_effect_to_led_mode_spec(effect),
{
    match effect {
        EFFECT_STATIC => LedMode::Static,
        EFFECT_BREATHING => LedMode::Breathing,
        EFFECT_SPECTRUM => LedMode::Cycle,
        _ => LedMode::Static,
    }
}

pub fn led_mode_to_razer_effect(mode: LedMode) -> (r: u8)
    ensures
        r == led_mode_to_razer_effect_spec(mode),
{
    match mode {
        LedMode::Static => EFFECT_STATIC,
        LedMode::Breathing => EFFECT_BREATHING,
        LedMode::Cycle | LedMode::Rainbow => EFFECT_SPECTRUM,
        _ => EFFECT_STATIC,
    }
}

/// The modes that a Razer LED can hold (static, breathing, cycle) survive the trip to the
/// effect byte and back; rainbow comes back as cycle, and every other mode as static.
pub proof fn lemma_effect_roundtrip(mode: LedMode)
    ensures
        razer_effect_to_led_mode_spec(led_mode_to_razer_effect_spec(mode)) == (match mode {
            LedMode::Breathing => LedMode::Breathing,
            LedMode::Cycle | LedMode::Rainbow => LedMode::Cycle,
            _ => LedMode::Static,
        }),
{
}

// --- High-level read/write ---

/// The LED settings read from the three replies of one zone.
pub open spec fn led_from_readings(rgb: (u8, u8, u8), brightness: u8, effect: u8) -> LedConfig {
    LedConfig { mode: razer_effect_to_led_mode_spec(effect), brightness, r: rgb.0, g: rgb.1, b: rgb.2 }
}

/// The DPI presets reported for one current DPI: repeated to the descriptor's preset count,
/// and at least once.
pub open spec fn padded_presets(dpi: u16, n: nat) -> Seq<u16> {
    Seq::new(if n == 0 { 1 } else { n }, |i: int| dpi)
}

/// The profile a Razer device reports: the current DPI as every preset, the polling rate,
/// the LED zones as read, the standard bindings (the kernel handles the buttons), and no
/// debounce or angle snapping.
pub open spec fn read_profile_spec(d: DescriptorView, dpi_x: u16, polling_rate: u16, leds: Seq<((u8, u8, u8), u8, u8)>) -> ProfileView {
    ProfileView {
        buttons: Seq::new(d.button_slots.len(), |i: int| ButtonBinding {
            action_code: button_code_byte(d.button_slots[i]),
            kind: BindingKind::Mouse,
        }),
        dpi_presets: padded_presets(dpi_x, d.num_dpi_presets as nat),
        polling_rate,
        debounce_ms: 0,
        angle_snapping: false,
        leds: Seq::new(leds.len(), |i: int| led_from_readings(leds[i].0, leds[i].1, leds[i].2)),
    }
}

/// The standard binding of every slot.
pub fn default_bindings(desc: &DeviceDescriptor) -> (r: Vec<ButtonBinding>)
    ensures
        r@ == Seq::new(desc@.button_slots.len(), |i: int| ButtonBinding {
            action_code: button_code_byte(desc@.button_slots[i]),
            kind: BindingKind::Mouse,
        }),
{
    let mut buttons: Vec<ButtonBinding> = Vec::with_capacity(desc.button_slots.len());
    let mut i: usize = 0;
    while i < desc.button_slots.len()
        invariant
            i <= desc.button_slots@.len(),
            buttons@ =~= Seq::new(i as nat, |j: int| ButtonBinding {
                action_code: button_code_byte(desc@.button_slots[j]),
                kind: BindingKind::Mouse,
            }),
        decreases desc.button_slots@.len() - i,
    {
        buttons.push(ButtonBinding::mouse_action(desc.button_slots[i]));
        i = i + 1;
    }
    buttons
}

/// Builds the profile of a Razer device from its replies: the current DPI, the polling
/// rate, and for each LED zone its color, brightness and effect.
pub fn read_profile(
    desc: &DeviceDescriptor,
    dpi_x: u16,
    polling_rate: u16,
    led_readings: &Vec<((u8, u8, u8), u8, u8)>,
) -> (r: DeviceProfile)
    ensures
        r@ == read_profile_spec(desc@, dpi_x, polling_rate, led_readings@),
{
    // Razer has one "current" DPI and no presets on the wire: pad to the expected count.
    let mut dpi_presets: Vec<u16> = Vec::new();
    dpi_presets.push(dpi_x);
    while dpi_presets.len() < desc.num_dpi_presets
        invariant
            1 <= dpi_presets@.len() <= (if desc.num_dpi_presets == 0 { 1 } else { desc.num_dpi_presets as int }),
            forall|j: int| 0 <= j < dpi_presets@.len() ==> dpi_presets@[j] == dpi_x,
        decreases desc.num_dpi_presets - dpi_presets@.len(),
    {
        dpi_presets.push(dpi_x);
    }
    assert(dpi_presets@ =~= padded_presets(dpi_x, desc.num_dpi_presets as nat));

    let mut leds: Vec<LedConfig> = Vec::with_capacity(led_readings.len());
    let mut i: usize = 0;
    while i < led_readings.len()
        invariant
            i <= led_readings@.len(),
            leds@ =~= Seq::new(i as nat, |j: int| led_from_readings(led_readings@[j].0, led_readings@[j].1, led_readings@[j].2)),
        decreases led_readings@.len() - i,
    {
        let (rgb, brightness, effect) = led_readings[i];
        leds.push(LedConfig { mode: razer_effect_to_led_mode(effect), brightness, r: rgb.0, g: rgb.1, b: rgb.2 });
        i = i + 1;
    }

    let buttons = default_bindings(desc);
    DeviceProfile {
        buttons,
        settings: Settings { dpi_presets, polling_rate, debounce_ms: 0, angle_snapping: false },
        leds,
    }
}

/// Why a profile cannot be written to a Razer device.
#[derive(Debug, Clone, Copy, PartialEq, Eq, Structural)]
pub enum RazerError {
    DpiOutOfRange { dpi: u16, min: u16, max: u16 },
    InvalidPollingRate(u16),
}

pub open spec fn report_result_view(r: Result<[u8; 90], RazerError>) -> Result<Seq<u8>, RazerError> {
    match r {
        Ok(p) => Ok(p@),
        Err(e) => Err(e),
    }
}

pub open spec fn led_writes_spec(i: int, led: LedConfig) -> Seq<Result<Seq<u8>, RazerError>> {
    let id = led_id_for_zone_spec(i);
    seq![
        Ok(packet_spec(CLASS_LED, CMD_SET_LED_RGB, 0x05, seq![0u8, id, led.r, led.g, led.b])),
        Ok(packet_spec(CLASS_LED, CMD_SET_LED_BRIGHTNESS, 0x03, seq![0u8, id, led.brightness])),
        Ok(packet_spec(CLASS_LED, CMD_SET_LED_EFFECT, 0x03, seq![0u8, id, led_mode_to_razer_effect_spec(led.mode)])),
    ]
}

pub open spec fn led_writes_upto(leds: Seq<LedConfig>, n: int) -> Seq<Result<Seq<u8>, RazerError>>
    decreases n,
{
    if n <= 0 {
        Seq::empty()
    } else {
        led_writes_upto(leds, n - 1) + led_writes_spec(n - 1, leds[n - 1])
    }
}

/// The writes that apply a profile, in order: the first DPI preset as the current DPI
/// (checked against the range first), the polling rate, then color, brightness and effect
/// of every LED zone. A write that the profile makes invalid stands as its error.
pub open spec fn apply_profile_steps_spec(d: DescriptorView, p: ProfileView) -> Seq<Result<Seq<u8>, RazerError>> {
    let dpi_part: Seq<Result<Seq<u8>, RazerError>> = if p.dpi_presets.len() == 0 {
        Seq::empty()
    } else {
        let dpi = p.dpi_presets[0];
        if dpi < d.dpi_min || dpi > d.dpi_max {
            seq![Err(RazerError::DpiOutOfRange { dpi, min: d.dpi_min, max: d.dpi_max })]
        } else {
            seq![Ok(packet_spec(CLASS_DPI, CMD_SET_DPI_XY, 0x07, seq![
                0u8, (dpi / 256) as u8, (dpi % 256) as u8, (dpi / 256) as u8, (dpi % 256) as u8, 0u8, 0u8,
            ]))]
        }
    };
    let rate_part: Seq<Result<Seq<u8>, RazerError>> = match set_polling_rate_spec(p.polling_rate) {
        Some(pkt) => seq![Ok(pkt)],
        None => seq![Err(RazerError::InvalidPollingRate(p.polling_rate))],
    };
    dpi_part + rate_part + led_writes_upto(p.leds, p.leds.len() as int)
}

pub open spec fn steps_view(s: Seq<Result<[u8; 90], RazerError>>) -> Seq<Result<Seq<u8>, RazerError>> {
    Seq::new(s.len(), |i: int| report_result_view(s[i]))
}

/// The writes that apply a profile (see `apply_profile_steps_spec`).
pub fn apply_profile_steps(desc: &DeviceDescriptor, profile: &DeviceProfile) -> (r: Vec<Result<[u8; 90], RazerError>>)
    ensures
        steps_view(r@) == apply_profile_steps_spec(desc@, profile@),
{
    let ghost d = desc@;
    let ghost p = profile@;
    let mut steps: Vec<Result<[u8; 90], RazerError>> = Vec::new();
    // DPI: apply the first preset as the active DPI
    if profile.settings.dpi_presets.len() > 0 {
        let dpi = profile.settings.dpi_presets[0];
        if dpi < desc.dpi_min || dpi > desc.dpi_max {
            steps.push(Err(RazerError::DpiOutOfRange { dpi, min: desc.dpi_min, max: desc.dpi_max }));
        } else {
            steps.push(Ok(set_dpi_request(dpi)));
        }
    }
    let ghost after_dpi = steps@;
    let rate_step = match set_polling_rate_request(profile.settings.polling_rate) {
        Some(pkt) => Ok(pkt),
        None => Err(RazerError::InvalidPollingRate(profile.settings.polling_rate)),
    };
    steps.push(rate_step);
    assert(steps_view(steps@) =~= steps_view(after_dpi).push(report_result_view(rate_step)));
    let ghost fixed = steps_view(steps@);
    assert(fixed + led_writes_upto(p.leds, 0) =~= fixed);

    let mut i: usize = 0;
    while i < profile.leds.len()
        invariant
            p == profile@,
            i <= p.leds.len(),
            steps_view(steps@) =~= fixed + led_writes_upto(p.leds, i as int),
        decreases p.leds.len() - i,
    {
        let led = profile.leds[i];
        let id = led_id_for_zone(i);
        let a = Ok(set_led_rgb_request(id, led.r, led.g, led.b));
        let b = Ok(set_led_brightness_request(id, led.brightness));
        let c = Ok(set_led_effect_request(id, led_mode_to_razer_effect(led.mode)));
        let ghost old = steps@;
        steps.push(a);
        steps.push(b);
        steps.push(c);
        assert(steps_view(steps@) =~= steps_view(old) + led_writes_spec(i as int, p.leds[i as int]));
        i = i + 1;
    }
    steps
}


/// Only the first DPI preset, the polling rate and the LEDs reach a Razer device: two
/// profiles that agree on those are written alike, whatever their other presets, debounce
/// time, angle snapping and buttons.
pub proof fn lemma_razer_writes_ignore_the_rest(d: DescriptorView, p: ProfileView, q: ProfileView)
    requires
        (p.dpi_presets.len() == 0) == (q.dpi_presets.len() == 0),
        p.dpi_presets.len() > 0 ==> p.dpi_presets[0] == q.dpi_presets[0],
        p.polling_rate == q.polling_rate,
        p.leds == q.leds,
    ensures
        apply_profile_steps_spec(d, p) == apply_profile_steps_spec(d, q),
{
}


/// The polling-rate byte is the report period in milliseconds: the four accepted rates,
/// and no others, have a byte, and byte times rate is 1000. Reading the bytes 1, 2, 4 and
/// 8 gives the rate whose period they are; any other byte reads as 1000 Hz.
pub proof fn lemma_rate_byte_is_period(hz: u16, b: u8)
    ensures
        rate_to_byte_spec(hz) is Some <==> (hz == 125 || hz == 250 || hz == 500 || hz == 1000),
        rate_to_byte_spec(hz) matches Some(x) ==> x * hz == 1000,
        (b == 1 || b == 2 || b == 4 || b == 8) ==> b * byte_to_rate_spec(b) == 1000,
        !(b == 1 || b == 2 || b == 4 || b == 8) ==> byte_to_rate_spec(b) == 1000,
{
}

} // verus!
