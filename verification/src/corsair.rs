//! Corsair NXP protocol: 64-byte interrupt reports over hidraw.
//!
//! Packet format (Scimitar RGB Elite, PID 0x1B8B):
//!   [0]     Command (0x07=SET, 0x0E=GET)
//!   [1]     Field
//!   [2]     Subcommand
//!   [3]     Profile (0x00=current, 0x01=HW storage)
//!   [4..64] Payload
//!
//! This module builds the packets and reads the replies; sending them, and the
//! pauses the device needs between them, are the caller's part.
use vstd::prelude::*;
use crate::devices::{DescriptorView, DeviceDescriptor};
use crate::protocol::zero_packet;
use crate::types::{BindingKind, ButtonBinding, DeviceProfile, LedConfig, LedMode, ProfileView, Settings, button_code_byte};

verus! {

pub const PACKET_SIZE: usize = 64;

// Commands
pub const CMD_SET: u8 = 0x07;
pub const CMD_GET: u8 = 0x0E;

// Fields
pub const FIELD_SPECIAL: u8 = 0x04;
pub const FIELD_POLLRATE: u8 = 0x0A;
pub const FIELD_MOUSE: u8 = 0x13;
pub const FIELD_M_COLOR: u8 = 0x22;

// Special subcommands
pub const MODE_SOFTWARE: u8 = 0x02;
pub const MODE_HARDWARE: u8 = 0x01;

// Mouse DPI subcommands
/// OR'd with the stage index.
pub const MOUSE_DPI_STAGE: u8 = 0xD0;
pub const MOUSE_DPI_SELECT: u8 = 0x02;

// Polling rate values (interval in ms)
pub const RATE_1MS: u8 = 1;
pub const RATE_2MS: u8 = 2;
pub const RATE_4MS: u8 = 4;
pub const RATE_8MS: u8 = 8;

/// A packet with the four header bytes set and zeros elsewhere.
pub open spec fn packet_spec(cmd: u8, field: u8, sub: u8, profile: u8) -> Seq<u8> {
    zero_packet(64).update(0, cmd).update(1, field).update(2, sub).update(3, profile)
}

pub fn make_packet(cmd: u8, field: u8, sub: u8, profile: u8) -> (r: [u8; 64])
    ensures
        r@ == packet_spec(cmd, field, sub, profile),
{
    let mut pkt = [0u8; 64];
    pkt[0] = cmd;
    pkt[1] = field;
    pkt[2] = sub;
    pkt[3] = profile;
    assert(pkt@ =~= packet_spec(cmd, field, sub, profile));
    pkt
}

/// Packet: switch the device to software control mode (required before other commands).
pub fn software_mode_packet() -> (r: [u8; 64])
    ensures
        r@ == packet_spec(CMD_SET, FIELD_SPECIAL, MODE_SOFTWARE, 0),
{
    make_packet(CMD_SET, FIELD_SPECIAL, MODE_SOFTWARE, 0)
}

/// Packet: switch the device back to hardware mode.
pub fn hardware_mode_packet() -> (r: [u8; 64])
    ensures
        r@ == packet_spec(CMD_SET, FIELD_SPECIAL, MODE_HARDWARE, 0),
{
    make_packet(CMD_SET, FIELD_SPECIAL, MODE_HARDWARE, 0)
}

// --- DPI ---

/// Request: the DPI of one stage, from hardware storage.
pub fn get_dpi_stage_request(stage: u8) -> (r: [u8; 64])
    ensures
        r@ == packet_spec(CMD_GET, FIELD_MOUSE, MOUSE_DPI_STAGE | stage, 0x01),
{
    make_packet(CMD_GET, FIELD_MOUSE, MOUSE_DPI_STAGE | stage, 0x01)
}

/// A big-endian 16-bit value.
pub open spec fn be16(hi: u8, lo: u8) -> u16 {
    (256 * hi + lo) as u16
}

/// Reads a DPI stage reply: X from bytes 5 and 6, Y from bytes 7 and 8, big-endian.
pub fn parse_dpi_stage(resp: &[u8; 64]) -> (r: (u16, u16))
    ensures
        r == (be16(resp@[5], resp@[6]), be16(resp@[7], resp@[8])),
{
    let dpi_x = 256 * (resp[5] as u16) + resp[6] as u16;
    let dpi_y = 256 * (resp[7] as u16) + resp[8] as u16;
    (dpi_x, dpi_y)
}

pub open spec fn set_dpi_stage_spec(stage: u8, dpi_x: u16, dpi_y: u16) -> Seq<u8> {
    packet_spec(CMD_SET, FIELD_MOUSE, MOUSE_DPI_STAGE | stage, 0x00)
        .update(4, if dpi_x != dpi_y { 1u8 } else { 0u8 })
        .update(5, (dpi_x / 256) as u8)
        .update(6, (dpi_x % 256) as u8)
        .update(7, (dpi_y / 256) as u8)
        .update(8, (dpi_y % 256) as u8)
}

/// Packet: set the DPI of one stage (byte 4 flags independent X/Y).
pub fn set_dpi_stage_packet(stage: u8, dpi_x: u16, dpi_y: u16) -> (r: [u8; 64])
    ensures
        r@ == set_dpi_stage_spec(stage, dpi_x, dpi_y),
{
    let mut pkt = make_packet(CMD_SET, FIELD_MOUSE, MOUSE_DPI_STAGE | stage, 0x00);
    pkt[4] = if dpi_x != dpi_y { 0x01 } else { 0x00 };
    pkt[5] = (dpi_x / 256) as u8;
    pkt[6] = (dpi_x % 256) as u8;
    pkt[7] = (dpi_y / 256) as u8;
    pkt[8] = (dpi_y % 256) as u8;
    pkt
}

/// Packet: make one stage the active DPI stage.
pub fn select_dpi_stage_packet(stage: u8) -> (r: [u8; 64])
    ensures
        r@ == packet_spec(CMD_SET, FIELD_MOUSE, MOUSE_DPI_SELECT, 0x00).update(4, stage),
{
    let mut pkt = make_packet(CMD_SET, FIELD_MOUSE, MOUSE_DPI_SELECT, 0x00);
    pkt[4] = stage;
    pkt
}

// --- Polling rate ---

pub open spec fn hz_to_interval_spec(hz: u16) -> Option<u8> {
    if hz == 1000 {
        Some(RATE_1MS)
    } else if hz == 500 {
        Some(RATE_2MS)
    } else if hz == 250 {
        Some(RATE_4MS)
    } else if hz == 125 {
        Some(RATE_8MS)
    } else {
        None
    }
}

pub open spec fn interval_to_hz_spec(interval: u8) -> u16 {
    if interval == RATE_1MS {
        1000
    } else if interval == RATE_2MS {
        500
    } else if interval == RATE_4MS {
        250
    } else if interval == RATE_8MS {
        125
    } else {
        1000
    }
}

pub fn hz_to_interval(hz: u16) -> (r: Option<u8>)
    ensures
        r == hz_to_interval_spec(hz),
{
    match hz {
        1000 => Some(RATE_1MS),
        500 => Some(RATE_2MS),
        250 => Some(RATE_4MS),
        125 => Some(RATE_8MS),
        _ => None,
    }
}

pub fn interval_to_hz(interval: u8) -> (r: u16)
    ensures
        r == interval_to_hz_spec(interval),
{
    if interval == RATE_1MS {
        1000
    } else if interval == RATE_2MS {
        500
    } else if interval == RATE_4MS {
        250
    } else if interval == RATE_8MS {
        125
    } else {
        1000
    }
}

/// The four supported rates survive the trip to the interval byte and back, and no other
/// rate has an interval.
pub proof fn lemma_interval_roundtrip(hz: u16)
    ensures
        hz_to_interval_spec(hz) is Some <==> (hz == 125 || hz == 250 || hz == 500 || hz == 1000),
        hz_to_interval_spec(hz) matches Some(i) ==> interval_to_hz_spec(i) == hz,
{
}

/// Request: the current polling rate.
pub fn get_polling_rate_request() -> (r: [u8; 64])
    ensures
        r@ == packet_spec(CMD_GET, FIELD_POLLRATE, 0x00, 0x00),
{
    make_packet(CMD_GET, FIELD_POLLRATE, 0x00, 0x00)
}

/// Reads the polling-rate reply (unknown intervals read as 1000 Hz).
pub fn parse_polling_rate(resp: &[u8; 64]) -> (r: u16)
    ensures
        r == interval_to_hz_spec(resp@[4]),
{
    interval_to_hz(resp[4])
}

pub open spec fn set_polling_rate_spec(hz: u16) -> Option<Seq<u8>> {
    match hz_to_interval_spec(hz) {
        Some(i) => Some(packet_spec(CMD_SET, FIELD_POLLRATE, 0x00, 0x00).update(4, i)),
        None => None,
    }
}

/// Packet: set the polling rate; `None` when the rate is not one of 125, 250, 500, 1000.
pub fn set_polling_rate_packet(hz: u16) -> (r: Option<[u8; 64]>)
    ensures
        match r {
            Some(p) => set_polling_rate_spec(hz) == Some(p@),
            None => set_polling_rate_spec(hz) is None,
        },
{
    match hz_to_interval(hz) {
        Some(interval) => {
            let mut pkt = make_packet(CMD_SET, FIELD_POLLRATE, 0x00, 0x00);
            pkt[4] = interval;
            Some(pkt)
        },
        None => None,
    }
}

// --- LEDs ---

/// The LED packet for the given zones: the zone count (as a byte) in the subcommand, then
/// (zone id, red, green, blue) from byte 4 for as many zones as fit, at most 15.
pub open spec fn set_led_colors_spec(zones: Seq<(u8, u8, u8, u8)>) -> Seq<u8> {
    Seq::new(64, |k: int|
        if k < 4 {
            packet_spec(CMD_SET, FIELD_M_COLOR, zones.len() as u8, 0x01)[k]
        } else if k < 64 && (k - 4) / 4 < zones.len() && (k - 4) / 4 < 15 {
            let z = zones[(k - 4) / 4];
            let off = (k - 4) % 4;
            if off == 0 {
                z.0
            } else if off == 1 {
                z.1
            } else if off == 2 {
                z.2
            } else {
                z.3
            }
        } else {
            0u8
        })
}

/// Packet: set all LED zones at once; each zone is (zone id, red, green, blue).
pub fn set_led_colors_packet(zones: &Vec<(u8, u8, u8, u8)>) -> (r: [u8; 64])
    ensures
        r@ == set_led_colors_spec(zones@),
{
    let mut pkt = make_packet(CMD_SET, FIELD_M_COLOR, #[verifier::truncate] (zones.len() as u8), 0x01);
    let ghost header = packet_spec(CMD_SET, FIELD_M_COLOR, zones@.len() as u8, 0x01);
    let mut i: usize = 0;
    while i < zones.len()
        invariant
            i <= zones@.len(),
            i <= 15,
            forall|k: int| 0 <= k < 4 ==> pkt@[k] == header[k],
            forall|k: int| 4 <= k < 64 ==> #[trigger] pkt@[k] == (if (k - 4) / 4 < i {
                set_led_colors_spec(zones@)[k]
            } else {
                0u8
            }),
            header == packet_spec(CMD_SET, FIELD_M_COLOR, zones@.len() as u8, 0x01),
        ensures
            i == zones@.len() || i == 15,
            i <= zones@.len(),
            forall|k: int| 0 <= k < 4 ==> pkt@[k] == header[k],
            forall|k: int| 4 <= k < 64 ==> #[trigger] pkt@[k] == (if (k - 4) / 4 < i {
                set_led_colors_spec(zones@)[k]
            } else {
                0u8
            }),
        decreases zones@.len() - i,
    {
        let offset = 4 + i * 4;
        if offset + 3 >= 64 {
            break;
        }
        let (zone_id, r, g, b) = zones[i];
        pkt[offset] = zone_id;
        pkt[offset + 1] = r;
        pkt[offset + 2] = g;
        pkt[offset + 3] = b;
        i = i + 1;
    }
    proof {
        assert forall|k: int| 0 <= k < 64 implies pkt@[k] == set_led_colors_spec(zones@)[k] by {
            if k >= 4 && (k - 4) / 4 >= i {
                assert(i == zones@.len() || i == 15);
            }
        }
    }
    assert(pkt@ =~= set_led_colors_spec(zones@));
    pkt
}

/// The zone id of LED zone `i`: 1 through 4 for logo, scroll, side panel and DPI indicator,
/// and `i + 1` (as a byte) after those.
pub open spec fn zone_id_spec(i: int) -> u8 {
    (i + 1) as u8
}

// --- High-level read/write ---

/// The profile a Corsair device reports: the DPI of each stage, the polling rate, LED
/// zones as static black at full brightness (the protocol has no clean read of them),
/// the standard bindings, and no debounce or angle snapping.
pub open spec fn read_profile_spec(d: DescriptorView, stages: Seq<u16>, polling_rate: u16) -> ProfileView {
    ProfileView {
        buttons: Seq::new(d.button_slots.len(), |i: int| ButtonBinding {
            action_code: button_code_byte(d.button_slots[i]),
            kind: BindingKind::Mouse,
        }),
        dpi_presets: stages,
        polling_rate,
        debounce_ms: 0,
        angle_snapping: false,
        leds: Seq::new(d.num_leds as nat, |i: int| LedConfig { mode: LedMode::Static, brightness: 255, r: 0, g: 0, b: 0 }),
    }
}

/// Builds the profile of a Corsair device from the X DPI of each stage and the polling rate.
pub fn read_profile(desc: &DeviceDescriptor, stages: Vec<u16>, polling_rate: u16) -> (r: DeviceProfile)
    ensures
        r@ == read_profile_spec(desc@, stages@, polling_rate),
{
    let mut leds: Vec<LedConfig> = Vec::with_capacity(desc.num_leds);
    let mut i: usize = 0;
    while i < desc.num_leds
        invariant
            i <= desc.num_leds,
            leds@ =~= Seq::new(i as nat, |j: int| LedConfig { mode: LedMode::Static, brightness: 255, r: 0, g: 0, b: 0 }),
        decreases desc.num_leds - i,
    {
        leds.push(LedConfig { mode: LedMode::Static, brightness: 255, r: 0, g: 0, b: 0 });
        i = i + 1;
    }
    let buttons = crate::razer::default_bindings(desc);
    DeviceProfile {
        buttons,
        settings: Settings { dpi_presets: stages, polling_rate, debounce_ms: 0, angle_snapping: false },
        leds,
    }
}

/// Why a profile cannot be written to a Corsair device.
#[derive(Debug, Clone, Copy, PartialEq, Eq, Structural)]
pub enum CorsairError {
    DpiOutOfRange { preset: usize, dpi: u16, min: u16, max: u16 },
    InvalidPollingRate(u16),
}

pub open spec fn packet_result_view(r: Result<[u8; 64], CorsairError>) -> Result<Seq<u8>, CorsairError> {
    match r {
        Ok(p) => Ok(p@),
        Err(e) => Err(e),
    }
}

pub open spec fn dpi_stage_step_spec(d: DescriptorView, i: int, dpi: u16) -> Result<Seq<u8>, CorsairError> {
    if dpi < d.dpi_min || dpi > d.dpi_max {
        Err(CorsairError::DpiOutOfRange { preset: (i + 1) as usize, dpi, min: d.dpi_min, max: d.dpi_max })
    } else {
        Ok(set_dpi_stage_spec(i as u8, dpi, dpi))
    }
}

pub open spec fn led_zones_spec(leds: Seq<LedConfig>) -> Seq<(u8, u8, u8, u8)> {
    Seq::new(leds.len(), |i: int| (zone_id_spec(i), leds[i].r, leds[i].g, leds[i].b))
}

/// The writes that apply a profile while the device is in software mode, in order: every
/// DPI stage (checked against the range), selecting stage 0, the LED colors (when there
/// are zones), and the polling rate last since the device may re-enumerate after it. A
/// write that the profile makes invalid stands as its error.
pub open spec fn apply_profile_steps_spec(d: DescriptorView, p: ProfileView) -> Seq<Result<Seq<u8>, CorsairError>> {
    let dpi_part = Seq::new(p.dpi_presets.len(), |i: int| dpi_stage_step_spec(d, i, p.dpi_presets[i]));
    let select_part = seq![Ok::<Seq<u8>, CorsairError>(packet_spec(CMD_SET, FIELD_MOUSE, MOUSE_DPI_SELECT, 0x00).update(4, 0u8))];
    let led_part: Seq<Result<Seq<u8>, CorsairError>> = if p.leds.len() == 0 {
        Seq::empty()
    } else {
        seq![Ok(set_led_colors_spec(led_zones_spec(p.leds)))]
    };
    let rate_part: Seq<Result<Seq<u8>, CorsairError>> = match set_polling_rate_spec(p.polling_rate) {
        Some(pkt) => seq![Ok(pkt)],
        None => seq![Err(CorsairError::InvalidPollingRate(p.polling_rate))],
    };
    dpi_part + select_part + led_part + rate_part
}

pub open spec fn steps_view(s: Seq<Result<[u8; 64], CorsairError>>) -> Seq<Result<Seq<u8>, CorsairError>> {
    Seq::new(s.len(), |i: int| packet_result_view(s[i]))
}

/// The writes that apply a profile (see `apply_profile_steps_spec`).
pub fn apply_profile_steps(desc: &DeviceDescriptor, profile: &DeviceProfile) -> (r: Vec<Result<[u8; 64], CorsairError>>)
    requires
        profile.settings.dpi_presets@.len() < usize::MAX,
    ensures
        steps_view(r@) == apply_profile_steps_spec(desc@, profile@),
{
    let ghost d = desc@;
    let ghost p = profile@;
    let ghost dpi_part = Seq::new(p.dpi_presets.len(), |i: int| dpi_stage_step_spec(d, i, p.dpi_presets[i]));
    let mut steps: Vec<Result<[u8; 64], CorsairError>> = Vec::new();

    // DPI stages
    let mut i: usize = 0;
    while i < profile.settings.dpi_presets.len()
        invariant
            d == desc@,
            p == profile@,
            p.dpi_presets.len() < usize::MAX,
            dpi_part == Seq::new(p.dpi_presets.len(), |i: int| dpi_stage_step_spec(d, i, p.dpi_presets[i])),
            i <= p.dpi_presets.len(),
            steps_view(steps@) =~= dpi_part.take(i as int),
        decreases p.dpi_presets.len() - i,
    {
        let dpi = profile.settings.dpi_presets[i];
        let x = if dpi < desc.dpi_min || dpi > desc.dpi_max {
            Err(CorsairError::DpiOutOfRange { preset: i + 1, dpi, min: desc.dpi_min, max: desc.dpi_max })
        } else {
            Ok(set_dpi_stage_packet(#[verifier::truncate] (i as u8), dpi, dpi))
        };
        let ghost old = steps@;
        steps.push(x);
        assert(steps_view(steps@) =~= steps_view(old).push(packet_result_view(x)));
        assert(dpi_part.take(i + 1) =~= dpi_part.take(i as int).push(dpi_part[i as int]));
        i = i + 1;
    }
    assert(dpi_part.take(i as int) =~= dpi_part);

    let ghost old = steps@;
    let x = Ok(select_dpi_stage_packet(0));
    steps.push(x);
    assert(steps_view(steps@) =~= steps_view(old).push(packet_result_view(x)));

    // LEDs (before polling rate, which may cause disconnect)
    if profile.leds.len() > 0 {
        let mut zones: Vec<(u8, u8, u8, u8)> = Vec::with_capacity(profile.leds.len());
        let mut i: usize = 0;
        while i < profile.leds.len()
            invariant
                p == profile@,
                i <= p.leds.len(),
                zones@ =~= led_zones_spec(p.leds).take(i as int),
            decreases p.leds.len() - i,
        {
            let led = profile.leds[i];
            zones.push((#[verifier::truncate] ((i + 1) as u8), led.r, led.g, led.b));
            i = i + 1;
        }
        assert(led_zones_spec(p.leds).take(i as int) =~= led_zones_spec(p.leds));
        let ghost old = steps@;
        let x = Ok(set_led_colors_packet(&zones));
        steps.push(x);
        assert(steps_view(steps@) =~= steps_view(old).push(packet_result_view(x)));
    }

    // Polling rate last: the device may disconnect and re-enumerate
    let ghost old = steps@;
    let x = match set_polling_rate_packet(profile.settings.polling_rate) {
        Some(pkt) => Ok(pkt),
        None => Err(CorsairError::InvalidPollingRate(profile.settings.polling_rate)),
    };
    steps.push(x);
    assert(steps_view(steps@) =~= steps_view(old).push(packet_result_view(x)));
    steps
}


/// Only the DPI presets, the polling rate and the LED colors reach a Corsair device: two
/// profiles that agree on those are written alike, whatever their buttons, debounce time,
/// angle snapping, LED modes and brightness.
pub proof fn lemma_corsair_writes_ignore_the_rest(d: DescriptorView, p: ProfileView, q: ProfileView)
    requires
        p.dpi_presets == q.dpi_presets,
        p.polling_rate == q.polling_rate,
        p.leds.len() == q.leds.len(),
        forall|i: int| 0 <= i < p.leds.len() ==> (#[trigger] p.leds[i]).r == q.leds[i].r && p.leds[i].g == q.leds[i].g
            && p.leds[i].b == q.leds[i].b,
    ensures
        apply_profile_steps_spec(d, p) == apply_profile_steps_spec(d, q),
{
    assert(led_zones_spec(p.leds) =~= led_zones_spec(q.leds));
}


/// The polling-rate byte is the report interval in milliseconds: the four accepted rates,
/// and no others, have an interval, and interval times rate is 1000. Reading the
/// intervals 1, 2, 4 and 8 gives the rate whose interval they are; any other byte reads
/// as 1000 Hz.
pub proof fn lemma_interval_is_period(hz: u16, interval: u8)
    ensures
        hz_to_interval_spec(hz) is Some <==> (hz == 125 || hz == 250 || hz == 500 || hz == 1000),
        hz_to_interval_spec(hz) matches Some(x) ==> x * hz == 1000,
        (interval == 1 || interval == 2 || interval == 4 || interval == 8) ==> interval * interval_to_hz_spec(interval) == 1000,
        !(interval == 1 || interval == 2 || interval == 4 || interval == 8) ==> interval_to_hz_spec(interval) == 1000,
{
}

} // verus!
