//! The decisions of the command-line commands: which profile numbers a device accepts,
//! which profiles of a config file `apply` writes and in what order, the profile left
//! active afterwards, and the text of the `status` report and of the `devices` listing.
use vstd::prelude::*;
use crate::config::{format_binding, format_binding_spec, Config, ProfileConfigView};
use crate::devices::{registry, registry_view, DescriptorView, DeviceDescriptor, ProtocolKind};
use crate::text::{decimal_chars, hex_byte_chars, pad_right, parse_radix, push_decimal, push_hex_byte, push_padded, radix_value};
use crate::types::{button_code_name, led_mode_name, DeviceProfile, ProfileData, ProfileView};

verus! {

/// Why a profile number was refused.
#[derive(Debug, Clone, Copy, PartialEq, Eq, Structural)]
pub enum ProfileError {
    /// The number is outside `1..=max`.
    OutOfRange { max: usize, got: u8 },
    /// The config file holds no profile under this number.
    NotInConfig(u8),
}

/// The message for a refused profile number.
pub open spec fn profile_error_text(e: ProfileError) -> Seq<char> {
    match e {
        ProfileError::OutOfRange { max, got } => "Profile must be 1-"@ + decimal_chars(max as nat) + ", got "@
            + decimal_chars(got as nat),
        ProfileError::NotInConfig(n) => "Profile "@ + decimal_chars(n as nat) + " not found in config file"@,
    }
}

impl ProfileError {
    /// The message for this error.
    pub fn message(&self) -> (r: String)
        ensures
            r@ == profile_error_text(*self),
    {
        match self {
            ProfileError::OutOfRange { max, got } => {
                let mut s = String::from_str("Profile must be 1-");
                push_decimal(&mut s, *max);
                s.append(", got ");
                push_decimal(&mut s, *got as usize);
                s
            },
            ProfileError::NotInConfig(n) => {
                let mut s = String::from_str("Profile ");
                push_decimal(&mut s, *n as usize);
                s.append(" not found in config file");
                s
            },
        }
    }
}

/// Whether `n` names a profile of the device: `1..=num_profiles`, with the profile count
/// taken as a byte.
pub open spec fn profile_num_valid(n: u8, d: DescriptorView) -> bool {
    1 <= n && n <= (d.num_profiles as u8)
}

/// Checks that `n` names one of the device's profiles (counted from 1).
pub fn validate_profile_num(n: u8, desc: &DeviceDescriptor) -> (r: Result<(), ProfileError>)
    ensures
        r is Ok <==> profile_num_valid(n, desc@),
        r is Err ==> r == Err::<(), ProfileError>(ProfileError::OutOfRange { max: desc@.num_profiles, got: n }),
{
    let max = desc.num_profiles as u8;
    if n < 1 || n > max {
        return Err(ProfileError::OutOfRange { max: desc.num_profiles, got: n });
    }
    Ok(())
}

// --- Which profiles `apply` writes ---

/// The number that a config-file profile key stands for, as `str::parse::<u8>` reads it.
pub open spec fn key_number(k: Seq<char>) -> Option<u8> {
    match radix_value(vstd::utf8::encode_utf8(k), 10, 255) {
        Some(v) => Some(v as u8),
        None => None,
    }
}

/// The names of a list of entries.
pub open spec fn entry_keys<V>(es: Seq<(String, V)>) -> Seq<Seq<char>> {
    Seq::new(es.len(), |i: int| es[i].0@)
}

/// The keys, among `keys`, that stand for profile `number`, in their order.
pub open spec fn keys_with_number(keys: Seq<Seq<char>>, number: u8) -> Seq<Seq<char>>
    decreases keys.len(),
{
    if keys.len() == 0 {
        Seq::empty()
    } else if key_number(keys.last()) == Some(number) {
        keys_with_number(keys.drop_last(), number).push(keys.last())
    } else {
        keys_with_number(keys.drop_last(), number)
    }
}

/// The profiles numbered `1..=upto` among `keys`, as (device index, key) pairs: by
/// increasing number, and in the order of `keys` among keys for the same number.
pub open spec fn apply_order(keys: Seq<Seq<char>>, upto: int) -> Seq<(u8, Seq<char>)>
    decreases upto,
{
    if upto <= 0 {
        Seq::empty()
    } else {
        apply_order(keys, upto - 1) + keys_with_number(keys, upto as u8).map_values(
            |k: Seq<char>| ((upto - 1) as u8, k),
        )
    }
}

/// No key of the file stands for profile 0 (whose device index would be -1).
pub open spec fn no_profile_zero(keys: Seq<Seq<char>>) -> bool {
    forall|i: int| 0 <= i < keys.len() ==> key_number(#[trigger] keys[i]) != Some(0u8)
}

/// The (device index, key) pairs that `apply` writes, in order: profile `n` alone when
/// one is asked for, else every profile whose key is a number, by increasing number.
pub open spec fn selection_spec(
    keys: Seq<Seq<char>>,
    profiles: Map<Seq<char>, ProfileConfigView>,
    profile_num: Option<u8>,
    d: DescriptorView,
) -> Result<Seq<(u8, Seq<char>)>, ProfileError> {
    match profile_num {
        Some(n) => if !profile_num_valid(n, d) {
            Err(ProfileError::OutOfRange { max: d.num_profiles, got: n })
        } else if !profiles.contains_key(decimal_chars(n as nat)) {
            Err(ProfileError::NotInConfig(n))
        } else {
            Ok(seq![((n - 1) as u8, decimal_chars(n as nat))])
        },
        None => Ok(apply_order(keys, 255)),
    }
}

pub open spec fn pairs_view(v: Seq<(u8, String)>) -> Seq<(u8, Seq<char>)> {
    Seq::new(v.len(), |i: int| (v[i].0, v[i].1@))
}

pub open spec fn selection_view(r: Result<Vec<(u8, String)>, ProfileError>) -> Result<Seq<(u8, Seq<char>)>, ProfileError> {
    match r {
        Ok(v) => Ok(pairs_view(v@)),
        Err(e) => Err(e),
    }
}

fn key_number_of(k: &String) -> (r: Option<u8>)
    ensures
        r == key_number(k@),
{
    let b = k.as_str().as_bytes();
    proof {
        assert(b@.subrange(0, b@.len() as int) =~= vstd::utf8::encode_utf8(k@));
    }
    match parse_radix(b, 0, b.len(), 10, 255) {
        Some(v) => Some(v as u8),
        None => None,
    }
}

/// Whether no profile key of the file stands for profile 0.
pub fn profile_keys_valid(cfg: &Config) -> (r: bool)
    ensures
        r == no_profile_zero(entry_keys(cfg.profile.entry_seq())),
{
    let es = cfg.profile.entries();
    let ghost keys = entry_keys(es@);
    let mut j: usize = 0;
    while j < es.len()
        invariant
            keys == entry_keys(es@),
            es@ == cfg.profile.entry_seq(),
            j <= es@.len(),
            forall|i: int| 0 <= i < j ==> key_number(#[trigger] keys[i]) != Some(0u8),
        decreases es@.len() - j,
    {
        if key_number_of(&es[j].0) == Some(0u8) {
            assert(key_number(keys[j as int]) == Some(0u8));
            return false;
        }
        j = j + 1;
    }
    true
}

proof fn lemma_keys_with_number_step(keys: Seq<Seq<char>>, number: u8, j: int)
    requires
        0 <= j < keys.len(),
    ensures
        keys_with_number(keys.take(j + 1), number) == if key_number(keys[j]) == Some(number) {
            keys_with_number(keys.take(j), number).push(keys[j])
        } else {
            keys_with_number(keys.take(j), number)
        },
{
    assert(keys.take(j + 1).drop_last() =~= keys.take(j));
}

/// Chooses the profiles that `apply` writes and their order: the one numbered
/// `profile_num` when given (checked against the device and the file), else every profile
/// of `cfg` whose key is a number, by increasing number. Each is given as its device index
/// (the number minus one) and its key in the file.
pub fn select_profiles(cfg: &Config, profile_num: Option<u8>, desc: &DeviceDescriptor) -> (r: Result<Vec<(u8, String)>, ProfileError>)
    requires
        profile_num is None ==> no_profile_zero(entry_keys(cfg.profile.entry_seq())),
    ensures
        selection_view(r) == selection_spec(entry_keys(cfg.profile.entry_seq()), cfg.profile@, profile_num, desc@),
{
    match profile_num {
        Some(n) => {
            match validate_profile_num(n, desc) {
                Ok(()) => {},
                Err(e) => {
                    return Err(e);
                },
            }
            let mut key = String::new();
            push_decimal(&mut key, n as usize);
            if cfg.profile.get(key.as_str()).is_none() {
                return Err(ProfileError::NotInConfig(n));
            }
            let mut v: Vec<(u8, String)> = Vec::new();
            v.push((n - 1, key));
            assert(pairs_view(v@) =~= seq![((n - 1) as u8, decimal_chars(n as nat))]);
            Ok(v)
        },
        None => {
            let es = cfg.profile.entries();
            let ghost keys = entry_keys(es@);
            let len = es.len();
            let mut nums: Vec<Option<u8>> = Vec::new();
            let mut j: usize = 0;
            while j < len
                invariant
                    len == es@.len(),
                    keys == entry_keys(es@),
                    j <= len,
                    nums@.len() == j,
                    forall|i: int| 0 <= i < j ==> nums@[i] == key_number(#[trigger] keys[i]),
                decreases len - j,
            {
                nums.push(key_number_of(&es[j].0));
                j = j + 1;
            }
            let mut out: Vec<(u8, String)> = Vec::new();
            let mut number: usize = 1;
            while number <= 255
                invariant
                    len == es@.len(),
                    keys == entry_keys(es@),
                    nums@.len() == len,
                    forall|i: int| 0 <= i < len ==> nums@[i] == key_number(#[trigger] keys[i]),
                    1 <= number <= 256,
                    pairs_view(out@) == apply_order(keys, number - 1),
                decreases 256 - number,
            {
                let ghost before = pairs_view(out@);
                let mut j: usize = 0;
                assert(keys.take(0) =~= Seq::<Seq<char>>::empty());
                while j < len
                    invariant
                        len == es@.len(),
                        keys == entry_keys(es@),
                        nums@.len() == len,
                        forall|i: int| 0 <= i < len ==> nums@[i] == key_number(#[trigger] keys[i]),
                        1 <= number <= 255,
                        j <= len,
                        before == apply_order(keys, number - 1),
                        pairs_view(out@) == before + keys_with_number(keys.take(j as int), number as u8).map_values(
                            |k: Seq<char>| ((number - 1) as u8, k),
                        ),
                    decreases len - j,
                {
                    proof {
                        lemma_keys_with_number_step(keys, number as u8, j as int);
                    }
                    if nums[j] == Some(number as u8) {
                        let ghost prev = out@;
                        out.push(((number - 1) as u8, es[j].0.clone()));
                        proof {
                            let f = |k: Seq<char>| ((number - 1) as u8, k);
                            let w = keys_with_number(keys.take(j as int), number as u8);
                            assert(w.push(keys[j as int]).map_values(f) =~= w.map_values(f).push(f(keys[j as int])));
                            assert(pairs_view(out@) =~= pairs_view(prev).push(((number - 1) as u8, keys[j as int])));
                        }
                    }
                    j = j + 1;
                }
                assert(keys.take(len as int) =~= keys);
                number = number + 1;
            }
            Ok(out)
        },
    }
}

/// The profile left active after `apply`: the file's active profile when it names one,
/// else the profile that was active before.
pub open spec fn target_profile_spec(active_profile: Option<u8>, previous: u8) -> u8 {
    match active_profile {
        Some(n) => (n - 1) as u8,
        None => previous,
    }
}

/// The device index of the profile to leave active after `apply`.
pub fn target_profile(active_profile: Option<u8>, previous: u8) -> (r: u8)
    requires
        active_profile != Some(0u8),
    ensures
        r == target_profile_spec(active_profile, previous),
{
    match active_profile {
        Some(n) => n - 1,
        None => previous,
    }
}

// --- The status report ---

/// The name of button slot `i`, or `fallback` past the last slot.
pub open spec fn slot_name_or(d: DescriptorView, i: int, fallback: Seq<char>) -> Seq<char> {
    if 0 <= i < d.button_slots.len() {
        button_code_name(d.button_slots[i])
    } else {
        fallback
    }
}

/// The name of LED zone `i`, or `fallback` past the last name.
pub open spec fn zone_name_or(d: DescriptorView, i: int, fallback: Seq<char>) -> Seq<char> {
    if 0 <= i < d.led_names.len() {
        d.led_names[i]
    } else {
        fallback
    }
}

pub open spec fn on_off(b: bool) -> Seq<char> {
    if b { "on"@ } else { "off"@ }
}

pub open spec fn dpi_line(i: int, dpi: u16) -> Seq<char> {
    "  Preset "@ + decimal_chars((i + 1) as nat) + ": "@ + decimal_chars(dpi as nat) + " DPI"@
}

pub open spec fn button_line(p: ProfileView, d: DescriptorView, i: int) -> Seq<char> {
    "  "@ + pad_right(slot_name_or(d, i, "unknown"@), 12) + " -> "@ + format_binding_spec(p.buttons[i])
}

pub open spec fn led_line(p: ProfileView, d: DescriptorView, i: int) -> Seq<char> {
    let l = p.leds[i];
    "  "@ + pad_right(zone_name_or(d, i, "unknown"@), 6) + " mode="@ + pad_right(led_mode_name(l.mode), 10)
        + " brightness="@ + decimal_chars(l.brightness as nat) + "  color=#"@ + hex_byte_chars(l.r)
        + hex_byte_chars(l.g) + hex_byte_chars(l.b)
}

/// The first lines of the `status` report, printed before the profile is read.
pub open spec fn status_header_lines(firmware: Seq<char>, current_profile: u8) -> Seq<Seq<char>> {
    seq![
        "Firmware:       "@ + firmware,
        "Active profile: "@ + decimal_chars(current_profile as nat + 1),
        Seq::empty(),
    ]
}

/// The rest of the `status` report: the profile's settings, DPI presets, buttons and LEDs
/// (an empty line separates the sections).
pub open spec fn status_body_lines(p: ProfileView, d: DescriptorView) -> Seq<Seq<char>> {
    seq![
        "=== Settings ==="@,
        "Polling rate:   "@ + decimal_chars(p.polling_rate as nat) + " Hz"@,
        "Debounce:       "@ + decimal_chars(p.debounce_ms as nat) + " ms"@,
        "Angle snapping: "@ + on_off(p.angle_snapping),
        Seq::empty(),
        "=== DPI Presets ==="@,
    ] + Seq::new(p.dpi_presets.len(), |i: int| dpi_line(i, p.dpi_presets[i]))
        + seq![Seq::empty(), "=== Buttons ==="@]
        + Seq::new(p.buttons.len(), |i: int| button_line(p, d, i))
        + seq![Seq::empty(), "=== LEDs ==="@]
        + Seq::new(p.leds.len(), |i: int| led_line(p, d, i))
}

pub open spec fn strings_view(v: Seq<String>) -> Seq<Seq<char>> {
    Seq::new(v.len(), |i: int| v[i]@)
}

fn push_line(lines: &mut Vec<String>, text: &str)
    ensures
        strings_view(final(lines)@) == strings_view(old(lines)@).push(text@),
{
    let ghost prev = lines@;
    lines.push(String::from_str(text));
    assert(strings_view(lines@) =~= strings_view(prev).push(text@));
}

fn push_string(lines: &mut Vec<String>, text: String)
    ensures
        strings_view(final(lines)@) == strings_view(old(lines)@).push(text@),
{
    let ghost prev = lines@;
    let ghost t = text@;
    lines.push(text);
    assert(strings_view(lines@) =~= strings_view(prev).push(t));
}

/// The first lines that `status` prints, from the device's profile data.
pub fn status_header(data: &ProfileData) -> (r: Vec<String>)
    requires
        data.current_profile < 255,
    ensures
        strings_view(r@) == status_header_lines(data.firmware_version@, data.current_profile),
{
    let mut lines: Vec<String> = Vec::new();
    let mut s = String::from_str("Firmware:       ");
    s.append(data.firmware_version.as_str());
    push_string(&mut lines, s);
    let mut s = String::from_str("Active profile: ");
    push_decimal(&mut s, data.current_profile as usize + 1);
    push_string(&mut lines, s);
    push_line(&mut lines, "");
    proof {
        reveal_strlit("");
    }
    assert(strings_view(lines@).len() == 3);
    assert(strings_view(lines@)[2] == Seq::<char>::empty());
    assert(strings_view(lines@) =~= status_header_lines(data.firmware_version@, data.current_profile));
    lines
}

/// The lines that `status` prints for the current profile.
pub fn status_body(profile: &DeviceProfile, desc: &DeviceDescriptor) -> (r: Vec<String>)
    ensures
        strings_view(r@) == status_body_lines(profile@, desc@),
{
    let ghost p = profile@;
    let ghost d = desc@;
    let mut lines: Vec<String> = Vec::new();
    push_line(&mut lines, "=== Settings ===");
    let mut s = String::from_str("Polling rate:   ");
    push_decimal(&mut s, profile.settings.polling_rate as usize);
    s.append(" Hz");
    push_string(&mut lines, s);
    let mut s = String::from_str("Debounce:       ");
    push_decimal(&mut s, profile.settings.debounce_ms as usize);
    s.append(" ms");
    push_string(&mut lines, s);
    let mut s = String::from_str("Angle snapping: ");
    s.append(if profile.settings.angle_snapping { "on" } else { "off" });
    push_string(&mut lines, s);
    push_line(&mut lines, "");
    push_line(&mut lines, "=== DPI Presets ===");
    proof {
        reveal_strlit("");
    }
    let ghost head = strings_view(lines@);
    assert(head.len() == 6);
    assert(head[3] == "Angle snapping: "@ + on_off(p.angle_snapping));
    assert(head[4] == Seq::<char>::empty());
    assert(head =~= seq![
        "=== Settings ==="@,
        "Polling rate:   "@ + decimal_chars(p.polling_rate as nat) + " Hz"@,
        "Debounce:       "@ + decimal_chars(p.debounce_ms as nat) + " ms"@,
        "Angle snapping: "@ + on_off(p.angle_snapping),
        Seq::empty(),
        "=== DPI Presets ==="@,
    ]);

    let n = profile.settings.dpi_presets.len();
    let mut i: usize = 0;
    while i < n
        invariant
            n == p.dpi_presets.len(),
            p == profile@,
            i <= n,
            strings_view(lines@) == head + Seq::new(i as nat, |k: int| dpi_line(k, p.dpi_presets[k])),
        decreases n - i,
    {
        let mut s = String::from_str("  Preset ");
        push_decimal(&mut s, i + 1);
        s.append(": ");
        push_decimal(&mut s, profile.settings.dpi_presets[i] as usize);
        s.append(" DPI");
        let ghost prev = strings_view(lines@);
        push_string(&mut lines, s);
        assert(strings_view(lines@) =~= head + Seq::new((i + 1) as nat, |k: int| dpi_line(k, p.dpi_presets[k])));
        i = i + 1;
    }
    push_line(&mut lines, "");
    push_line(&mut lines, "=== Buttons ===");
    let ghost head2 = strings_view(lines@);
    assert(head2 =~= head + Seq::new(p.dpi_presets.len(), |k: int| dpi_line(k, p.dpi_presets[k]))
        + seq![Seq::empty(), "=== Buttons ==="@]);

    let nb = profile.buttons.len();
    let mut i: usize = 0;
    while i < nb
        invariant
            nb == p.buttons.len(),
            p == profile@,
            d == desc@,
            i <= nb,
            strings_view(lines@) == head2 + Seq::new(i as nat, |k: int| button_line(p, d, k)),
        decreases nb - i,
    {
        let mut s = String::from_str("  ");
        let name: &str = if i < desc.button_slots.len() { desc.button_slots[i].name() } else { "unknown" };
        assert(name@ == slot_name_or(d, i as int, "unknown"@));
        push_padded(&mut s, name, 12);
        s.append(" -> ");
        let action = format_binding(&profile.buttons[i]);
        s.append(action.as_str());
        push_string(&mut lines, s);
        assert(strings_view(lines@) =~= head2 + Seq::new((i + 1) as nat, |k: int| button_line(p, d, k)));
        i = i + 1;
    }
    push_line(&mut lines, "");
    push_line(&mut lines, "=== LEDs ===");
    let ghost head3 = strings_view(lines@);
    assert(head3 =~= head2 + Seq::new(p.buttons.len(), |k: int| button_line(p, d, k))
        + seq![Seq::empty(), "=== LEDs ==="@]);

    let nl = profile.leds.len();
    let mut i: usize = 0;
    while i < nl
        invariant
            nl == p.leds.len(),
            p == profile@,
            d == desc@,
            i <= nl,
            strings_view(lines@) == head3 + Seq::new(i as nat, |k: int| led_line(p, d, k)),
        decreases nl - i,
    {
        let led = profile.leds[i];
        let mut s = String::from_str("  ");
        let zone: &str = if i < desc.led_names.len() { desc.led_names[i] } else { "unknown" };
        assert(zone@ == zone_name_or(d, i as int, "unknown"@));
        push_padded(&mut s, zone, 6);
        s.append(" mode=");
        push_padded(&mut s, led.mode.name(), 10);
        s.append(" brightness=");
        push_decimal(&mut s, led.brightness as usize);
        s.append("  color=#");
        push_hex_byte(&mut s, led.r);
        push_hex_byte(&mut s, led.g);
        push_hex_byte(&mut s, led.b);
        push_string(&mut lines, s);
        assert(strings_view(lines@) =~= head3 + Seq::new((i + 1) as nat, |k: int| led_line(p, d, k)));
        i = i + 1;
    }
    lines
}


// --- The `devices` listing ---

/// A 16-bit id as `{:#06x}` writes it: `0x` and four lowercase hexadecimal digits.
pub open spec fn hex_id(v: u16) -> Seq<char> {
    "0x"@ + hex_byte_chars((v / 256) as u8) + hex_byte_chars((v % 256) as u8)
}

/// The product ids of a descriptor, separated by `, `.
pub open spec fn joined_ids(ids: Seq<u16>) -> Seq<char>
    decreases ids.len(),
{
    if ids.len() == 0 {
        Seq::empty()
    } else if ids.len() == 1 {
        hex_id(ids[0])
    } else {
        joined_ids(ids.drop_last()) + ", "@ + hex_id(ids.last())
    }
}

/// How far a protocol's support goes.
pub open spec fn support_text(p: ProtocolKind) -> Seq<char> {
    match p {
        ProtocolKind::Asus => "ready"@,
        ProtocolKind::Razer => "ready (DPI/LED/polling)"@,
        ProtocolKind::Corsair => "ready (DPI/LED/polling)"@,
    }
}

pub open spec fn device_line(d: DescriptorView) -> Seq<char> {
    "  "@ + d.name + " ["@ + support_text(d.protocol) + "]  VID "@ + hex_id(d.vendor_id) + ", PIDs: "@
        + joined_ids(d.product_ids)
}

/// The lines of the `devices` listing: a heading, then one line per supported device.
pub open spec fn device_list_lines() -> Seq<Seq<char>> {
    seq!["Supported devices:"@] + Seq::new(registry_view().len(), |i: int| device_line(registry_view()[i]))
}

fn push_hex_id(s: &mut String, v: u16)
    ensures
        final(s)@ == old(s)@ + hex_id(v),
{
    s.append("0x");
    push_hex_byte(s, (v / 256) as u8);
    push_hex_byte(s, (v % 256) as u8);
    assert(final(s)@ =~= old(s)@ + hex_id(v));
}

/// The lines that `devices` prints.
pub fn device_list() -> (r: Vec<String>)
    ensures
        strings_view(r@) == device_list_lines(),
{
    let reg = registry();
    let mut lines: Vec<String> = Vec::new();
    push_line(&mut lines, "Supported devices:");
    let n = reg.len();
    let mut i: usize = 0;
    while i < n
        invariant
            n == reg@.len(),
            n == registry_view().len(),
            forall|k: int| 0 <= k < n ==> #[trigger] reg@[k]@ == registry_view()[k],
            i <= n,
            strings_view(lines@) == seq!["Supported devices:"@] + Seq::new(i as nat, |k: int| device_line(registry_view()[k])),
        decreases n - i,
    {
        let d = &reg[i];
        assert(d@ == registry_view()[i as int]);
        let mut s = String::from_str("  ");
        s.append(d.name);
        s.append(" [");
        s.append(match d.protocol {
            ProtocolKind::Asus => "ready",
            ProtocolKind::Razer => "ready (DPI/LED/polling)",
            ProtocolKind::Corsair => "ready (DPI/LED/polling)",
        });
        s.append("]  VID ");
        push_hex_id(&mut s, d.vendor_id);
        s.append(", PIDs: ");
        let ghost head = s@;
        let m = d.product_ids.len();
        let mut j: usize = 0;
        while j < m
            invariant
                m == d.product_ids@.len(),
                j <= m,
                s@ == head + joined_ids(d.product_ids@.take(j as int)),
            decreases m - j,
        {
            let ghost before = s@;
            if j > 0 {
                s.append(", ");
            }
            push_hex_id(&mut s, d.product_ids[j]);
            proof {
                let t = d.product_ids@.take(j + 1);
                assert(t.drop_last() =~= d.product_ids@.take(j as int));
                if j == 0 {
                    assert(d.product_ids@.take(0) =~= Seq::<u16>::empty());
                    assert(s@ =~= head + joined_ids(t));
                } else {
                    assert(s@ =~= head + joined_ids(t));
                }
            }
            j = j + 1;
        }
        assert(d.product_ids@.take(m as int) =~= d.product_ids@);
        push_string(&mut lines, s);
        assert(strings_view(lines@) =~= seq!["Supported devices:"@] + Seq::new((i + 1) as nat, |k: int| device_line(registry_view()[k])));
        i = i + 1;
    }
    lines
}

} // verus!
