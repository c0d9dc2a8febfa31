//! Device discovery: reading vendor and product ids from a sysfs `uevent` file, and
//! choosing among the devices found. Reading sysfs itself is the caller's part.
use vstd::prelude::*;
use crate::devices::{descriptor_matches, first_match, registry, registry_view, find_descriptor, DescriptorView, DeviceDescriptor};
use crate::text::{digit_value, digits_value, parse_radix, radix_value, str_eq};
use crate::types::{first_index_of, lemma_first_index_of};

verus! {

/// `first_index_of` finds the first position that holds `x`.
proof fn lemma_first_index_exact(s: Seq<u8>, x: u8, i: int)
    requires
        0 <= i < s.len(),
        s[i] == x,
        forall|j: int| 0 <= j < i ==> s[j] != x,
    ensures
        first_index_of(s, x) == Some(i),
{
    lemma_first_index_of(s, x);
    assert(s.contains(x));
    let k = first_index_of(s, x)->0;
    if k < i {
        assert(s[k] != x);
    } else if k > i {
        assert(s[i] != x);
    }
}

/// `first_index_of` finds nothing where no position holds `x`.
proof fn lemma_first_index_absent(s: Seq<u8>, x: u8)
    requires
        forall|j: int| 0 <= j < s.len() ==> s[j] != x,
    ensures
        first_index_of(s, x) is None,
{
    lemma_first_index_of(s, x);
    if s.contains(x) {
        let j = choose|j: int| 0 <= j < s.len() && s[j] == x;
        assert(s[j] != x);
    }
}

/// Where the first line of `b` ends: the first `\n`, or the end of `b`.
pub open spec fn line_end(b: Seq<u8>) -> int {
    match first_index_of(b, 10u8) {
        Some(i) => i,
        None => b.len() as int,
    }
}

/// The first line of `b` as `str::lines` gives it: up to the first `\n`, without the `\r`
/// of a `\r\n` ending.
pub open spec fn first_line(b: Seq<u8>) -> Seq<u8> {
    let e = line_end(b);
    let raw = b.subrange(0, e);
    if e < b.len() && raw.len() > 0 && raw.last() == 13u8 {
        raw.drop_last()
    } else {
        raw
    }
}

/// The bytes of `HID_ID=`.
pub open spec fn hid_id_prefix() -> Seq<u8> {
    seq![72u8, 73u8, 68u8, 95u8, 73u8, 68u8, 61u8]
}

/// `s` without its leading `0` bytes.
pub open spec fn trim_leading_zeros(s: Seq<u8>) -> Seq<u8>
    decreases s.len(),
{
    if s.len() > 0 && s[0] == 48u8 {
        trim_leading_zeros(s.drop_first())
    } else {
        s
    }
}

/// One id field as a hexadecimal `u16`: read without its leading zeros, or as it is
/// when that fails.
pub open spec fn parse_id_field(f: Seq<u8>) -> Option<u16> {
    match radix_value(trim_leading_zeros(f), 16, 65535) {
        Some(v) => Some(v as u16),
        None => match radix_value(f, 16, 65535) {
            Some(v) => Some(v as u16),
            None => None,
        },
    }
}

/// The second and third of exactly three `:`-separated fields.
pub open spec fn id_fields(rest: Seq<u8>) -> Option<(Seq<u8>, Seq<u8>)> {
    match first_index_of(rest, 58u8) {
        None => None,
        Some(a) => {
            let r1 = rest.skip(a + 1);
            match first_index_of(r1, 58u8) {
                None => None,
                Some(c) => {
                    let r2 = r1.skip(c + 1);
                    if first_index_of(r2, 58u8) is Some {
                        None
                    } else {
                        Some((r1.take(c), r2))
                    }
                },
            }
        },
    }
}

/// What one line says: nothing (`None`), ids that do not parse (`Some(None)`), or the
/// vendor and product ids of a `HID_ID=BBBB:VVVVVVVV:PPPPPPPP` line.
pub open spec fn hid_id_line(line: Seq<u8>) -> Option<Option<(u16, u16)>> {
    if !(7 <= line.len() && line.take(7) == hid_id_prefix()) {
        None
    } else {
        match id_fields(line.skip(7)) {
            None => None,
            Some((f1, f2)) => match (parse_id_field(f1), parse_id_field(f2)) {
                (Some(v), Some(p)) => Some(Some((v, p))),
                _ => Some(None),
            },
        }
    }
}

/// The ids of the first line of a uevent file that says something about them.
pub open spec fn parse_hid_id_bytes(b: Seq<u8>) -> Option<(u16, u16)>
    decreases b.len(),
{
    if b.len() == 0 {
        None
    } else {
        let e = line_end(b);
        match hid_id_line(first_line(b)) {
            Some(r) => r,
            None => if 0 <= e < b.len() {
                parse_hid_id_bytes(b.skip(e + 1))
            } else {
                None
            },
        }
    }
}

proof fn lemma_trim_step(s: Seq<u8>, i: int)
    requires
        0 <= i < s.len(),
        s[i] == 48u8,
    ensures
        trim_leading_zeros(s.skip(i)) == trim_leading_zeros(s.skip(i + 1)),
{
    assert(s.skip(i).drop_first() =~= s.skip(i + 1));
}

/// Reads one id field `b[start..end]`.
fn parse_id_field_exec(b: &[u8], start: usize, end: usize) -> (r: Option<u16>)
    requires
        start <= end <= b@.len(),
    ensures
        r == parse_id_field(b@.subrange(start as int, end as int)),
{
    let ghost f = b@.subrange(start as int, end as int);
    let mut t = start;
    assert(f.skip(0) =~= f);
    while t < end && b[t] == 48u8
        invariant
            start <= t <= end <= b@.len(),
            f == b@.subrange(start as int, end as int),
            trim_leading_zeros(f) == trim_leading_zeros(f.skip(t - start)),
        decreases end - t,
    {
        proof {
            lemma_trim_step(f, t - start);
        }
        t = t + 1;
    }
    assert(f.skip(t - start) =~= b@.subrange(t as int, end as int));
    assert(trim_leading_zeros(b@.subrange(t as int, end as int)) == b@.subrange(t as int, end as int));
    match parse_radix(b, t, end, 16, 65535) {
        Some(v) => Some(v as u16),
        None => match parse_radix(b, start, end, 16, 65535) {
            Some(v) => Some(v as u16),
            None => None,
        },
    }
}

/// Index of the first `:` in `b[start..end]`, as an offset into `b`.
fn find_colon(b: &[u8], start: usize, end: usize) -> (r: Option<usize>)
    requires
        start <= end <= b@.len(),
    ensures
        match r {
            Some(i) => start <= i < end && first_index_of(b@.subrange(start as int, end as int), 58u8) == Some(i - start),
            None => first_index_of(b@.subrange(start as int, end as int), 58u8) is None,
        },
{
    let ghost s = b@.subrange(start as int, end as int);
    let mut i = start;
    while i < end
        invariant
            start <= i <= end <= b@.len(),
            s == b@.subrange(start as int, end as int),
            forall|j: int| 0 <= j < i - start ==> s[j] != 58u8,
        decreases end - i,
    {
        if b[i] == 58u8 {
            proof {
                lemma_first_index_exact(s, 58u8, i - start);
            }
            return Some(i);
        }
        i = i + 1;
    }
    proof {
        lemma_first_index_absent(s, 58u8);
    }
    None
}

/// What the line `b[start..end]` says (see `hid_id_line`).
fn hid_id_line_exec(b: &[u8], start: usize, end: usize) -> (r: Option<Option<(u16, u16)>>)
    requires
        start <= end <= b@.len(),
    ensures
        r == hid_id_line(b@.subrange(start as int, end as int)),
{
    let ghost line = b@.subrange(start as int, end as int);
    if end - start < 7 {
        return None;
    }
    if !(b[start] == 72 && b[start + 1] == 73 && b[start + 2] == 68 && b[start + 3] == 95
        && b[start + 4] == 73 && b[start + 5] == 68 && b[start + 6] == 61) {
        proof {
            if line.take(7) == hid_id_prefix() {
                assert(line.take(7)[0] == line[0]);
                assert(line.take(7)[1] == line[1]);
                assert(line.take(7)[2] == line[2]);
                assert(line.take(7)[3] == line[3]);
                assert(line.take(7)[4] == line[4]);
                assert(line.take(7)[5] == line[5]);
                assert(line.take(7)[6] == line[6]);
            }
        }
        return None;
    }
    assert(line.take(7) =~= hid_id_prefix());
    let rs = start + 7;
    let ghost rest = line.skip(7);
    assert(rest =~= b@.subrange(rs as int, end as int));
    let a = match find_colon(b, rs, end) {
        Some(a) => a,
        None => {
            return None;
        },
    };
    let ghost r1 = rest.skip(a - rs + 1);
    assert(r1 =~= b@.subrange(a + 1, end as int));
    let c = match find_colon(b, a + 1, end) {
        Some(c) => c,
        None => {
            return None;
        },
    };
    let ghost r2 = r1.skip(c - (a + 1) + 1);
    assert(r2 =~= b@.subrange(c + 1, end as int));
    if find_colon(b, c + 1, end).is_some() {
        return None;
    }
    assert(r1.take(c - (a + 1)) =~= b@.subrange(a + 1, c as int));
    let vid = parse_id_field_exec(b, a + 1, c);
    let pid = parse_id_field_exec(b, c + 1, end);
    match (vid, pid) {
        (Some(v), Some(p)) => Some(Some((v, p))),
        _ => Some(None),
    }
}

/// Parse `HID_ID=BBBB:VVVVVVVV:PPPPPPPP` from a uevent file.
pub fn parse_hid_id(uevent: &str) -> (r: Option<(u16, u16)>)
    ensures
        r == parse_hid_id_bytes(vstd::utf8::encode_utf8(uevent@)),
{
    let b = uevent.as_bytes();
    assert(b@ == vstd::utf8::encode_utf8(uevent@));
    let n = b.len();
    let mut pos: usize = 0;
    assert(b@.skip(0) =~= b@);
    while pos < n
        invariant
            pos <= n == b@.len(),
            b@ == vstd::utf8::encode_utf8(uevent@),
            parse_hid_id_bytes(b@) == parse_hid_id_bytes(b@.skip(pos as int)),
        decreases n - pos,
    {
        let ghost s = b@.skip(pos as int);
        let mut e = pos;
        while e < n && b[e] != 10u8
            invariant
                pos <= e <= n == b@.len(),
                s == b@.skip(pos as int),
                forall|j: int| 0 <= j < e - pos ==> s[j] != 10u8,
            decreases n - e,
        {
            e = e + 1;
        }
        proof {
            if e < n {
                lemma_first_index_exact(s, 10u8, e - pos);
            } else {
                lemma_first_index_absent(s, 10u8);
            }
            assert(line_end(s) == e - pos);
            assert(s.subrange(0, e - pos) =~= b@.subrange(pos as int, e as int));
        }
        let lend = if e < n && e > pos && b[e - 1] == 13u8 { e - 1 } else { e };
        assert(first_line(s) =~= b@.subrange(pos as int, lend as int));
        match hid_id_line_exec(b, pos, lend) {
            Some(r) => {
                return r;
            },
            None => {},
        }
        if e < n {
            assert(s.skip(e - pos + 1) =~= b@.skip(e + 1));
            pos = e + 1;
        } else {
            return None;
        }
    }
    assert(b@.skip(pos as int).len() == 0);
    None
}

/// A device found on the system: its hidraw path and what it is.
#[derive(Debug)]
pub struct DetectedDevice {
    pub path: String,
    pub descriptor: DeviceDescriptor,
}

/// Why a device could not be identified or found.
#[derive(Debug)]
pub enum DetectError {
    /// The uevent file has no readable `HID_ID` line.
    NoHidId,
    /// The ids belong to no supported device.
    Unsupported { vid: u16, pid: u16 },
    /// No supported device was found; holds the names of the supported ones.
    NoneFound { supported: Vec<&'static str> },
}

/// What the uevent file of a given hidraw device says it is.
pub open spec fn detect_spec(uevent: Seq<u8>) -> Result<DescriptorView, Option<(u16, u16)>> {
    match parse_hid_id_bytes(uevent) {
        None => Err(None),
        Some((vid, pid)) => match first_match(registry_view(), vid, pid) {
            Some(d) => Ok(d),
            None => Err(Some((vid, pid))),
        },
    }
}

/// Identifies the device at `path` from the contents of its uevent file.
pub fn detect_from_uevent(path: String, uevent: &str) -> (r: Result<DetectedDevice, DetectError>)
    ensures
        match r {
            Ok(dd) => detect_spec(vstd::utf8::encode_utf8(uevent@)) == Ok::<DescriptorView, Option<(u16, u16)>>(dd.descriptor@) && dd.path == path,
            Err(DetectError::NoHidId) => detect_spec(vstd::utf8::encode_utf8(uevent@)) == Err::<DescriptorView, Option<(u16, u16)>>(None),
            Err(DetectError::Unsupported { vid, pid }) => detect_spec(vstd::utf8::encode_utf8(uevent@)) == Err::<DescriptorView, Option<(u16, u16)>>(Some((vid, pid))),
            Err(DetectError::NoneFound { .. }) => false,
        },
{
    match parse_hid_id(uevent) {
        Some((vid, pid)) => match find_descriptor(vid, pid) {
            Some(descriptor) => Ok(DetectedDevice { path, descriptor }),
            None => Err(DetectError::Unsupported { vid, pid }),
        },
        None => Err(DetectError::NoHidId),
    }
}

/// Whether a device whose uevent file is `uevent` is the device `desc` describes.
pub fn uevent_matches(desc: &DeviceDescriptor, uevent: &str) -> (r: bool)
    ensures
        r == (parse_hid_id_bytes(vstd::utf8::encode_utf8(uevent@)) matches Some((vid, pid)) && descriptor_matches(desc@, vid, pid)),
{
    match parse_hid_id(uevent) {
        Some((vid, pid)) => desc.matches(vid, pid),
        None => false,
    }
}

/// The supported device that a uevent file names, unless a device of that model was
/// already taken (one device may have several hidraw nodes).
pub fn new_candidate(uevent: &str, seen: &Vec<&'static str>) -> (r: Option<DeviceDescriptor>)
    ensures
        match r {
            Some(d) => detect_spec(vstd::utf8::encode_utf8(uevent@)) == Ok::<DescriptorView, Option<(u16, u16)>>(d@)
                && forall|i: int| 0 <= i < seen@.len() ==> #[trigger] seen@[i]@ != d@.name,
            None => !(detect_spec(vstd::utf8::encode_utf8(uevent@)) is Ok) || exists|i: int| 0 <= i < seen@.len()
                && #[trigger] seen@[i]@ == detect_spec(vstd::utf8::encode_utf8(uevent@))->Ok_0.name,
        },
{
    let d = match parse_hid_id(uevent) {
        Some((vid, pid)) => match find_descriptor(vid, pid) {
            Some(d) => d,
            None => {
                return None;
            },
        },
        None => {
            return None;
        },
    };
    let mut i: usize = 0;
    while i < seen.len()
        invariant
            i <= seen@.len(),
            detect_spec(vstd::utf8::encode_utf8(uevent@)) == Ok::<DescriptorView, Option<(u16, u16)>>(d@),
            forall|j: int| 0 <= j < i ==> #[trigger] seen@[j]@ != d@.name,
        decreases seen@.len() - i,
    {
        if str_eq(seen[i], d.name) {
            assert(seen@[i as int]@ == d@.name);
            return None;
        }
        i = i + 1;
    }
    Some(d)
}

/// The device to use: the first one found, or an error that lists the supported devices.
pub fn find_device(found: Vec<DetectedDevice>) -> (r: Result<DetectedDevice, DetectError>)
    ensures
        found@.len() > 0 ==> (r matches Ok(d) && d == found@[0]),
        found@.len() == 0 ==> (r matches Err(DetectError::NoneFound { supported }) && supported@.len() == registry_view().len()
            && forall|i: int| 0 <= i < supported@.len() ==> #[trigger] supported@[i]@ == registry_view()[i].name),
{
    let mut devices = found;
    if devices.len() == 0 {
        let reg = registry();
        let mut supported: Vec<&'static str> = Vec::new();
        let mut i: usize = 0;
        while i < reg.len()
            invariant
                i <= reg@.len(),
                reg@.len() == registry_view().len(),
                forall|k: int| 0 <= k < reg@.len() ==> #[trigger] reg@[k]@ == registry_view()[k],
                supported@.len() == i,
                forall|k: int| 0 <= k < i ==> #[trigger] supported@[k]@ == registry_view()[k].name,
            decreases reg@.len() - i,
        {
            assert(reg@[i as int]@ == registry_view()[i as int]);
            supported.push(reg[i].name);
            i = i + 1;
        }
        return Err(DetectError::NoneFound { supported });
    }
    Ok(devices.remove(0))
}


// --- USB interface numbers ---

/// Whether a character is white space (the Unicode `White_Space` property), as
/// `char::is_whitespace` and so `str::trim` test it.
pub open spec fn is_white_space(c: char) -> bool {
    let v = c as u32;
    ||| 0x09 <= v <= 0x0D
    ||| v == 0x20
    ||| v == 0x85
    ||| v == 0xA0
    ||| v == 0x1680
    ||| 0x2000 <= v <= 0x200A
    ||| v == 0x2028
    ||| v == 0x2029
    ||| v == 0x202F
    ||| v == 0x205F
    ||| v == 0x3000
}

/// `s` without its leading white space.
pub open spec fn trim_start_ws(s: Seq<char>) -> Seq<char>
    decreases s.len(),
{
    if s.len() > 0 && is_white_space(s[0]) {
        trim_start_ws(s.drop_first())
    } else {
        s
    }
}

/// `s` without its trailing white space.
pub open spec fn trim_end_ws(s: Seq<char>) -> Seq<char>
    decreases s.len(),
{
    if s.len() > 0 && is_white_space(s.last()) {
        trim_end_ws(s.drop_last())
    } else {
        s
    }
}

/// `s` without leading and trailing white space, as `str::trim` gives it.
pub open spec fn trim_ws(s: Seq<char>) -> Seq<char> {
    trim_end_ws(trim_start_ws(s))
}

fn white_space(c: char) -> (r: bool)
    ensures
        r == is_white_space(c),
{
    let v = c as u32;
    (0x09 <= v && v <= 0x0D) || v == 0x20 || v == 0x85 || v == 0xA0 || v == 0x1680
        || (0x2000 <= v && v <= 0x200A) || v == 0x2028 || v == 0x2029 || v == 0x202F
        || v == 0x205F || v == 0x3000
}

/// Whether the contents of a `bInterfaceNumber` file, trimmed of white space, are
/// `expected`.
pub fn interface_matches(contents: &str, expected: &str) -> (r: bool)
    ensures
        r == (trim_ws(contents@) == expected@),
{
    let ghost s = contents@;
    let n = contents.unicode_len();
    let mut i: usize = 0;
    assert(s.subrange(0, n as int) =~= s);
    loop
        invariant
            s == contents@,
            n == s.len(),
            i <= n,
            trim_start_ws(s) == trim_start_ws(s.subrange(i as int, n as int)),
        ensures
            i <= n,
            trim_start_ws(s) == s.subrange(i as int, n as int),
        decreases n - i,
    {
        if i == n {
            assert(s.subrange(i as int, n as int).len() == 0);
            break;
        }
        if !white_space(contents.get_char(i)) {
            break;
        }
        assert(s.subrange(i as int, n as int).drop_first() =~= s.subrange(i + 1, n as int));
        i = i + 1;
    }
    let ghost t = s.subrange(i as int, n as int);
    let mut k: usize = n - i;
    assert(t.subrange(0, k as int) =~= t);
    loop
        invariant
            s == contents@,
            n == s.len(),
            i <= n,
            t == s.subrange(i as int, n as int),
            k <= t.len(),
            trim_end_ws(t) == trim_end_ws(t.subrange(0, k as int)),
        ensures
            k <= t.len(),
            trim_end_ws(t) == t.subrange(0, k as int),
        decreases k,
    {
        if k == 0 {
            break;
        }
        if !white_space(contents.get_char(i + k - 1)) {
            assert(t.subrange(0, k as int).last() == s[i + k - 1]);
            break;
        }
        assert(t.subrange(0, k as int).drop_last() =~= t.subrange(0, k - 1));
        k = k - 1;
    }
    let ghost trimmed = t.subrange(0, k as int);
    assert(trimmed =~= s.subrange(i as int, i + k));
    assert(trim_ws(contents@) == trimmed);
    let m = expected.unicode_len();
    if m != k {
        assert(trimmed.len() != expected@.len());
        return false;
    }
    let mut j: usize = 0;
    while j < k
        invariant
            s == contents@,
            n == s.len(),
            i + k <= n,
            m == k,
            m == expected@.len(),
            trimmed == s.subrange(i as int, i + k),
            trim_ws(contents@) == trimmed,
            j <= k,
            forall|x: int| 0 <= x < j ==> trimmed[x] == expected@[x],
        decreases k - j,
    {
        if contents.get_char(i + j) != expected.get_char(j) {
            assert(trimmed[j as int] != expected@[j as int]);
            return false;
        }
        j = j + 1;
    }
    assert(trimmed =~= expected@);
    true
}


// --- Which `HID_ID=` line counts ---

/// Position `i` of `b` begins a line: it is the start, or follows a `\n`.
pub open spec fn starts_line(b: Seq<u8>, i: int) -> bool {
    i == 0 || (0 < i <= b.len() && b[i - 1] == 10u8)
}

/// The bytes at position `i` of `b` begin with `HID_ID=`.
pub open spec fn hid_prefix_at(b: Seq<u8>, i: int) -> bool {
    0 <= i && i + 7 <= b.len() && b.subrange(i, i + 7) == hid_id_prefix()
}

/// No line of `b` starts with `HID_ID=`.
pub open spec fn no_hid_id_line(b: Seq<u8>) -> bool {
    forall|i: int| 0 <= i < b.len() && #[trigger] starts_line(b, i) ==> !hid_prefix_at(b, i)
}

/// The first line of `b` says nothing about ids when `b` does not begin with `HID_ID=`;
/// its end is the first `\n`, if any.
proof fn lemma_first_line_silent(b: Seq<u8>)
    requires
        b.len() > 0,
        !hid_prefix_at(b, 0),
    ensures
        hid_id_line(first_line(b)) is None,
        line_end(b) < b.len() ==> b[line_end(b)] == 10u8 && 0 <= line_end(b),
        line_end(b) <= b.len(),
{
    lemma_first_index_of(b, 10u8);
    let e = line_end(b);
    let l = first_line(b);
    if 7 <= l.len() && l.take(7) == hid_id_prefix() {
        assert(l.take(7) =~= b.subrange(0, 7));
    }
}

/// Lines before position `k` (which begins a line) that do not start with `HID_ID=`
/// are passed over.
proof fn lemma_skip_silent_lines(b: Seq<u8>, k: int)
    requires
        0 <= k <= b.len(),
        starts_line(b, k),
        forall|i: int| 0 <= i < k && #[trigger] starts_line(b, i) ==> !hid_prefix_at(b, i),
    ensures
        parse_hid_id_bytes(b) == parse_hid_id_bytes(b.skip(k)),
    decreases k,
{
    if k == 0 {
        assert(b.skip(0) =~= b);
    } else {
        assert(starts_line(b, 0));
        lemma_first_line_silent(b);
        lemma_first_index_of(b, 10u8);
        assert(b[k - 1] == 10u8);
        let e = line_end(b);
        assert(e <= k - 1);
        let t = b.skip(e + 1);
        let k2 = k - e - 1;
        assert forall|i: int| 0 <= i < k2 && #[trigger] starts_line(t, i) implies !hid_prefix_at(t, i) by {
            assert(starts_line(b, i + e + 1));
            if hid_prefix_at(t, i) {
                assert(t.subrange(i, i + 7) =~= b.subrange(i + e + 1, i + e + 8));
            }
        }
        assert(starts_line(t, k2));
        lemma_skip_silent_lines(t, k2);
        assert(t.skip(k2) =~= b.skip(k));
    }
}

/// A uevent file in which no line starts with `HID_ID=` gives no ids.
pub proof fn lemma_no_hid_id_line(b: Seq<u8>)
    requires
        no_hid_id_line(b),
    ensures
        parse_hid_id_bytes(b) is None,
    decreases b.len(),
{
    if b.len() > 0 {
        assert(starts_line(b, 0));
        lemma_first_line_silent(b);
        let e = line_end(b);
        if e < b.len() {
            let t = b.skip(e + 1);
            assert forall|i: int| 0 <= i < t.len() && #[trigger] starts_line(t, i) implies !hid_prefix_at(t, i) by {
                assert(starts_line(b, i + e + 1));
                if hid_prefix_at(t, i) {
                    assert(t.subrange(i, i + 7) =~= b.subrange(i + e + 1, i + e + 8));
                }
            }
            lemma_no_hid_id_line(t);
        }
    }
}

// --- The ids of a well-formed `HID_ID=` line ---

/// An uppercase hexadecimal digit, as `{:X}` writes it.
pub open spec fn upper_hex_digit(n: nat) -> u8 {
    if n < 10 { (48 + n) as u8 } else { (55 + n) as u8 }
}

/// `v` in `w` uppercase hexadecimal digits, zero-padded, as `{:0wX}` writes a number below
/// `16^w`.
pub open spec fn hex_field(v: nat, w: nat) -> Seq<u8>
    decreases w,
{
    if w == 0 {
        Seq::empty()
    } else {
        hex_field(v / 16, (w - 1) as nat).push(upper_hex_digit(v % 16))
    }
}

pub open spec fn pow16(w: nat) -> nat
    decreases w,
{
    if w == 0 { 1 } else { 16 * pow16((w - 1) as nat) }
}

/// The line `HID_ID=BBBB:VVVVVVVV:PPPPPPPP` and its `\n`, as the kernel writes it.
pub open spec fn hid_id_line_bytes(bus: u16, v: u16, p: u16) -> Seq<u8> {
    hid_id_prefix() + hex_field(bus as nat, 4) + seq![58u8] + hex_field(v as nat, 8) + seq![58u8]
        + hex_field(p as nat, 8) + seq![10u8]
}

pub open spec fn is_hex_digit_byte(b: u8) -> bool {
    (48 <= b <= 57) || (65 <= b <= 70)
}

proof fn lemma_hex_field(v: nat, w: nat)
    ensures
        hex_field(v, w).len() == w,
        forall|i: int| 0 <= i < w ==> is_hex_digit_byte(#[trigger] hex_field(v, w)[i]),
        v < pow16(w) ==> digits_value(hex_field(v, w), 16) == Some(v),
    decreases w,
{
    if w > 0 {
        lemma_hex_field(v / 16, (w - 1) as nat);
        let s = hex_field(v, w);
        assert(s.drop_last() =~= hex_field(v / 16, (w - 1) as nat));
        assert forall|i: int| 0 <= i < w implies is_hex_digit_byte(#[trigger] hex_field(v, w)[i]) by {
            if i < w - 1 {
                assert(s[i] == hex_field(v / 16, (w - 1) as nat)[i]);
            }
        }
        if v < pow16(w) {
            assert(v / 16 < pow16((w - 1) as nat)) by (nonlinear_arith)
                requires v < 16 * pow16((w - 1) as nat);
            assert(v == 16 * (v / 16) + v % 16) by (nonlinear_arith);
        }
    }
}

proof fn lemma_leading_zero_digit(s: Seq<u8>, radix: nat)
    requires
        s.len() > 0,
        s[0] == 48u8,
        radix > 0,
    ensures
        digits_value(s, radix) == digits_value(s.drop_first(), radix),
    decreases s.len(),
{
    assert(digit_value(48u8, radix) == Some(0nat));
    assert(radix * 0 == 0) by (nonlinear_arith);
    if s.len() == 1 {
        assert(s.drop_last() =~= Seq::<u8>::empty());
        assert(s.drop_first() =~= Seq::<u8>::empty());
        assert(digits_value(Seq::<u8>::empty(), radix) == Some(0nat));
        assert(s.last() == 48u8);
    } else {
        lemma_leading_zero_digit(s.drop_last(), radix);
        assert(s.drop_last().drop_first() =~= s.drop_first().drop_last());
        assert(s.drop_first().last() == s.last());
    }
}

proof fn lemma_trim_keeps_value(s: Seq<u8>, radix: nat)
    requires
        radix > 0,
    ensures
        digits_value(trim_leading_zeros(s), radix) == digits_value(s, radix),
        s.len() >= trim_leading_zeros(s).len(),
        trim_leading_zeros(s) == s.skip(s.len() - trim_leading_zeros(s).len()),
    decreases s.len(),
{
    if s.len() > 0 && s[0] == 48u8 {
        lemma_leading_zero_digit(s, radix);
        lemma_trim_keeps_value(s.drop_first(), radix);
        let t = trim_leading_zeros(s);
        assert(s.drop_first().skip(s.drop_first().len() - t.len()) =~= s.skip(s.len() - t.len()));
    } else {
        assert(s.skip(0) =~= s);
    }
}

/// An id field of eight digits reads as its number.
proof fn lemma_id_field(v: u16)
    ensures
        parse_id_field(hex_field(v as nat, 8)) == Some(v),
{
    let s = hex_field(v as nat, 8);
    assert(pow16(8) == 4294967296) by {
        reveal_with_fuel(pow16, 9);
    }
    lemma_hex_field(v as nat, 8);
    lemma_trim_keeps_value(s, 16);
    let t = trim_leading_zeros(s);
    if t.len() > 0 {
        assert(t[0] == s[s.len() - t.len()]);
        assert(t[0] != 43u8);
    } else {
        assert(t =~= Seq::<u8>::empty());
        assert(s[0] != 43u8);
    }
}

proof fn lemma_no_byte_in_hex(v: nat, w: nat, x: u8)
    requires
        !is_hex_digit_byte(x),
    ensures
        first_index_of(hex_field(v, w), x) is None,
{
    lemma_hex_field(v, w);
    lemma_first_index_absent(hex_field(v, w), x);
}

/// The bytes of a well-formed `HID_ID=` line, without its `\n`, give its ids.
proof fn lemma_hid_line_ids(bus: u16, v: u16, p: u16)
    ensures
        hid_id_line(hid_id_prefix() + hex_field(bus as nat, 4) + seq![58u8] + hex_field(v as nat, 8) + seq![58u8]
            + hex_field(p as nat, 8)) == Some(Some((v, p))),
{
    let hb = hex_field(bus as nat, 4);
    let hv = hex_field(v as nat, 8);
    let hp = hex_field(p as nat, 8);
    lemma_hex_field(bus as nat, 4);
    lemma_hex_field(v as nat, 8);
    lemma_hex_field(p as nat, 8);
    let l = hid_id_prefix() + hb + seq![58u8] + hv + seq![58u8] + hp;
    assert(l.take(7) =~= hid_id_prefix());
    let rest = l.skip(7);
    assert(rest =~= hb + seq![58u8] + hv + seq![58u8] + hp);
    assert forall|j: int| 0 <= j < 4 implies rest[j] != 58u8 by {
        assert(rest[j] == hb[j]);
    }
    lemma_first_index_exact(rest, 58u8, 4);
    let r1 = rest.skip(5);
    assert(r1 =~= hv + seq![58u8] + hp);
    assert forall|j: int| 0 <= j < 8 implies r1[j] != 58u8 by {
        assert(r1[j] == hv[j]);
    }
    lemma_first_index_exact(r1, 58u8, 8);
    let r2 = r1.skip(9);
    assert(r2 =~= hp);
    lemma_no_byte_in_hex(p as nat, 8, 58u8);
    assert(r1.take(8) =~= hv);
    lemma_id_field(v);
    lemma_id_field(p);
}

/// A uevent file that begins with a well-formed `HID_ID=` line gives its ids.
proof fn lemma_hid_line_first(bus: u16, v: u16, p: u16, tail: Seq<u8>)
    ensures
        parse_hid_id_bytes(hid_id_line_bytes(bus, v, p) + tail) == Some((v, p)),
{
    let hb = hex_field(bus as nat, 4);
    let hv = hex_field(v as nat, 8);
    let hp = hex_field(p as nat, 8);
    lemma_hex_field(bus as nat, 4);
    lemma_hex_field(v as nat, 8);
    lemma_hex_field(p as nat, 8);
    let c = hid_id_line_bytes(bus, v, p) + tail;
    assert forall|j: int| 0 <= j < 29 implies c[j] != 10u8 by {
        if 7 <= j < 11 { assert(c[j] == hb[j - 7]); }
        else if 12 <= j < 20 { assert(c[j] == hv[j - 12]); }
        else if 21 <= j < 29 { assert(c[j] == hp[j - 21]); }
    }
    assert(c[29] == 10u8);
    lemma_first_index_exact(c, 10u8, 29);
    assert(c[28] == hp[7]);
    assert(line_end(c) == 29);
    assert(first_line(c) =~= hid_id_prefix() + hb + seq![58u8] + hv + seq![58u8] + hp);
    lemma_hid_line_ids(bus, v, p);
}

/// The first line that starts with `HID_ID=` decides: a file whose earlier lines do not
/// start with it, followed by a line `HID_ID=BBBB:VVVVVVVV:PPPPPPPP` as the kernel writes
/// it, gives that line's vendor and product ids, whatever follows (ids 0 included).
pub proof fn lemma_first_hid_id_line_counts(head: Seq<u8>, bus: u16, v: u16, p: u16, tail: Seq<u8>)
    requires
        no_hid_id_line(head),
        head.len() == 0 || head.last() == 10u8,
    ensures
        parse_hid_id_bytes(head + hid_id_line_bytes(bus, v, p) + tail) == Some((v, p)),
{
    let line = hid_id_line_bytes(bus, v, p);
    let b = head + line + tail;
    let k = head.len() as int;
    assert forall|i: int| 0 <= i < k && #[trigger] starts_line(b, i) implies !hid_prefix_at(b, i) by {
        assert(starts_line(head, i));
        if hid_prefix_at(b, i) {
            if i + 7 <= k {
                assert(b.subrange(i, i + 7) =~= head.subrange(i, i + 7));
            } else {
                assert(b[k - 1] == 10u8);
                assert(b.subrange(i, i + 7)[k - 1 - i] == hid_id_prefix()[k - 1 - i]);
            }
        }
    }
    assert(starts_line(b, k));
    lemma_skip_silent_lines(b, k);
    assert(b.skip(k) =~= line + tail);
    lemma_hid_line_first(bus, v, p, tail);
}
} // verus!
