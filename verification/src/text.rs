//! Text helpers shared by the config format and the device-discovery parsers:
//! string comparison, hexadecimal and decimal rendering, and radix-16 parsing
//! with the rules of `u8::from_str_radix` / `u16::from_str_radix`.
use vstd::prelude::*;

verus! {

/// Compares two string slices character by character.
pub fn str_eq(a: &str, b: &str) -> (r: bool)
    ensures
        r == (a@ == b@),
{
    let n = a.unicode_len();
    if n != b.unicode_len() {
        return false;
    }
    let mut i: usize = 0;
    while i < n
        invariant
            n == a@.len(),
            n == b@.len(),
            i <= n,
            forall|j: int| 0 <= j < i ==> a@[j] == b@[j],
        decreases n - i,
    {
        if a.get_char(i) != b.get_char(i) {
            return false;
        }
        i = i + 1;
    }
    assert(a@ =~= b@);
    true
}

/// Whether `s` begins with the characters of `prefix`.
pub open spec fn has_prefix(s: Seq<char>, prefix: Seq<char>) -> bool {
    prefix.len() <= s.len() && s.subrange(0, prefix.len() as int) == prefix
}

/// Checks whether `s` begins with `prefix`.
pub fn starts_with(s: &str, prefix: &str) -> (r: bool)
    ensures
        r == has_prefix(s@, prefix@),
{
    let n = s.unicode_len();
    let m = prefix.unicode_len();
    if m > n {
        return false;
    }
    let mut i: usize = 0;
    while i < m
        invariant
            n == s@.len(),
            m == prefix@.len(),
            m <= n,
            i <= m,
            forall|j: int| 0 <= j < i ==> s@[j] == prefix@[j],
        decreases m - i,
    {
        if s.get_char(i) != prefix.get_char(i) {
            assert(s@.subrange(0, m as int)[i as int] != prefix@[i as int]);
            return false;
        }
        i = i + 1;
    }
    assert(s@.subrange(0, m as int) =~= prefix@);
    true
}

/// The lowercase hexadecimal digit for `n` (which is below 16).
pub open spec fn hex_digit_char(n: nat) -> char {
    if n < 10 {
        (48 + n) as char
    } else {
        (87 + n) as char
    }
}

/// Two lowercase hexadecimal digits for a byte, as `{:02x}` writes them.
pub open spec fn hex_byte_chars(b: u8) -> Seq<char> {
    seq![hex_digit_char((b / 16) as nat), hex_digit_char((b % 16) as nat)]
}

/// The decimal digits of `n`, as `{}` writes an unsigned integer.
pub open spec fn decimal_chars(n: nat) -> Seq<char>
    decreases n,
{
    if n < 10 {
        seq![hex_digit_char(n)]
    } else {
        decimal_chars(n / 10).push(hex_digit_char(n % 10))
    }
}

/// A one-character string holding the hexadecimal digit `n`.
pub fn digit_str(n: u8) -> (r: &'static str)
    requires
        n < 16,
    ensures
        r@ == seq![hex_digit_char(n as nat)],
{
    match n {
        0 => { proof { reveal_strlit("0"); } "0" },
        1 => { proof { reveal_strlit("1"); } "1" },
        2 => { proof { reveal_strlit("2"); } "2" },
        3 => { proof { reveal_strlit("3"); } "3" },
        4 => { proof { reveal_strlit("4"); } "4" },
        5 => { proof { reveal_strlit("5"); } "5" },
        6 => { proof { reveal_strlit("6"); } "6" },
        7 => { proof { reveal_strlit("7"); } "7" },
        8 => { proof { reveal_strlit("8"); } "8" },
        9 => { proof { reveal_strlit("9"); } "9" },
        10 => { proof { reveal_strlit("a"); } "a" },
        11 => { proof { reveal_strlit("b"); } "b" },
        12 => { proof { reveal_strlit("c"); } "c" },
        13 => { proof { reveal_strlit("d"); } "d" },
        14 => { proof { reveal_strlit("e"); } "e" },
        _ => { proof { reveal_strlit("f"); } "f" },
    }
}

/// Appends the two lowercase hexadecimal digits of `b`.
pub fn push_hex_byte(s: &mut String, b: u8)
    ensures
        final(s)@ == old(s)@ + hex_byte_chars(b),
{
    s.append(digit_str(b / 16));
    s.append(digit_str(b % 16));
    assert(final(s)@ =~= old(s)@ + hex_byte_chars(b));
}

/// Appends the decimal digits of `n`.
pub fn push_decimal(s: &mut String, n: usize)
    ensures
        final(s)@ == old(s)@ + decimal_chars(n as nat),
    decreases n,
{
    if n < 10 {
        s.append(digit_str(n as u8));
        assert(final(s)@ =~= old(s)@ + decimal_chars(n as nat));
    } else {
        push_decimal(s, n / 10);
        s.append(digit_str((n % 10) as u8));
        assert(final(s)@ =~= old(s)@ + decimal_chars(n as nat));
    }
}

/// The decimal digits of `n` never start a longer or shorter sequence for another number.
pub proof fn lemma_decimal_chars_injective(a: nat, b: nat)
    requires
        decimal_chars(a) == decimal_chars(b),
    ensures
        a == b,
    decreases a,
{
    lemma_decimal_chars_len(a);
    lemma_decimal_chars_len(b);
    let da = decimal_chars(a);
    let db = decimal_chars(b);
    assert(da[da.len() - 1] == db[db.len() - 1]);
    if a < 10 && b < 10 {
        assert(da[0] == hex_digit_char(a));
        assert(db[0] == hex_digit_char(b));
        lemma_hex_digit_char_injective(a, b);
    } else if a >= 10 && b >= 10 {
        assert(da.drop_last() =~= decimal_chars(a / 10));
        assert(db.drop_last() =~= decimal_chars(b / 10));
        lemma_decimal_chars_injective(a / 10, b / 10);
        assert(da[da.len() - 1] == hex_digit_char(a % 10));
        assert(db[db.len() - 1] == hex_digit_char(b % 10));
        lemma_hex_digit_char_injective(a % 10, b % 10);
    } else if a >= 10 {
        lemma_decimal_chars_len(a / 10);
    } else {
        lemma_decimal_chars_len(b / 10);
    }
}

/// Distinct digit values give distinct digit characters.
pub proof fn lemma_hex_digit_char_injective(a: nat, b: nat)
    requires
        a < 16,
        b < 16,
        hex_digit_char(a) == hex_digit_char(b),
    ensures
        a == b,
{
    assert(hex_digit_char(a) as int == (if a < 10 { 48 + a } else { 87 + a }));
    assert(hex_digit_char(b) as int == (if b < 10 { 48 + b } else { 87 + b }));
}

/// Every decimal rendering is non-empty and made of ASCII digits.
pub proof fn lemma_decimal_chars_len(n: nat)
    ensures
        decimal_chars(n).len() >= 1,
        n >= 10 ==> decimal_chars(n).len() >= 2,
        forall|i: int| 0 <= i < decimal_chars(n).len() ==> '0' <= #[trigger] decimal_chars(n)[i] <= '9',
    decreases n,
{
    if n >= 10 {
        lemma_decimal_chars_len(n / 10);
        let d = decimal_chars(n);
        assert forall|i: int| 0 <= i < d.len() implies '0' <= #[trigger] d[i] <= '9' by {
            if i < d.len() - 1 {
                assert(d[i] == decimal_chars(n / 10)[i]);
            }
        }
    }
}

// --- radix parsing ---

/// The value of one digit byte in the given radix (`0`-`9`, then letters of either case),
/// if it is one.
pub open spec fn digit_value(b: u8, radix: nat) -> Option<nat> {
    let v: int = if 48 <= b <= 57 {
        b - 48
    } else if 97 <= b <= 122 {
        b - 87
    } else if 65 <= b <= 90 {
        b - 55
    } else {
        radix as int
    };
    if v < radix {
        Some(v as nat)
    } else {
        None
    }
}

/// The value of a sequence of digit bytes; `None` when a byte is not a digit.
pub open spec fn digits_value(ds: Seq<u8>, radix: nat) -> Option<nat>
    decreases ds.len(),
{
    if ds.len() == 0 {
        Some(0)
    } else {
        match digits_value(ds.drop_last(), radix) {
            None => None,
            Some(p) => match digit_value(ds.last(), radix) {
                None => None,
                Some(d) => Some(radix * p + d),
            },
        }
    }
}

/// What `from_str_radix(s, radix)` (and, for radix 10, `parse`) gives for an unsigned type
/// whose largest value is `max`: an optional leading `+`, then at least one digit, and a
/// value that fits.
pub open spec fn radix_value(s: Seq<u8>, radix: nat, max: nat) -> Option<nat> {
    let digits = if s.len() > 0 && s[0] == 43u8 { s.drop_first() } else { s };
    if digits.len() == 0 {
        None
    } else {
        match digits_value(digits, radix) {
            Some(v) if v <= max => Some(v),
            _ => None,
        }
    }
}

proof fn lemma_digits_prefix(s: Seq<u8>, radix: nat, k: int)
    requires
        0 <= k <= s.len(),
    ensures
        digits_value(s.take(k), radix) is None ==> digits_value(s, radix) is None,
        digits_value(s, radix) matches Some(f) ==> (digits_value(s.take(k), radix) matches Some(p) && p <= f),
    decreases s.len(),
{
    if k < s.len() {
        assert(s.drop_last().take(k) =~= s.take(k));
        lemma_digits_prefix(s.drop_last(), radix, k);
        if digits_value(s, radix) is Some {
            let p = digits_value(s.drop_last(), radix)->0;
            let d = digit_value(s.last(), radix)->0;
            assert(radix * p + d >= p) by (nonlinear_arith)
                requires radix >= 0, p >= 0, d >= 0, radix >= 1 || p == 0;
        }
    } else {
        assert(s.take(k) =~= s);
    }
}

/// Parses `b[start..end]` with the rules of `from_str_radix(_, radix)` for a type whose
/// largest value is `max`.
pub fn parse_radix(b: &[u8], start: usize, end: usize, radix: u32, max: u32) -> (r: Option<u32>)
    requires
        start <= end <= b@.len(),
        2 <= radix <= 36,
        radix - 1 <= max,
    ensures
        match r {
            Some(v) => radix_value(b@.subrange(start as int, end as int), radix as nat, max as nat) == Some(v as nat),
            None => radix_value(b@.subrange(start as int, end as int), radix as nat, max as nat) is None,
        },
{
    let ghost whole = b@.subrange(start as int, end as int);
    let mut first = start;
    if start < end && b[start] == 43u8 {
        first = start + 1;
    }
    let ghost digits = b@.subrange(first as int, end as int);
    assert(digits =~= (if whole.len() > 0 && whole[0] == 43u8 { whole.drop_first() } else { whole }));
    if first == end {
        return None;
    }
    let mut v: u32 = 0;
    let mut i: usize = first;
    while i < end
        invariant
            first <= i <= end <= b@.len(),
            2 <= radix <= 36,
            radix - 1 <= max,
            digits == b@.subrange(first as int, end as int),
            whole == b@.subrange(start as int, end as int),
            radix_value(whole, radix as nat, max as nat) == (match digits_value(digits, radix as nat) {
                Some(x) if x <= max => Some(x),
                _ => None,
            }),
            digits_value(b@.subrange(first as int, i as int), radix as nat) == Some(v as nat),
            v <= max,
        decreases end - i,
    {
        let c = b[i];
        let raw: u32 = if 48 <= c && c <= 57 {
            (c - 48) as u32
        } else if 97 <= c && c <= 122 {
            (c - 87) as u32
        } else if 65 <= c && c <= 90 {
            (c - 55) as u32
        } else {
            radix
        };
        proof {
            assert(b@.subrange(first as int, i + 1).drop_last() =~= b@.subrange(first as int, i as int));
            assert(digits.take(i + 1 - first) =~= b@.subrange(first as int, i + 1));
        }
        if raw >= radix {
            proof {
                lemma_digits_prefix(digits, radix as nat, i + 1 - first);
                assert(digits_value(digits, radix as nat) is None);
            }
            return None;
        }
        let d = raw;
        if v > (max - d) / radix {
            proof {
                assert(radix * v + d > max) by (nonlinear_arith)
                    requires v > (max - d) as int / radix as int, d <= max, radix >= 2;
                lemma_digits_prefix(digits, radix as nat, i + 1 - first);
                assert(digits_value(b@.subrange(first as int, i + 1), radix as nat) == Some((radix * v + d) as nat));
                assert(radix_value(whole, radix as nat, max as nat) is None);
            }
            return None;
        }
        proof {
            assert(radix * v + d <= max) by (nonlinear_arith)
                requires v <= (max - d) as int / radix as int, d <= max, radix >= 2;
        }
        v = radix * v + d;
        i = i + 1;
    }
    Some(v)
}

// --- character-level editing ---

/// Calls `String::push`. Its contract, taken from the standard library's documentation and
/// not proved here: the string's characters gain `c` at the end.
#[verifier::external_body]
pub(crate) fn push_char(s: &mut String, c: char)
    ensures
        final(s)@ == old(s)@.push(c),
{
    s.push(c);
}

/// Calls `String::pop`. Its contract, taken from the standard library's documentation and
/// not proved here: the last character is removed and returned; an empty string gives
/// `None` and stays as it is.
#[verifier::external_body]
pub(crate) fn pop_char(s: &mut String) -> (r: Option<char>)
    ensures
        old(s)@.len() == 0 ==> r is None && final(s)@ == old(s)@,
        old(s)@.len() > 0 ==> r == Some(old(s)@.last()) && final(s)@ == old(s)@.drop_last(),
{
    s.pop()
}


// --- padding ---

/// `s` followed by spaces up to `width` characters, as `{:width}` writes a string; a
/// longer `s` is kept whole.
pub open spec fn pad_right(s: Seq<char>, width: nat) -> Seq<char> {
    if s.len() >= width {
        s
    } else {
        s + Seq::new((width - s.len()) as nat, |i: int| ' ')
    }
}

/// Appends `text` padded with spaces to `width` characters.
pub fn push_padded(s: &mut String, text: &str, width: usize)
    ensures
        final(s)@ == old(s)@ + pad_right(text@, width as nat),
{
    s.append(text);
    let n = text.unicode_len();
    assert(s@ =~= old(s)@ + text@ + Seq::new(0, |i: int| ' '));
    let mut k: usize = n;
    while k < width
        invariant
            n == text@.len(),
            n <= width ==> n <= k <= width,
            n > width ==> k == n,
            s@ == old(s)@ + text@ + Seq::new((k - n) as nat, |i: int| ' '),
        decreases width - k,
    {
        s.append(" ");
        proof {
            reveal_strlit(" ");
            assert(old(s)@ + text@ + Seq::new((k + 1 - n) as nat, |i: int| ' ')
                =~= old(s)@ + text@ + Seq::new((k - n) as nat, |i: int| ' ') + " "@);
        }
        k = k + 1;
    }
    assert(final(s)@ =~= old(s)@ + pad_right(text@, width as nat));
}

} // verus!
