//! UTF-16 text as NVDA's native code handles it: encoding, decimal
//! numbers, comparisons against ASCII literals.

use crate::strings::{char_from_u32, chars_of, push_char};
use vstd::string::StringSliceAdditionalSpecFns;
use vstd::prelude::*;

verus! {

/// The UTF-16 code units of one character.
pub open spec fn utf16_units(c: char) -> Seq<u16> {
    let v = c as int;
    if v < 0x10000 {
        seq![v as u16]
    } else {
        seq![(0xD800 + (v - 0x10000) / 0x400) as u16, (0xDC00 + (v - 0x10000) % 0x400) as u16]
    }
}

/// The UTF-16 encoding of a character sequence.
pub open spec fn utf16_encode(s: Seq<char>) -> Seq<u16>
    decreases s.len(),
{
    if s.len() == 0 {
        Seq::empty()
    } else {
        utf16_encode(s.drop_last()) + utf16_units(s.last())
    }
}

/// Appends the UTF-16 code units of `c`.
pub fn push_utf16(out: &mut Vec<u16>, c: char)
    ensures
        final(out)@ == old(out)@ + utf16_units(c),
{
    let v = c as u32;
    if v < 0x10000 {
        out.push(v as u16);
        assert(final(out)@ =~= old(out)@ + utf16_units(c));
    } else {
        let w = v - 0x10000;
        assert(w < 0x100000) by {
            assert(c as int <= 0x10FFFF);
        }
        out.push((0xD800 + w / 0x400) as u16);
        out.push((0xDC00 + w % 0x400) as u16);
        assert(final(out)@ =~= old(out)@ + utf16_units(c));
    }
}

/// Appends `units` to `out`.
pub fn append_units(out: &mut Vec<u16>, units: &[u16])
    ensures
        final(out)@ == old(out)@ + units@,
{
    let ghost before = out@;
    let mut k: usize = 0;
    while k < units.len()
        invariant
            k <= units@.len(),
            out@ == before + units@.take(k as int),
        decreases units@.len() - k,
    {
        out.push(units[k]);
        proof {
            assert(units@.take(k + 1) =~= units@.take(k as int).push(units@[k as int]));
        }
        k += 1;
    }
    assert(units@.take(units@.len() as int) =~= units@);
}

/// The UTF-16 encoding of `s`.
pub fn utf16(s: &str) -> (units: Vec<u16>)
    ensures
        units@ == utf16_encode(s@),
{
    let chars = chars_of(s);
    let mut units: Vec<u16> = Vec::new();
    let mut i: usize = 0;
    while i < chars.len()
        invariant
            chars@ == s@,
            i <= chars@.len(),
            units@ == utf16_encode(chars@.take(i as int)),
        decreases chars@.len() - i,
    {
        push_utf16(&mut units, chars[i]);
        proof {
            assert(chars@.take(i + 1).drop_last() =~= chars@.take(i as int));
        }
        i += 1;
    }
    assert(chars@.take(i as int) =~= s@);
    units
}

/// The code unit of an ASCII digit.
pub open spec fn digit_unit(d: int) -> u16 {
    (0x30 + d) as u16
}

/// The decimal digits of `n`, most significant first, without leading zeros.
pub open spec fn decimal_digits(n: nat) -> Seq<u16>
    decreases n,
{
    if n < 10 {
        seq![digit_unit(n as int)]
    } else {
        decimal_digits(n / 10).push(digit_unit((n % 10) as int))
    }
}

/// The decimal representation of `n`, with a leading `-` when negative.
pub open spec fn decimal(n: int) -> Seq<u16> {
    if n < 0 {
        seq![0x2Du16] + decimal_digits((-n) as nat)
    } else {
        decimal_digits(n as nat)
    }
}

pub(crate) fn push_decimal_digits(out: &mut Vec<u16>, n: u64)
    ensures
        final(out)@ == old(out)@ + decimal_digits(n as nat),
    decreases n,
{
    if n >= 10 {
        push_decimal_digits(out, n / 10);
    }
    out.push((0x30 + n % 10) as u16);
    assert(final(out)@ =~= old(out)@ + decimal_digits(n as nat));
}

/// The decimal representation of a 64-bit `n` in UTF-16.
pub fn dec64(n: i64) -> (units: Vec<u16>)
    ensures
        units@ == decimal(n as int),
{
    let mut units: Vec<u16> = Vec::new();
    if n < 0 {
        units.push(0x2D);
        let magnitude: u64 = (-(n as i128)) as u64;
        push_decimal_digits(&mut units, magnitude);
        assert(units@ =~= seq![0x2Du16] + decimal_digits((-n) as nat));
    } else {
        push_decimal_digits(&mut units, n as u64);
        assert(units@ =~= decimal_digits(n as nat));
    }
    units
}

/// The decimal representation of `n` in UTF-16.
pub fn dec(n: i32) -> (units: Vec<u16>)
    ensures
        units@ == decimal(n as int),
{
    let mut units: Vec<u16> = Vec::new();
    if n < 0 {
        units.push(0x2D);
        let magnitude: u64 = (-(n as i64)) as u64;
        push_decimal_digits(&mut units, magnitude);
        assert(units@ =~= seq![0x2Du16] + decimal_digits((-n) as nat));
    } else {
        push_decimal_digits(&mut units, n as u64);
        assert(units@ =~= decimal_digits(n as nat));
    }
    units
}

/// A code unit with ASCII `A`..`Z` lowered.
pub open spec fn ascii_lower_unit(c: u16) -> u16 {
    if 0x41 <= c <= 0x5A {
        (c + 32) as u16
    } else {
        c
    }
}

/// A byte with ASCII `A`..`Z` lowered.
pub open spec fn ascii_lower_byte(b: u8) -> u8 {
    if 0x41 <= b <= 0x5A {
        (b + 32) as u8
    } else {
        b
    }
}

/// `units[i]` and `bytes[i]` agree once ASCII letters are lowered, for
/// every `i < bytes.len()`.
pub open spec fn agrees_ignoring_ascii_case(units: Seq<u16>, bytes: Seq<u8>) -> bool {
    forall|i: int|
        0 <= i < bytes.len() ==> ascii_lower_unit(#[trigger] units[i]) == ascii_lower_byte(bytes[i])
            as u16
}

fn agrees_ignoring_ascii_case_exec(units: &[u16], bytes: &[u8]) -> (b: bool)
    requires
        bytes@.len() <= units@.len(),
    ensures
        b == agrees_ignoring_ascii_case(units@, bytes@),
{
    let mut i: usize = 0;
    while i < bytes.len()
        invariant
            bytes@.len() <= units@.len(),
            i <= bytes@.len(),
            forall|j: int|
                0 <= j < i ==> ascii_lower_unit(#[trigger] units@[j]) == ascii_lower_byte(bytes@[j])
                    as u16,
        decreases bytes@.len() - i,
    {
        let c = units[i];
        let lc: u16 = if 0x41 <= c && c <= 0x5A {
            c + 32
        } else {
            c
        };
        let d = bytes[i];
        let ld: u8 = if 0x41 <= d && d <= 0x5A {
            d + 32
        } else {
            d
        };
        if lc != ld as u16 {
            return false;
        }
        i += 1;
    }
    true
}

/// `true` when `units` begins with the bytes of `prefix`, ignoring the
/// case of ASCII letters.
pub fn starts_with_ascii_ci(units: &[u16], prefix: &str) -> (b: bool)
    ensures
        b == (prefix.spec_bytes().len() <= units@.len() && agrees_ignoring_ascii_case(
            units@,
            prefix.spec_bytes(),
        )),
{
    let bytes = prefix.as_bytes();
    if units.len() < bytes.len() {
        return false;
    }
    agrees_ignoring_ascii_case_exec(units, bytes)
}

/// `units` and the bytes of `ascii` have the same length and agree
/// ignoring the case of ASCII letters.
pub open spec fn eq_ic_spec(units: Seq<u16>, ascii: &str) -> bool {
    units.len() == ascii.spec_bytes().len() && agrees_ignoring_ascii_case(units, ascii.spec_bytes())
}

/// `true` when `units` and the bytes of `ascii` have the same length and
/// agree ignoring the case of ASCII letters.
pub fn eq_ic(units: &[u16], ascii: &str) -> (b: bool)
    ensures
        b == eq_ic_spec(units@, ascii),
{
    let bytes = ascii.as_bytes();
    if units.len() != bytes.len() {
        return false;
    }
    agrees_ignoring_ascii_case_exec(units, bytes)
}

/// The bytes of a string, each widened to a code unit.
pub open spec fn widened_bytes(bytes: Seq<u8>) -> Seq<u16> {
    bytes.map_values(|b: u8| b as u16)
}

/// The code units of an ASCII text: each of its bytes widened to a unit.
/// For constant names and values, which are ASCII.
pub fn ascii_utf16(s: &str) -> (units: Vec<u16>)
    requires
        vstd::string::is_ascii(s),
    ensures
        units@ == widened_bytes(s.spec_bytes()),
        units@ == utf16_encode(s@),
        forall|i: int| 0 <= i < units@.len() ==> #[trigger] units@[i] < 0x80,
{
    proof {
        vstd::string::is_ascii_spec_bytes(s);
    }
    let bytes = s.as_bytes();
    let mut units: Vec<u16> = Vec::new();
    let mut i: usize = 0;
    while i < bytes.len()
        invariant
            i <= bytes@.len(),
            bytes@ == s.spec_bytes(),
            bytes@.len() == s@.len(),
            forall|j: int| 0 <= j < bytes@.len() ==> #[trigger] bytes@[j] == s@[j] as u8,
            vstd::string::is_ascii(s),
            units@ == widened_bytes(bytes@.take(i as int)),
        decreases bytes@.len() - i,
    {
        units.push(bytes[i] as u16);
        proof {
            assert(widened_bytes(bytes@.take(i + 1)) =~= widened_bytes(bytes@.take(i as int)).push(
                bytes@[i as int] as u16,
            ));
        }
        i += 1;
    }
    assert(bytes@.take(i as int) =~= bytes@);
    proof {
        lemma_ascii_utf16_encode(s@);
        assert forall|j: int| 0 <= j < bytes@.len() implies (bytes@[j] as u16) == (s@[j] as u16) by {
            assert(bytes@[j] == s@[j] as u8);
            assert(s@[j] <= '\u{7f}');
        }
        assert(widened_bytes(bytes@) =~= s@.map_values(|c: char| c as u16));
    }
    assert forall|i: int| 0 <= i < units@.len() implies #[trigger] units@[i] < 0x80 by {
        assert(s@[i] <= '\u{7f}');
    }
    units
}

/// An ASCII text encodes in UTF-16 as its characters, one unit each.
pub proof fn lemma_ascii_utf16_encode(chars: Seq<char>)
    requires
        vstd::utf8::is_ascii_chars(chars),
    ensures
        utf16_encode(chars) == chars.map_values(|c: char| c as u16),
    decreases chars.len(),
{
    if chars.len() > 0 {
        lemma_ascii_utf16_encode(chars.drop_last());
        assert(chars.drop_last().map_values(|c: char| c as u16).push(chars.last() as u16)
            =~= chars.map_values(|c: char| c as u16));
    } else {
        assert(chars.map_values(|c: char| c as u16) =~= Seq::<u16>::empty());
    }
}

/// `true` when `units` holds exactly the bytes of `ascii`, each widened
/// to a code unit.
pub fn slice_eq(units: &[u16], ascii: &str) -> (b: bool)
    ensures
        b == (units@ == widened_bytes(ascii.spec_bytes())),
{
    let bytes = ascii.as_bytes();
    if units.len() != bytes.len() {
        assert(widened_bytes(bytes@).len() == bytes@.len());
        return false;
    }
    let mut i: usize = 0;
    while i < bytes.len()
        invariant
            bytes@ == ascii.spec_bytes(),
            units@.len() == bytes@.len(),
            i <= bytes@.len(),
            forall|j: int| 0 <= j < i ==> units@[j] == bytes@[j] as u16,
        decreases bytes@.len() - i,
    {
        if units[i] != bytes[i] as u16 {
            assert(widened_bytes(bytes@)[i as int] != units@[i as int]);
            return false;
        }
        i += 1;
    }
    assert(units@ =~= widened_bytes(bytes@));
    true
}

/// `true` when `units` is the UTF-16 encoding of `s`.
pub fn weq(units: &[u16], s: &str) -> (b: bool)
    ensures
        b == (units@ == utf16_encode(s@)),
{
    let encoded = utf16(s);
    if units.len() != encoded.len() {
        return false;
    }
    let mut i: usize = 0;
    while i < encoded.len()
        invariant
            encoded@ == utf16_encode(s@),
            units@.len() == encoded@.len(),
            i <= encoded@.len(),
            forall|j: int| 0 <= j < i ==> units@[j] == encoded@[j],
        decreases encoded@.len() - i,
    {
        if units[i] != encoded[i] {
            assert(units@[i as int] != encoded@[i as int]);
            return false;
        }
        i += 1;
    }
    assert(units@ =~= encoded@);
    true
}


/// A leading (high) surrogate.
pub open spec fn is_high_surrogate(u: u16) -> bool {
    0xD800 <= u < 0xDC00
}

/// A trailing (low) surrogate.
pub open spec fn is_low_surrogate(u: u16) -> bool {
    0xDC00 <= u < 0xE000
}

/// The character that a surrogate pair encodes.
pub open spec fn pair_char(high: u16, low: u16) -> char {
    (0x10000 + (high - 0xD800) * 0x400 + (low - 0xDC00)) as char
}

/// UTF-16 decoding that replaces each unpaired surrogate by U+FFFD, as
/// `String::from_utf16_lossy` does.
pub open spec fn decode_utf16_lossy(units: Seq<u16>) -> Seq<char>
    decreases units.len(),
{
    if units.len() == 0 {
        Seq::empty()
    } else if units.len() >= 2 && is_high_surrogate(units[0]) && is_low_surrogate(units[1]) {
        seq![pair_char(units[0], units[1])] + decode_utf16_lossy(units.skip(2))
    } else if is_high_surrogate(units[0]) || is_low_surrogate(units[0]) {
        seq!['\u{FFFD}'] + decode_utf16_lossy(units.skip(1))
    } else {
        seq![units[0] as char] + decode_utf16_lossy(units.skip(1))
    }
}

/// The text that `units` encode, with each unpaired surrogate replaced by
/// U+FFFD.
pub fn utf16_lossy(units: &[u16]) -> (text: String)
    ensures
        text@ == decode_utf16_lossy(units@),
{
    let mut text = String::new();
    let mut i: usize = 0;
    assert(units@.skip(0) =~= units@);
    assert(text@ + decode_utf16_lossy(units@) =~= decode_utf16_lossy(units@));
    while i < units.len()
        invariant
            i <= units@.len(),
            text@ + decode_utf16_lossy(units@.skip(i as int)) == decode_utf16_lossy(units@),
        decreases units@.len() - i,
    {
        let rest = Ghost(units@.skip(i as int));
        let u = units[i];
        assert(rest@[0] == u);
        if u >= 0xD800 && u < 0xDC00 && i + 1 < units.len() && units[i + 1] >= 0xDC00
            && units[i + 1] < 0xE000 {
            let low = units[i + 1];
            assert(rest@[1] == low);
            let v: u32 = 0x10000 + (u as u32 - 0xD800) * 0x400 + (low as u32 - 0xDC00);
            let c = char_from_u32(v);
            match c {
                Some(c) => push_char(&mut text, c),
                None => {},
            }
            assert(rest@.skip(2) =~= units@.skip(i + 2));
            assert(text@ + decode_utf16_lossy(units@.skip(i + 2)) =~= decode_utf16_lossy(units@));
            i += 2;
        } else {
            if u >= 0xD800 && u < 0xE000 {
                push_char(&mut text, '\u{FFFD}');
            } else {
                let c = char_from_u32(u as u32);
                match c {
                    Some(c) => push_char(&mut text, c),
                    None => {},
                }
            }
            assert(rest@.skip(1) =~= units@.skip(i + 1));
            assert(text@ + decode_utf16_lossy(units@.skip(i + 1)) =~= decode_utf16_lossy(units@));
            i += 1;
        }
    }
    assert(units@.skip(i as int) =~= Seq::<u16>::empty());
    assert(text@ =~= text@ + decode_utf16_lossy(Seq::<u16>::empty()));
    text
}

/// The units before the first NUL (all of them when there is none).
pub open spec fn until_nul(units: Seq<u16>) -> Seq<u16>
    decreases units.len(),
{
    if units.len() == 0 || units[0] == 0 {
        Seq::empty()
    } else {
        seq![units[0]] + until_nul(units.skip(1))
    }
}

} // verus!
