//! Hardware port records and the rules for classifying serial, USB and
//! HID devices from their hardware ids, with the cache of HID details.

use crate::keyed_map::KeyedMap;
use crate::search::{
    bytes_start_with, contains_seq, find_bytes, find_chars, first_occurrence, starts_with_seq,
};
use crate::strings::{chars_of, push_char, str_contains, str_eq, str_starts_with};
use crate::wide::{decode_utf16_lossy, until_nul, utf16, utf16_encode, utf16_lossy};
use vstd::prelude::*;
use vstd::string::StringSliceAdditionalSpecFns;

verus! {

/// A serial (COM) port.
pub struct ComPort {
    pub port: String,
    pub friendly_name: String,
    pub hardware_id: Option<String>,
    pub bluetooth_address: Option<u64>,
    pub bluetooth_name: Option<String>,
    pub usb_id: Option<String>,
}

/// A USB device.
pub struct UsbDevice {
    pub hardware_id: Option<String>,
    pub usb_id: Option<String>,
    pub device_path: Option<String>,
    pub bus_reported_device_description: Option<String>,
}

/// A HID device.
pub struct HidDevice {
    pub hardware_id: String,
    pub device_path: String,
    pub provider: Option<String>,
    pub usb_id: Option<String>,
    pub vendor_id: Option<u16>,
    pub product_id: Option<u16>,
    pub version_number: Option<u16>,
    pub manufacturer: Option<String>,
    pub product: Option<String>,
    pub hid_usage_page: Option<u16>,
}

/// `s` as a null-terminated UTF-16 string.
pub fn to_wide(s: &str) -> (units: Vec<u16>)
    ensures
        units@ == utf16_encode(s@).push(0u16),
{
    let mut units = utf16(s);
    units.push(0);
    units
}

/// Calls `str::get(start..end)`: the part of `s` between the byte
/// offsets `start` and `end`, present exactly when `start <= end <=
/// s.len()` and both offsets are character boundaries.
#[verifier::external_body]
fn str_get<'a>(s: &'a str, start: usize, end: usize) -> (part: Option<&'a str>)
    ensures
        part matches Some(p) ==> p.spec_bytes() == s.spec_bytes().subrange(start as int, end as int),
        part is Some <==> (start <= end <= s.spec_bytes().len() && vstd::utf8::is_char_boundary(
            s.spec_bytes(),
            start as int,
        ) && vstd::utf8::is_char_boundary(s.spec_bytes(), end as int)),
{
    s.get(start..end)
}

/// The part of `s` between byte offsets `start` and `end`, as `str::get`
/// gives it.
pub open spec fn byte_range(s: &str, start: int, end: int) -> Option<Seq<u8>> {
    bytes_between(s.spec_bytes(), start, end)
}

/// The bytes of UTF-8 text between two offsets, where both are within it
/// and on character boundaries.
pub open spec fn bytes_between(bytes: Seq<u8>, start: int, end: int) -> Option<Seq<u8>> {
    if 0 <= start <= end <= bytes.len() && vstd::utf8::is_char_boundary(bytes, start)
        && vstd::utf8::is_char_boundary(bytes, end) {
        Some(bytes.subrange(start, end))
    } else {
        None
    }
}

/// A string with the given bytes.
fn owned(part: &str) -> (s: String)
    ensures
        s@ == part@,
{
    String::from_str(part)
}


/// The little-endian code units of a byte buffer; a last odd byte is
/// left out.
pub open spec fn le_units(buf: Seq<u8>) -> Seq<u16> {
    Seq::new((buf.len() / 2) as nat, |i: int| (buf[2 * i] + 256 * buf[2 * i + 1]) as u16)
}

/// The text of a little-endian UTF-16 byte buffer up to its first NUL,
/// unpaired surrogates replaced by U+FFFD.
pub fn wide_bytes_to_string(buf: &[u8]) -> (text: String)
    ensures
        text@ == decode_utf16_lossy(until_nul(le_units(buf@))),
{
    let ghost all = le_units(buf@);
    let mut units: Vec<u16> = Vec::new();
    let mut k: usize = 0;
    let mut j: usize = 0;
    let n = buf.len() / 2;
    assert(all.skip(0) =~= all);
    assert(units@ + until_nul(all) =~= until_nul(all));
    while k < n
        invariant
            n == buf@.len() / 2,
            all == le_units(buf@),
            k <= n,
            j == 2 * k,
            units@ + until_nul(all.skip(k as int)) == until_nul(all),
        decreases n - k,
    {
        assert(j + 1 < buf@.len()) by (nonlinear_arith)
            requires
                k < n,
                j == 2 * k,
                n == buf@.len() / 2,
        ;
        let c: u16 = (buf[j] as u16) + 256 * (buf[j + 1] as u16);
        assert(all.skip(k as int)[0] == c);
        if c == 0 {
            assert(until_nul(all.skip(k as int)) =~= Seq::<u16>::empty());
            assert(units@ =~= until_nul(all));
            return utf16_lossy(units.as_slice());
        }
        units.push(c);
        assert(all.skip(k as int).skip(1) =~= all.skip(k + 1));
        assert(units@ + until_nul(all.skip(k + 1)) =~= until_nul(all));
        k += 1;
        j += 2;
    }
    assert(all.skip(k as int) =~= Seq::<u16>::empty());
    assert(units@ =~= until_nul(all));
    utf16_lossy(units.as_slice())
}

/// The text of a UTF-16 array up to its first NUL, unpaired surrogates
/// replaced by U+FFFD.
pub fn wide_array_to_string(arr: &[u16]) -> (text: String)
    ensures
        text@ == decode_utf16_lossy(until_nul(arr@)),
{
    let mut k: usize = 0;
    assert(arr@.skip(0) =~= arr@);
    assert(arr@.take(0) + until_nul(arr@) =~= until_nul(arr@));
    while k < arr.len() && arr[k] != 0
        invariant
            k <= arr@.len(),
            arr@.take(k as int) + until_nul(arr@.skip(k as int)) == until_nul(arr@),
        decreases arr@.len() - k,
    {
        assert(arr@.skip(k as int)[0] == arr@[k as int]);
        assert(arr@.skip(k as int).skip(1) =~= arr@.skip(k + 1));
        assert(arr@.take(k + 1) + until_nul(arr@.skip(k + 1)) =~= until_nul(arr@));
        k += 1;
    }
    proof {
        if k < arr@.len() {
            assert(arr@.skip(k as int)[0] == arr@[k as int]);
            assert(until_nul(arr@.skip(k as int)) =~= Seq::<u16>::empty());
        } else {
            assert(arr@.skip(k as int) =~= Seq::<u16>::empty());
        }
        assert(arr@.take(k as int) =~= until_nul(arr@));
    }
    let prefix = slice_prefix(arr, k);
    utf16_lossy(prefix.as_slice())
}

/// The first `k` units of `arr`.
fn slice_prefix(arr: &[u16], k: usize) -> (prefix: Vec<u16>)
    requires
        k <= arr@.len(),
    ensures
        prefix@ == arr@.take(k as int),
{
    let mut prefix: Vec<u16> = Vec::new();
    let mut i: usize = 0;
    while i < k
        invariant
            i <= k <= arr@.len(),
            prefix@ == arr@.take(i as int),
        decreases k - i,
    {
        prefix.push(arr[i]);
        assert(arr@.take(i + 1) =~= arr@.take(i as int).push(arr@[i as int]));
        i += 1;
    }
    prefix
}

/// The value of a hex digit.
pub open spec fn hex_digit_value(c: char) -> Option<nat> {
    if '0' <= c <= '9' {
        Some((c as nat - '0' as nat) as nat)
    } else if 'a' <= c <= 'f' {
        Some((c as nat - 'a' as nat + 10) as nat)
    } else if 'A' <= c <= 'F' {
        Some((c as nat - 'A' as nat + 10) as nat)
    } else {
        None
    }
}

/// The value of a string of hex digits (0 for none), or `None` when a
/// character is not a hex digit.
pub open spec fn hex_value(digits: Seq<char>) -> Option<nat>
    decreases digits.len(),
{
    if digits.len() == 0 {
        Some(0)
    } else {
        match (hex_value(digits.drop_last()), hex_digit_value(digits.last())) {
            (Some(v), Some(d)) => Some(v * 16 + d),
            _ => None,
        }
    }
}

/// `u64::from_str_radix(s, 16)`: an optional `+`, then at least one hex
/// digit and nothing else, whose value fits in 64 bits.
pub open spec fn u64_from_hex(s: Seq<char>) -> Option<u64> {
    let digits = if s.len() > 0 && s[0] == '+' {
        s.skip(1)
    } else {
        s
    };
    if digits.len() == 0 {
        None
    } else {
        match hex_value(digits) {
            Some(v) => if v <= u64::MAX {
                Some(v as u64)
            } else {
                None
            },
            None => None,
        }
    }
}

proof fn lemma_hex_value_grows(digits: Seq<char>, k: int)
    requires
        0 <= k <= digits.len(),
        hex_value(digits) is Some,
    ensures
        hex_value(digits.take(k)) is Some,
        hex_value(digits.take(k)).unwrap() <= hex_value(digits).unwrap(),
    decreases digits.len(),
{
    if k < digits.len() {
        assert(digits.drop_last().take(k) =~= digits.take(k));
        lemma_hex_value_grows(digits.drop_last(), k);
    } else {
        assert(digits.take(k) =~= digits);
    }
}

/// The value of the hex digits `s`, as `u64::from_str_radix(s, 16)`
/// reads them.
pub fn parse_hex_u64(s: &Vec<char>) -> (value: Option<u64>)
    ensures
        value == u64_from_hex(s@),
{
    let start: usize = if s.len() > 0 && s[0] == '+' { 1 } else { 0 };
    let ghost digits = s@.skip(start as int);
    assert(digits =~= (if s@.len() > 0 && s@[0] == '+' {
        s@.skip(1)
    } else {
        s@
    }));
    if start >= s.len() {
        assert(digits.len() == 0);
        return None;
    }
    let mut acc: u64 = 0;
    let mut k: usize = start;
    while k < s.len()
        invariant
            start <= k <= s@.len(),
            start < s@.len(),
            digits == s@.skip(start as int),
            digits == (if s@.len() > 0 && s@[0] == '+' {
                s@.skip(1)
            } else {
                s@
            }),
            hex_value(digits.take(k - start)) == Some(acc as nat),
        decreases s@.len() - k,
    {
        let c = s[k];
        let d: u64 = if '0' <= c && c <= '9' {
            (c as u64) - ('0' as u64)
        } else if 'a' <= c && c <= 'f' {
            (c as u64) - ('a' as u64) + 10
        } else if 'A' <= c && c <= 'F' {
            (c as u64) - ('A' as u64) + 10
        } else {
            proof {
                let upto = digits.take(k + 1 - start);
                assert(upto.last() == c);
                assert(upto.drop_last() =~= digits.take(k - start));
                assert(hex_digit_value(c) is None);
                assert(hex_value(upto) is None);
                assert(hex_value(digits) is None) by {
                    if hex_value(digits) is Some {
                        lemma_hex_value_grows(digits, k + 1 - start);
                    }
                }
            }
            return None;
        };
        proof {
            assert(digits.take(k + 1 - start).last() == c);
            assert(digits.take(k + 1 - start).drop_last() =~= digits.take(k - start));
            assert(hex_digit_value(c) == Some(d as nat));
        }
        if acc > (u64::MAX - d) / 16 {
            proof {
                assert(acc * 16 + d > u64::MAX) by (nonlinear_arith)
                    requires
                        acc > (u64::MAX - d) / 16,
                        d <= 15,
                ;
                let upto = digits.take(k + 1 - start);
                assert(hex_value(upto) == Some((acc * 16 + d) as nat));
                assert(hex_value(digits) is None || hex_value(digits).unwrap() > u64::MAX) by {
                    if hex_value(digits) is Some {
                        lemma_hex_value_grows(digits, k + 1 - start);
                    }
                }
            }
            return None;
        }
        proof {
            assert(acc * 16 + d <= u64::MAX) by (nonlinear_arith)
                requires
                    acc <= (u64::MAX - d) / 16,
                    d <= 15,
            ;
        }
        acc = acc * 16 + d;
        k += 1;
    }
    assert(digits.take(k - start) =~= digits);
    Some(acc)
}

/// The text after the first `sep` (`None` when there is none).
pub open spec fn after_first(s: Seq<char>, sep: char) -> Option<Seq<char>> {
    match first_occurrence(s, seq![sep]) {
        Some(p) => Some(s.skip(p + 1)),
        None => None,
    }
}

/// The text before the first `sep` (all of it when there is none).
pub open spec fn before_first(s: Seq<char>, sep: char) -> Seq<char> {
    match first_occurrence(s, seq![sep]) {
        Some(p) => s.take(p),
        None => s,
    }
}

/// The Bluetooth address in a BTHENUM unique id: the hex number after the
/// first `#`, up to the first `_` after it.
pub open spec fn bthenum_address(unique_id: Seq<char>) -> Option<u64> {
    match after_first(unique_id, '#') {
        Some(rest) => u64_from_hex(before_first(rest, '_')),
        None => None,
    }
}

/// The characters of `s` from index `from` on.
fn chars_from(s: &Vec<char>, from: usize) -> (rest: Vec<char>)
    requires
        from <= s@.len(),
    ensures
        rest@ == s@.skip(from as int),
{
    let mut rest: Vec<char> = Vec::new();
    let mut i: usize = from;
    while i < s.len()
        invariant
            from <= i <= s@.len(),
            rest@ == s@.subrange(from as int, i as int),
        decreases s@.len() - i,
    {
        rest.push(s[i]);
        assert(s@.subrange(from as int, i + 1) =~= s@.subrange(from as int, i as int).push(
            s@[i as int],
        ));
        i += 1;
    }
    assert(s@.subrange(from as int, i as int) =~= s@.skip(from as int));
    rest
}

/// The characters of `s` before index `to`.
fn chars_until(s: &Vec<char>, to: usize) -> (prefix: Vec<char>)
    requires
        to <= s@.len(),
    ensures
        prefix@ == s@.take(to as int),
{
    let mut prefix: Vec<char> = Vec::new();
    let mut i: usize = 0;
    while i < to
        invariant
            i <= to <= s@.len(),
            prefix@ == s@.take(i as int),
        decreases to - i,
    {
        prefix.push(s[i]);
        assert(s@.take(i + 1) =~= s@.take(i as int).push(s@[i as int]));
        i += 1;
    }
    prefix
}

/// The Bluetooth address in a BTHENUM unique id, or `None` when it has no
/// `#` or the part after it is no hex number.
pub fn parse_bthenum_addr(unique_id: &str) -> (address: Option<u64>)
    ensures
        address == bthenum_address(unique_id@),
{
    let chars = chars_of(unique_id);
    let hash = vec!['#'];
    assert(hash@ =~= seq!['#']);
    proof {
        crate::search::lemma_first_occurrence(chars@, hash@);
    }
    let after = match find_chars(&chars, &hash) {
        Some(p) => {
            assert(crate::search::occurs_at(chars@, hash@, p as int));
            let len = chars.len();
            assert(p < len);
            chars_from(&chars, p + 1)
        },
        None => {
            return None;
        },
    };
    let underscore = vec!['_'];
    assert(underscore@ =~= seq!['_']);
    proof {
        crate::search::lemma_first_occurrence(after@, underscore@);
    }
    let hex = match find_chars(&after, &underscore) {
        Some(q) => chars_until(&after, q),
        None => after,
    };
    parse_hex_u64(&hex)
}


/// The big-endian value of a byte string.
pub open spec fn be_value(bytes: Seq<u8>) -> nat
    decreases bytes.len(),
{
    if bytes.len() == 0 {
        0
    } else {
        be_value(bytes.drop_last()) * 256 + bytes.last() as nat
    }
}

/// `256` to the power `k`.
pub open spec fn pow256(k: nat) -> nat
    decreases k,
{
    if k == 0 {
        1
    } else {
        pow256((k - 1) as nat) * 256
    }
}

proof fn lemma_be_value_bound(bytes: Seq<u8>)
    ensures
        be_value(bytes) < pow256(bytes.len()),
    decreases bytes.len(),
{
    if bytes.len() > 0 {
        lemma_be_value_bound(bytes.drop_last());
        let v = be_value(bytes.drop_last());
        let p = pow256((bytes.len() - 1) as nat);
        let b = bytes.last();
        assert(v * 256 + b < p * 256) by (nonlinear_arith)
            requires
                v < p,
                b < 256,
        ;
    }
}

proof fn lemma_pow256_grows(j: nat, k: nat)
    requires
        j <= k,
    ensures
        pow256(j) <= pow256(k),
    decreases k,
{
    if j < k {
        lemma_pow256_grows(j, (k - 1) as nat);
    }
}

/// A Bluetooth address from its bytes, most significant first (at most
/// eight of them).
pub fn bytes_to_addr_reversed(bytes: Vec<u8>) -> (address: u64)
    requires
        bytes@.len() <= 8,
    ensures
        address == be_value(bytes@),
{
    let mut acc: u64 = 0;
    let mut k: usize = 0;
    assert(pow256(8) == 0x1_0000_0000_0000_0000) by {
        reveal_with_fuel(pow256, 9);
    }
    while k < bytes.len()
        invariant
            k <= bytes@.len() <= 8,
            acc == be_value(bytes@.take(k as int)),
            pow256(8) == 0x1_0000_0000_0000_0000,
        decreases bytes@.len() - k,
    {
        proof {
            lemma_be_value_bound(bytes@.take(k + 1));
            lemma_pow256_grows((k + 1) as nat, 8);
            assert(bytes@.take(k + 1).drop_last() =~= bytes@.take(k as int));
        }
        acc = acc * 256 + bytes[k] as u64;
        k += 1;
    }
    assert(bytes@.take(k as int) =~= bytes@);
    acc
}

/// Where a serial port's Bluetooth or USB details come from, by its
/// hardware id.
#[derive(Clone, Copy, PartialEq, Eq, Structural, Debug)]
pub enum PortSource {
    /// The Microsoft Bluetooth stack: the address is in the unique id.
    BthEnum,
    /// The Toshiba Bluetooth stack.
    Toshiba,
    /// The Widcomm Bluetooth stack.
    Widcomm,
    /// A USB serial port.
    Usb,
    /// None of these.
    Other,
}

/// The source of a serial port's details for its hardware id.
pub open spec fn port_source_of(hw_id: Seq<char>) -> PortSource {
    if starts_with_seq(hw_id, "BTHENUM\\"@) {
        PortSource::BthEnum
    } else if hw_id == "Bluetooth\\0004&0002"@ {
        PortSource::Toshiba
    } else if hw_id == "{95C7A0A0-3094-11D7-A202-00508B9D7D5A}\\BLUETOOTHPORT"@ {
        PortSource::Widcomm
    } else if contains_seq(hw_id, "USB"@) || contains_seq(hw_id, "FTDIBUS"@) {
        PortSource::Usb
    } else {
        PortSource::Other
    }
}

/// The source of a serial port's details for its hardware id.
pub fn classify_port(hw_id: &str) -> (source: PortSource)
    ensures
        source == port_source_of(hw_id@),
{
    if str_starts_with(hw_id, "BTHENUM\\") {
        PortSource::BthEnum
    } else if str_eq(hw_id, "Bluetooth\\0004&0002") {
        PortSource::Toshiba
    } else if str_eq(hw_id, "{95C7A0A0-3094-11D7-A202-00508B9D7D5A}\\BLUETOOTHPORT") {
        PortSource::Widcomm
    } else if str_contains(hw_id, "USB") || str_contains(hw_id, "FTDIBUS") {
        PortSource::Usb
    } else {
        PortSource::Other
    }
}

/// The bytes of the USB id in a serial port's hardware id: the 17 bytes
/// from the first `VID_`, where they form whole characters.
pub open spec fn usb_id_bytes(hw_id: &str) -> Option<Seq<u8>> {
    match first_occurrence(hw_id.spec_bytes(), "VID_".spec_bytes()) {
        Some(i) => byte_range(hw_id, i, i + 17),
        None => None,
    }
}

/// The part of `s` between two byte offsets, as an owned string.
fn owned_range(s: &str, start: usize, end: usize) -> (part: Option<String>)
    ensures
        part is Some == byte_range(s, start as int, end as int) is Some,
        part matches Some(p) ==> vstd::utf8::encode_utf8(p@) == byte_range(
            s,
            start as int,
            end as int,
        ).unwrap(),
{
    match str_get(s, start, end) {
        Some(p) => Some(owned(p)),
        None => None,
    }
}

/// The USB id in a serial port's hardware id.
pub fn usb_id_from_hardware_id(hw_id: &str) -> (usb_id: Option<String>)
    ensures
        usb_id is Some == usb_id_bytes(hw_id) is Some,
        usb_id matches Some(u) ==> vstd::utf8::encode_utf8(u@) == usb_id_bytes(hw_id).unwrap(),
{
    let bytes = hw_id.as_bytes();
    let len = bytes.len();
    let marker = "VID_".as_bytes();
    proof {
        crate::search::lemma_first_occurrence(bytes@, marker@);
    }
    match find_bytes(bytes, marker) {
        Some(i) => {
            assert(crate::search::occurs_at(bytes@, marker@, i as int));
            if len - i < 17 {
                return None;
            }
            owned_range(hw_id, i, i + 17)
        },
        None => None,
    }
}

/// What a serial port's registry key and the Bluetooth stacks tell of it.
pub struct PortInfo {
    pub port: String,
    pub bluetooth_address: Option<u64>,
    pub bluetooth_name: Option<String>,
    pub usb_id: Option<String>,
}

/// The address whose device name a BTHENUM port looks up: the one in its
/// unique id, unless it is zero.
pub open spec fn lookup_address_of(unique_id: Option<Seq<char>>) -> Option<u64> {
    match unique_id {
        Some(u) => match bthenum_address(u) {
            Some(a) => if a != 0 {
                Some(a)
            } else {
                None
            },
            None => None,
        },
        None => None,
    }
}

/// The address whose device name a BTHENUM port looks up.
pub fn bthenum_lookup_address(unique_id: Option<&str>) -> (address: Option<u64>)
    ensures
        address == lookup_address_of(match unique_id {
            Some(u) => Some(u@),
            None => None,
        }),
{
    match unique_id {
        Some(u) => match parse_bthenum_addr(u) {
            Some(a) => if a != 0 {
                Some(a)
            } else {
                None
            },
            None => None,
        },
        None => None,
    }
}

/// A serial port's details from its port name, its hardware id and what
/// the lookups that its source calls for gave back: the BTHENUM unique
/// id and the name found for its address, or the address and name that
/// the Toshiba or Widcomm stack has for the port. A port without a name,
/// or with an empty one, is left out (`None`).
pub fn port_info(
    port: Option<String>,
    hw_id: &str,
    unique_id: Option<&str>,
    device_name: Option<String>,
    stack_entry: Option<(u64, String)>,
) -> (info: Option<PortInfo>)
    ensures
        match port {
            None => info is None,
            Some(p) => if p@.len() == 0 {
                info is None
            } else {
                info matches Some(i) && i.port@ == p@ && match port_source_of(hw_id@) {
                    PortSource::BthEnum => {
                        let address = match unique_id {
                            Some(u) => bthenum_address(u@),
                            None => None,
                        };
                        &&& i.bluetooth_address == address
                        &&& i.bluetooth_name == (if address matches Some(a) && a != 0 {
                            device_name
                        } else {
                            None
                        })
                        &&& i.usb_id is None
                    },
                    PortSource::Toshiba | PortSource::Widcomm => {
                        &&& i.bluetooth_address == (match stack_entry {
                            Some(e) => Some(e.0),
                            None => None,
                        })
                        &&& i.bluetooth_name == (match stack_entry {
                            Some(e) => Some(e.1),
                            None => None,
                        })
                        &&& i.usb_id is None
                    },
                    PortSource::Usb => {
                        &&& i.bluetooth_address is None
                        &&& i.bluetooth_name is None
                        &&& (i.usb_id is Some == usb_id_bytes(hw_id) is Some)
                        &&& (i.usb_id matches Some(u) ==> vstd::utf8::encode_utf8(u@)
                            == usb_id_bytes(hw_id).unwrap())
                    },
                    PortSource::Other => {
                        &&& i.bluetooth_address is None
                        &&& i.bluetooth_name is None
                        &&& i.usb_id is None
                    },
                }
            },
        },
{
    let port = match port {
        Some(p) => p,
        None => {
            return None;
        },
    };
    if port.as_str().is_empty() {
        return None;
    }
    let mut info = PortInfo { port, bluetooth_address: None, bluetooth_name: None, usb_id: None };
    match classify_port(hw_id) {
        PortSource::BthEnum => {
            match unique_id {
                Some(u) => {
                    match parse_bthenum_addr(u) {
                        Some(a) => {
                            info.bluetooth_address = Some(a);
                            if a != 0 {
                                info.bluetooth_name = device_name;
                            }
                        },
                        None => {},
                    }
                },
                None => {},
            }
        },
        PortSource::Toshiba | PortSource::Widcomm => {
            match stack_entry {
                Some((a, n)) => {
                    info.bluetooth_address = Some(a);
                    info.bluetooth_name = Some(n);
                },
                None => {},
            }
        },
        PortSource::Usb => {
            info.usb_id = usb_id_from_hardware_id(hw_id);
        },
        PortSource::Other => {},
    }
    Some(info)
}

/// A serial port entry: its details, its hardware id, and its friendly
/// name, which falls back to the port name.
pub fn com_port(
    hardware_id: Option<String>,
    info: PortInfo,
    friendly_name: Option<String>,
) -> (entry: ComPort)
    ensures
        entry.port == info.port,
        entry.friendly_name@ == (match friendly_name {
            Some(f) => f@,
            None => info.port@,
        }),
        entry.hardware_id == hardware_id,
        entry.bluetooth_address == info.bluetooth_address,
        entry.bluetooth_name == info.bluetooth_name,
        entry.usb_id == info.usb_id,
{
    let friendly = match friendly_name {
        Some(f) => f,
        None => info.port.clone(),
    };
    ComPort {
        port: info.port,
        friendly_name: friendly,
        hardware_id,
        bluetooth_address: info.bluetooth_address,
        bluetooth_name: info.bluetooth_name,
        usb_id: info.usb_id,
    }
}


/// `s` without the `c` characters at its end.
pub open spec fn trim_end_char(s: Seq<char>, c: char) -> Seq<char>
    decreases s.len(),
{
    if s.len() > 0 && s.last() == c {
        trim_end_char(s.drop_last(), c)
    } else {
        s
    }
}

/// `s` without the `c` characters at its start.
pub open spec fn trim_start_char(s: Seq<char>, c: char) -> Seq<char>
    decreases s.len(),
{
    if s.len() > 0 && s[0] == c {
        trim_start_char(s.skip(1), c)
    } else {
        s
    }
}

/// A string of the given characters.
fn string_of(chars: &Vec<char>, start: usize, end: usize) -> (s: String)
    requires
        start <= end <= chars@.len(),
    ensures
        s@ == chars@.subrange(start as int, end as int),
{
    let mut s = String::new();
    let mut i: usize = start;
    while i < end
        invariant
            start <= i <= end <= chars@.len(),
            s@ == chars@.subrange(start as int, i as int),
        decreases end - i,
    {
        push_char(&mut s, chars[i]);
        assert(chars@.subrange(start as int, i + 1) =~= chars@.subrange(start as int, i as int).push(
            chars@[i as int],
        ));
        i += 1;
    }
    s
}

/// `s` without the `c` characters at its end.
pub fn trim_end_matches_char(s: &str, c: char) -> (trimmed: String)
    ensures
        trimmed@ == trim_end_char(s@, c),
{
    let chars = chars_of(s);
    let mut end: usize = chars.len();
    assert(chars@.take(end as int) =~= chars@);
    while end > 0 && chars[end - 1] == c
        invariant
            end <= chars@.len(),
            chars@ == s@,
            trim_end_char(chars@.take(end as int), c) == trim_end_char(s@, c),
        decreases end,
    {
        assert(chars@.take(end as int).drop_last() =~= chars@.take(end - 1));
        end -= 1;
    }
    assert(chars@.subrange(0, end as int) =~= chars@.take(end as int));
    string_of(&chars, 0, end)
}

/// `s` without the `c` characters at its start.
pub fn trim_start_matches_char(s: &str, c: char) -> (trimmed: String)
    ensures
        trimmed@ == trim_start_char(s@, c),
{
    let chars = chars_of(s);
    let mut start: usize = 0;
    assert(chars@.skip(0) =~= chars@);
    while start < chars.len() && chars[start] == c
        invariant
            start <= chars@.len(),
            chars@ == s@,
            trim_start_char(chars@.skip(start as int), c) == trim_start_char(s@, c),
        decreases chars@.len() - start,
    {
        assert(chars@.skip(start as int).skip(1) =~= chars@.skip(start + 1));
        start += 1;
    }
    assert(chars@.subrange(start as int, chars@.len() as int) =~= chars@.skip(start as int));
    string_of(&chars, start, chars.len())
}

/// A Toshiba stack entry belongs to `port` when its port name, without
/// trailing NULs, is `port`.
pub fn toshiba_port_matches(port_name: &str, port: &str) -> (b: bool)
    ensures
        b == (trim_end_char(port_name@, '\0') == port@),
{
    let trimmed = trim_end_matches_char(port_name, '\0');
    str_eq(trimmed.as_str(), port)
}

/// The number part of a port name, as the Widcomm stack keys it: the
/// name after its first three bytes (`COM`), where that is a whole
/// character boundary.
pub fn widcomm_port_number(port: &str) -> (number: Option<String>)
    ensures
        number is Some == byte_range(port, 3, port.spec_bytes().len() as int) is Some,
        number matches Some(n) ==> vstd::utf8::encode_utf8(n@) == byte_range(
            port,
            3,
            port.spec_bytes().len() as int,
        ).unwrap(),
{
    let n = port.as_bytes().len();
    owned_range(port, 3, n)
}

/// A Widcomm stack key belongs to the port with this number when the key,
/// without its leading zeros, is the number.
pub fn widcomm_key_matches(key_name: &str, port_number: &str) -> (b: bool)
    ensures
        b == (trim_start_char(key_name@, '0') == port_number@),
{
    let trimmed = trim_start_matches_char(key_name, '0');
    str_eq(trimmed.as_str(), port_number)
}

/// A USB device entry from its hardware id, its interface path and its
/// bus-reported description: the USB id is bytes 4 to 21 of the hardware
/// id, and the path is kept only for a device with a hardware id.
pub fn usb_device(
    hardware_id: Option<String>,
    path: String,
    bus_reported: Option<String>,
) -> (entry: UsbDevice)
    ensures
        entry.hardware_id == hardware_id,
        entry.bus_reported_device_description == bus_reported,
        match hardware_id {
            Some(h) => {
                &&& entry.device_path == Some(path)
                &&& (entry.usb_id is Some == bytes_between(vstd::utf8::encode_utf8(h@), 4, 21) is Some)
                &&& (entry.usb_id matches Some(u) ==> vstd::utf8::encode_utf8(u@) == bytes_between(
                    vstd::utf8::encode_utf8(h@),
                    4,
                    21,
                ).unwrap())
            },
            None => entry.device_path is None && entry.usb_id is None,
        },
{
    match hardware_id {
        Some(h) => {
            let usb_id = owned_range(h.as_str(), 4, 21);
            UsbDevice {
                hardware_id: Some(h),
                usb_id,
                device_path: Some(path),
                bus_reported_device_description: bus_reported,
            }
        },
        None => UsbDevice {
            hardware_id: None,
            usb_id: None,
            device_path: None,
            bus_reported_device_description: bus_reported,
        },
    }
}


/// Who provides a HID device, by the part of its hardware id after the
/// first backslash.
#[derive(Clone, Copy, PartialEq, Eq, Structural, Debug)]
pub enum HidProvider {
    Usb,
    Bluetooth,
    Unknown,
}

/// Where the part of a HID hardware id after its first backslash starts
/// (the whole id when it has none).
pub open spec fn hid_rest_start(hw_id: Seq<u8>) -> int {
    match first_occurrence(hw_id, seq![0x5Cu8]) {
        Some(p) => p + 1,
        None => 0,
    }
}

/// The provider of a HID device: USB when the rest of its hardware id
/// starts with `VID`, Bluetooth when it starts with the classic or the
/// low-energy HID service id.
pub open spec fn hid_provider_of(hw_id: Seq<u8>) -> HidProvider {
    let rest = hw_id.skip(hid_rest_start(hw_id));
    if starts_with_seq(rest, "VID".spec_bytes()) {
        HidProvider::Usb
    } else if starts_with_seq(rest, "{00001124-0000-1000-8000-00805f9b34fb}".spec_bytes())
        || starts_with_seq(rest, "{00001812-0000-1000-8000-00805f9b34fb}".spec_bytes()) {
        HidProvider::Bluetooth
    } else {
        HidProvider::Unknown
    }
}

/// The name under which a provider is reported.
pub open spec fn provider_name(provider: HidProvider) -> Option<Seq<char>> {
    match provider {
        HidProvider::Usb => Some("usb"@),
        HidProvider::Bluetooth => Some("bluetooth"@),
        HidProvider::Unknown => None,
    }
}

/// The bytes of the rest of `hw_id` from its start.
fn bytes_from(bytes: &[u8], from: usize) -> (rest: Vec<u8>)
    requires
        from <= bytes@.len(),
    ensures
        rest@ == bytes@.skip(from as int),
{
    let mut rest: Vec<u8> = Vec::new();
    let mut i: usize = from;
    while i < bytes.len()
        invariant
            from <= i <= bytes@.len(),
            rest@ == bytes@.subrange(from as int, i as int),
        decreases bytes@.len() - i,
    {
        rest.push(bytes[i]);
        assert(bytes@.subrange(from as int, i + 1) =~= bytes@.subrange(from as int, i as int).push(
            bytes@[i as int],
        ));
        i += 1;
    }
    assert(bytes@.subrange(from as int, i as int) =~= bytes@.skip(from as int));
    rest
}

/// A HID device entry before anything is read from the device itself:
/// its ids, its provider's name and, for a USB device, the 17 bytes of
/// the hardware id after the first backslash as its USB id. The provider
/// also says whether the device is to be opened for more details (not
/// when it is unknown).
pub fn hid_device_base(hw_id: String, path: String) -> (result: (HidDevice, HidProvider))
    ensures
        result.1 == hid_provider_of(vstd::utf8::encode_utf8(hw_id@)),
        result.0.hardware_id == hw_id,
        result.0.device_path == path,
        match provider_name(result.1) {
            Some(n) => result.0.provider matches Some(p) && p@ == n,
            None => result.0.provider is None,
        },
        result.1 == HidProvider::Usb ==> {
            let start = hid_rest_start(vstd::utf8::encode_utf8(hw_id@));
            let usb = bytes_between(vstd::utf8::encode_utf8(hw_id@), start, start + 17);
            &&& (result.0.usb_id is Some == usb is Some)
            &&& (result.0.usb_id matches Some(u) ==> vstd::utf8::encode_utf8(u@) == usb.unwrap())
        },
        result.1 != HidProvider::Usb ==> result.0.usb_id is None,
        result.0.vendor_id is None,
        result.0.product_id is None,
        result.0.version_number is None,
        result.0.manufacturer is None,
        result.0.product is None,
        result.0.hid_usage_page is None,
{
    let ghost all = vstd::utf8::encode_utf8(hw_id@);
    let bytes = hw_id.as_str().as_bytes();
    let len = bytes.len();
    let backslash_vec: Vec<u8> = vec![0x5Cu8];
    let backslash = backslash_vec.as_slice();
    assert(backslash@ =~= seq![0x5Cu8]);
    proof {
        crate::search::lemma_first_occurrence(bytes@, backslash@);
    }
    let start: usize = match find_bytes(bytes, backslash) {
        Some(p) => {
            assert(crate::search::occurs_at(bytes@, backslash@, p as int));
            p + 1
        },
        None => 0,
    };
    assert(start as int == hid_rest_start(all));
    let rest = bytes_from(bytes, start);
    let provider = if bytes_start_with(rest.as_slice(), "VID".as_bytes()) {
        HidProvider::Usb
    } else if bytes_start_with(rest.as_slice(), "{00001124-0000-1000-8000-00805f9b34fb}".as_bytes())
        || bytes_start_with(rest.as_slice(), "{00001812-0000-1000-8000-00805f9b34fb}".as_bytes()) {
        HidProvider::Bluetooth
    } else {
        HidProvider::Unknown
    };
    let (provider_text, usb_id) = match provider {
        HidProvider::Usb => {
            let usb_id = if len - start < 17 {
                None
            } else {
                owned_range(hw_id.as_str(), start, start + 17)
            };
            (Some(String::from_str("usb")), usb_id)
        },
        HidProvider::Bluetooth => (Some(String::from_str("bluetooth")), None),
        HidProvider::Unknown => (None, None),
    };
    let dev = HidDevice {
        hardware_id: hw_id,
        device_path: path,
        provider: provider_text,
        usb_id,
        vendor_id: None,
        product_id: None,
        version_number: None,
        manufacturer: None,
        product: None,
        hid_usage_page: None,
    };
    (dev, provider)
}

/// What an opened HID device tells of itself.
pub struct HidExtra {
    pub vendor_id: Option<u16>,
    pub product_id: Option<u16>,
    pub version_number: Option<u16>,
    pub manufacturer: Option<String>,
    pub product: Option<String>,
    pub hid_usage_page: Option<u16>,
}

fn copy_opt_string(o: &Option<String>) -> (c: Option<String>)
    ensures
        c == *o,
{
    match o {
        Some(s) => Some(s.clone()),
        None => None,
    }
}

impl HidExtra {
    /// No details.
    pub fn new() -> (extra: HidExtra)
        ensures
            extra.vendor_id is None && extra.product_id is None && extra.version_number is None
                && extra.manufacturer is None && extra.product is None
                && extra.hid_usage_page is None,
    {
        HidExtra {
            vendor_id: None,
            product_id: None,
            version_number: None,
            manufacturer: None,
            product: None,
            hid_usage_page: None,
        }
    }

    /// A copy of these details.
    pub fn copy(&self) -> (c: HidExtra)
        ensures
            c == *self,
    {
        HidExtra {
            vendor_id: self.vendor_id,
            product_id: self.product_id,
            version_number: self.version_number,
            manufacturer: copy_opt_string(&self.manufacturer),
            product: copy_opt_string(&self.product),
            hid_usage_page: self.hid_usage_page,
        }
    }
}

/// `dev` with the details of `extra`.
pub open spec fn with_extra(dev: HidDevice, extra: HidExtra) -> HidDevice {
    HidDevice {
        vendor_id: extra.vendor_id,
        product_id: extra.product_id,
        version_number: extra.version_number,
        manufacturer: extra.manufacturer,
        product: extra.product,
        hid_usage_page: extra.hid_usage_page,
        ..dev
    }
}

/// Gives `dev` the details of `extra`.
pub fn apply_hid_extra(dev: &mut HidDevice, extra: &HidExtra)
    ensures
        *final(dev) == with_extra(*old(dev), *extra),
{
    let e = extra.copy();
    dev.vendor_id = e.vendor_id;
    dev.product_id = e.product_id;
    dev.version_number = e.version_number;
    dev.manufacturer = e.manufacturer;
    dev.product = e.product;
    dev.hid_usage_page = e.hid_usage_page;
}

/// The details last read from each HID device path, for devices that
/// cannot be opened while another program holds them.
pub struct HidCache {
    entries: KeyedMap<String, HidExtra>,
}

impl View for HidCache {
    type V = Map<Seq<char>, HidExtra>;

    closed spec fn view(&self) -> Map<Seq<char>, HidExtra> {
        self.entries@
    }
}

impl HidCache {
    /// An empty cache.
    pub fn new() -> (cache: HidCache)
        ensures
            cache@ == Map::<Seq<char>, HidExtra>::empty(),
    {
        HidCache { entries: KeyedMap::new() }
    }
}

/// How opening a HID device went.
pub enum OpenOutcome {
    /// It opened, and these are its details.
    Opened(HidExtra),
    /// The call gave an invalid handle.
    NoHandle,
    /// Another program holds it (a sharing violation).
    InUse,
    /// Any other failure.
    Failed,
}

/// The entry of a HID device once the outcome of opening it is known:
/// the details it gave, or for a device in use the cached details of its
/// path, if any.
pub open spec fn finished_device(dev: HidDevice, outcome: OpenOutcome, cache: Map<Seq<char>, HidExtra>) -> HidDevice {
    match outcome {
        OpenOutcome::Opened(extra) => with_extra(dev, extra),
        OpenOutcome::InUse => if cache.contains_key(dev.device_path@) {
            with_extra(dev, cache[dev.device_path@])
        } else {
            dev
        },
        _ => dev,
    }
}

/// The cache once the outcome is known: details that were read are kept
/// under the device's path.
pub open spec fn cache_after(dev: HidDevice, outcome: OpenOutcome, cache: Map<Seq<char>, HidExtra>) -> Map<Seq<char>, HidExtra> {
    match outcome {
        OpenOutcome::Opened(extra) => cache.insert(dev.device_path@, extra),
        _ => cache,
    }
}

/// Completes a HID device entry from the outcome of opening it, keeping
/// or reading the cached details of its path.
pub fn finish_hid_info(dev: HidDevice, outcome: OpenOutcome, cache: &mut HidCache) -> (entry: HidDevice)
    ensures
        entry == finished_device(dev, outcome, old(cache)@),
        final(cache)@ == cache_after(dev, outcome, old(cache)@),
{
    let mut dev = dev;
    match outcome {
        OpenOutcome::Opened(extra) => {
            apply_hid_extra(&mut dev, &extra);
            let key = dev.device_path.clone();
            cache.entries.insert(key, extra);
        },
        OpenOutcome::InUse => {
            match cache.entries.get(&dev.device_path) {
                Some(extra) => {
                    let e = extra.copy();
                    apply_hid_extra(&mut dev, &e);
                },
                None => {},
            }
        },
        _ => {},
    }
    dev
}

/// A device that is in use when it is listed again still reports the
/// details read when it was last opened under the same path.
pub proof fn lemma_in_use_device_reports_cached(
    opened: HidDevice,
    extra: HidExtra,
    cache: Map<Seq<char>, HidExtra>,
    later: HidDevice,
)
    requires
        later.device_path@ == opened.device_path@,
    ensures
        finished_device(
            later,
            OpenOutcome::InUse,
            cache_after(opened, OpenOutcome::Opened(extra), cache),
        ) == with_extra(later, extra),
{
}

/// Listing a device that is in use changes nothing in the cache, and a
/// device that could not be opened for another reason reports no details
/// beyond its ids.
pub proof fn lemma_failed_open_keeps_cache(dev: HidDevice, cache: Map<Seq<char>, HidExtra>)
    ensures
        cache_after(dev, OpenOutcome::InUse, cache) == cache,
        cache_after(dev, OpenOutcome::Failed, cache) == cache,
        cache_after(dev, OpenOutcome::NoHandle, cache) == cache,
        finished_device(dev, OpenOutcome::Failed, cache) == dev,
        finished_device(dev, OpenOutcome::NoHandle, cache) == dev,
{
}

} // verus!
