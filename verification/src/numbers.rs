//! Leading decimal integers in UTF-16 text, read as C's `_wtoi` and
//! `std::stoi` read them: optional leading blanks, an optional sign, then
//! digits, the value wrapping to 32 bits.

use crate::white_space::is_white_space_code;
use vstd::prelude::*;

verus! {

/// `x` wrapped to a 32-bit two's complement integer.
pub open spec fn wrap_i32(x: int) -> i32 {
    let r = x % 0x1_0000_0000;
    if r > i32::MAX {
        (r - 0x1_0000_0000) as i32
    } else {
        r as i32
    }
}

/// An ASCII decimal digit.
pub open spec fn is_digit_unit(c: u16) -> bool {
    0x30 <= c <= 0x39
}

/// The value of a run of decimal digits.
pub open spec fn digits_value(digits: Seq<u16>) -> nat
    decreases digits.len(),
{
    if digits.len() == 0 {
        0
    } else {
        digits_value(digits.drop_last()) * 10 + (digits.last() - 0x30) as nat
    }
}

/// The index of the first unit at or after `i` that `skip` does not hold
/// for.
pub open spec fn skip_while(s: Seq<u16>, skip: spec_fn(u16) -> bool, i: int) -> int
    decreases s.len() - i,
{
    if 0 <= i < s.len() && skip(s[i]) {
        skip_while(s, skip, i + 1)
    } else {
        i
    }
}

/// Space and tab, the blanks `_wtoi` passes over.
pub open spec fn blank_or_tab() -> spec_fn(u16) -> bool {
    |c: u16| c == 0x20 || c == 0x09
}

/// The Unicode white space that `iswspace` passes over.
pub open spec fn white_space_unit() -> spec_fn(u16) -> bool {
    |c: u16| is_white_space_code(c as int)
}

/// The signed integer at index `i` of `s`: an optional `+` or `-`, then
/// at least one digit; `None` when there is no digit.
pub open spec fn signed_int_at(s: Seq<u16>, i: int) -> Option<i32> {
    let has_sign = 0 <= i < s.len() && (s[i] == 0x2B || s[i] == 0x2D);
    let negative = has_sign && s[i] == 0x2D;
    let start = if has_sign {
        i + 1
    } else {
        i
    };
    let end = skip_while(s, |c: u16| is_digit_unit(c), start);
    if end == start {
        None
    } else {
        let v = digits_value(s.subrange(start, end)) as int;
        Some(wrap_i32(
            if negative {
                -v
            } else {
                v
            },
        ))
    }
}

/// The leading integer of `s` after the units that `skip` passes over.
pub open spec fn leading_int(s: Seq<u16>, skip: spec_fn(u16) -> bool) -> Option<i32> {
    signed_int_at(s, skip_while(s, skip, 0))
}

/// Skipping never moves backwards, and from inside `s` it stops at or
/// before the end.
pub proof fn lemma_skip_while_bounds(s: Seq<u16>, skip: spec_fn(u16) -> bool, i: int)
    requires
        0 <= i,
    ensures
        i <= skip_while(s, skip, i),
        i <= s.len() ==> skip_while(s, skip, i) <= s.len(),
    decreases s.len() - i,
{
    if 0 <= i < s.len() && skip(s[i]) {
        lemma_skip_while_bounds(s, skip, i + 1);
    }
}

proof fn lemma_wrap_step(acc: u32, d: u32, digits: Seq<u16>)
    requires
        acc as int == digits_value(digits.drop_last()) as int % 0x1_0000_0000,
        digits.len() > 0,
        d as int == digits.last() - 0x30,
        d < 10,
    ensures
        acc.wrapping_mul(10).wrapping_add(d) as int == digits_value(digits) as int % 0x1_0000_0000,
{
    let r: int = 0x1_0000_0000;
    let v = digits_value(digits.drop_last()) as int;
    let m = (acc as int * 10) % r;
    assert(acc.wrapping_mul(10) as int == m);
    vstd::arithmetic::div_mod::lemma_mul_mod_noop_left(v, 10, r);
    assert(m == (v * 10) % r);
    vstd::arithmetic::div_mod::lemma_add_mod_noop(v * 10, d as int, r);
    vstd::arithmetic::div_mod::lemma_mod_twice(v * 10, r);
    vstd::arithmetic::div_mod::lemma_small_mod(d as nat, r as nat);
    vstd::arithmetic::div_mod::lemma_mod_bound(v * 10, r);
    if m + d >= r {
        vstd::arithmetic::div_mod::lemma_mod_sub_multiples_vanish(m + d, r);
        vstd::arithmetic::div_mod::lemma_small_mod((m + d - r) as nat, r as nat);
    } else {
        vstd::arithmetic::div_mod::lemma_small_mod((m + d) as nat, r as nat);
    }
}

proof fn lemma_wrap_negate(v: int, val: int)
    requires
        0 <= v,
        val == v % 0x1_0000_0000,
    ensures
        wrap_i32(-v) == wrap_i32(
            if val == 0 {
                0
            } else {
                0x1_0000_0000 - val
            },
        ),
{
    let r: int = 0x1_0000_0000;
    vstd::arithmetic::div_mod::lemma_fundamental_div_mod(v, r);
    vstd::arithmetic::div_mod::lemma_mod_bound(v, r);
    let q = v / r;
    assert(-v == (-q - 1) * r + (r - val)) by (nonlinear_arith)
        requires
            v == q * r + val,
    ;
    vstd::arithmetic::div_mod::lemma_mod_multiples_vanish(-q - 1, r - val, r);
    if val == 0 {
        assert(-v == -q * r) by (nonlinear_arith)
            requires
                v == q * r,
        ;
        vstd::arithmetic::div_mod::lemma_mod_multiples_basic(-q, r);
    }
}

/// Reads the signed integer at index `i` (see `signed_int_at`).
fn signed_int_at_exec(s: &[u16], i: usize) -> (value: Option<i32>)
    requires
        i <= s@.len(),
    ensures
        value == signed_int_at(s@, i as int),
{
    let n = s.len();
    let mut i = i;
    let mut negative = false;
    if i < n && (s[i] == 0x2B || s[i] == 0x2D) {
        if s[i] == 0x2D {
            negative = true;
        }
        i += 1;
    }
    let start = i;
    let mut val: u32 = 0;
    while i < n && 0x30 <= s[i] && s[i] <= 0x39
        invariant
            start <= i <= n,
            n == s@.len(),
            forall|j: int| start <= j < i ==> is_digit_unit(#[trigger] s@[j]),
            skip_while(s@, |c: u16| is_digit_unit(c), start as int) == skip_while(
                s@,
                |c: u16| is_digit_unit(c),
                i as int,
            ),
            val as int == digits_value(s@.subrange(start as int, i as int)) as int % 0x1_0000_0000,
        decreases n - i,
    {
        let d = (s[i] - 0x30) as u32;
        proof {
            let digits = s@.subrange(start as int, i + 1);
            assert(digits.drop_last() =~= s@.subrange(start as int, i as int));
            assert(digits.last() == s@[i as int]);
            lemma_wrap_step(val, d, digits);
        }
        val = val.wrapping_mul(10).wrapping_add(d);
        i += 1;
    }
    if i == start {
        return None;
    }
    proof {
        let v = digits_value(s@.subrange(start as int, i as int)) as int;
        if negative {
            lemma_wrap_negate(v, val as int);
        } else {
            vstd::arithmetic::div_mod::lemma_mod_twice(v, 0x1_0000_0000);
            vstd::arithmetic::div_mod::lemma_small_mod(val as nat, 0x1_0000_0000);
        }
    }
    let m: i64 = if negative {
        if val == 0 {
            0
        } else {
            0x1_0000_0000i64 - val as i64
        }
    } else {
        val as i64
    };
    proof {
        vstd::arithmetic::div_mod::lemma_small_mod(m as nat, 0x1_0000_0000);
    }
    if m > i32::MAX as i64 {
        Some((m - 0x1_0000_0000i64) as i32)
    } else {
        Some(m as i32)
    }
}

/// `true` for a code unit with the Unicode `White_Space` property.
pub fn is_wspace(c: u16) -> (b: bool)
    ensures
        b == is_white_space_code(c as int),
{
    (0x09 <= c && c <= 0x0D) || c == 0x20 || c == 0x85 || c == 0xA0 || c == 0x1680 || (0x2000
        <= c && c <= 0x200A) || c == 0x2028 || c == 0x2029 || c == 0x202F || c == 0x205F || c
        == 0x3000
}

/// The leading integer of `s` after any white space, as `std::stoi`
/// reads it; `None` when no digit follows (where `stoi` throws).
pub fn parse_leading_int(s: &[u16]) -> (value: Option<i32>)
    ensures
        value == leading_int(s@, white_space_unit()),
{
    let mut i: usize = 0;
    while i < s.len() && is_wspace(s[i])
        invariant
            i <= s@.len(),
            skip_while(s@, white_space_unit(), 0) == skip_while(s@, white_space_unit(), i as int),
        decreases s@.len() - i,
    {
        i += 1;
    }
    signed_int_at_exec(s, i)
}

/// The leading integer of `s` after any spaces and tabs, as `_wtoi`
/// reads it; 0 when no digit follows.
pub fn wtoi_blank(s: &[u16]) -> (value: i32)
    ensures
        value == (match leading_int(s@, blank_or_tab()) {
            Some(v) => v,
            None => 0,
        }),
{
    let mut i: usize = 0;
    while i < s.len() && (s[i] == 0x20 || s[i] == 0x09)
        invariant
            i <= s@.len(),
            skip_while(s@, blank_or_tab(), 0) == skip_while(s@, blank_or_tab(), i as int),
        decreases s@.len() - i,
    {
        i += 1;
    }
    match signed_int_at_exec(s, i) {
        Some(v) => v,
        None => 0,
    }
}

} // verus!
