//! Unicode `White_Space`: the characters for which `char::is_whitespace`
//! holds.

use vstd::prelude::*;

verus! {

/// The code points with the Unicode `White_Space` property.
pub open spec fn is_white_space_code(c: int) -> bool {
    ||| 0x09 <= c <= 0x0D
    ||| c == 0x20
    ||| c == 0x85
    ||| c == 0xA0
    ||| c == 0x1680
    ||| 0x2000 <= c <= 0x200A
    ||| c == 0x2028
    ||| c == 0x2029
    ||| c == 0x202F
    ||| c == 0x205F
    ||| c == 0x3000
}

/// A white-space character, as `char::is_whitespace` classifies it.
pub open spec fn is_white_space(c: char) -> bool {
    is_white_space_code(c as int)
}

/// Every character of `s` is white space (true of the empty sequence).
pub open spec fn all_white_space(s: Seq<char>) -> bool {
    forall|i: int| 0 <= i < s.len() ==> is_white_space(#[trigger] s[i])
}

/// `true` when `c` has the `White_Space` property, as `char::is_whitespace`.
pub fn char_is_white_space(c: char) -> (b: bool)
    ensures
        b == is_white_space(c),
{
    let v = c as u32;
    (0x09 <= v && v <= 0x0D) || v == 0x20 || v == 0x85 || v == 0xA0 || v == 0x1680 || (0x2000
        <= v && v <= 0x200A) || v == 0x2028 || v == 0x2029 || v == 0x202F || v == 0x205F || v
        == 0x3000
}

/// `true` when every character of `s` is white space.
pub fn str_is_all_white_space(s: &str) -> (b: bool)
    ensures
        b == all_white_space(s@),
{
    let n = s.unicode_len();
    let mut i: usize = 0;
    while i < n
        invariant
            n == s@.len(),
            i <= n,
            forall|j: int| 0 <= j < i ==> is_white_space(#[trigger] s@[j]),
        decreases n - i,
    {
        if !char_is_white_space(s.get_char(i)) {
            return false;
        }
        i += 1;
    }
    true
}

} // verus!
