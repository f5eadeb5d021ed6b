//! Empty text runs: text made only of white space and embedded objects.

use vstd::prelude::*;

verus! {

/// The object replacement character, which marks an embedded object.
pub const OBJ_REPLACEMENT_CHAR: u16 = 0xFFFC;

/// The white space that the C runtime's `iswspace` reports for the
/// characters NVDA meets in BSTRs: tab, line feed, vertical tab, form
/// feed, carriage return, space and no-break space.
pub open spec fn is_crt_space(c: u16) -> bool {
    c == 0x09 || c == 0x0A || c == 0x0B || c == 0x0C || c == 0x0D || c == 0x20 || c == 0xA0
}

/// Every code unit is white space or an embedded object.
pub open spec fn is_empty_run(chars: Seq<u16>) -> bool {
    forall|i: int|
        0 <= i < chars.len() ==> #[trigger] chars[i] == OBJ_REPLACEMENT_CHAR || is_crt_space(
            chars[i],
        )
}

/// `true` when `c` is in the white-space set of `is_crt_space`.
pub fn is_whitespace_w(c: u16) -> (b: bool)
    ensures
        b == is_crt_space(c),
{
    c == 0x09 || c == 0x0A || c == 0x0B || c == 0x0C || c == 0x0D || c == 0x20 || c == 0xA0
}

/// `true` when the text run is empty for reporting purposes: every
/// character is white space or the object replacement character (the
/// empty run included).
pub fn is_empty_text(chars: &[u16]) -> (b: bool)
    ensures
        b == is_empty_run(chars@),
{
    let mut i: usize = 0;
    while i < chars.len()
        invariant
            i <= chars@.len(),
            forall|j: int|
                0 <= j < i ==> #[trigger] chars@[j] == OBJ_REPLACEMENT_CHAR || is_crt_space(
                    chars@[j],
                ),
        decreases chars@.len() - i,
    {
        let c = chars[i];
        if !(c == OBJ_REPLACEMENT_CHAR || is_whitespace_w(c)) {
            return false;
        }
        i += 1;
    }
    true
}

} // verus!
