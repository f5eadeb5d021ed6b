//! The arithmetic of the screen-curtain check: the screen's pixel count,
//! the size of the captured bitmap, and the verdict read off the colour
//! histograms.

use vstd::prelude::*;

verus! {

/// Division that rounds toward zero, as Rust's integer `/` does.
pub open spec fn div_toward_zero(a: int, b: int) -> int
    recommends
        b > 0,
{
    if a >= 0 {
        a / b
    } else {
        -((-a) / b)
    }
}

/// The number of pixels of a `width` by `height` screen, as the 32-bit
/// count that the histograms use (the low 32 bits of the product).
pub open spec fn screen_area_of(width: i32, height: i32) -> u32 {
    (width as int * height as int) as u32
}

/// The number of pixels of the virtual screen, as a 32-bit count.
pub fn screen_area(width: i32, height: i32) -> (area: u32)
    ensures
        area == screen_area_of(width, height),
{
    assert(-0x4000_0000_0000_0000 <= width as int * height as int <= 0x4000_0000_0000_0000)
        by (nonlinear_arith);
    let product: i64 = width as i64 * height as i64;
    product as u32
}

/// The bytes of one scan line of a device-independent bitmap: `width`
/// pixels of `bit_count` bits, padded to a multiple of 32 bits.
pub open spec fn dib_row_bytes_of(width: i32, bit_count: i32) -> int {
    div_toward_zero(width * bit_count + 31, 32) * 4
}

/// The bytes of one scan line of a device-independent bitmap.
pub fn dib_row_bytes(width: i32, bit_count: i32) -> (row_bytes: i32)
    requires
        i32::MIN <= width * bit_count,
        width * bit_count + 31 <= i32::MAX,
    ensures
        row_bytes == dib_row_bytes_of(width, bit_count),
{
    let bits = width * bit_count + 31;
    let words = bits / 32;
    proof {
        if bits >= 0 {
            assert(words == bits as int / 32);
        } else {
            assert(words == -((-bits as int) / 32));
        }
    }
    words * 4
}

/// The screen is black exactly when the zero bucket of each colour
/// channel's histogram counts every pixel.
pub fn histograms_all_black(hist_r: &[u32], hist_g: &[u32], hist_b: &[u32], area: u32) -> (black: bool)
    requires
        hist_r@.len() > 0,
        hist_g@.len() > 0,
        hist_b@.len() > 0,
    ensures
        black == (hist_r@[0] == area && hist_g@[0] == area && hist_b@[0] == area),
{
    hist_r[0] == area && hist_g[0] == area && hist_b[0] == area
}


/// The bytes of a bitmap of `height` scan lines of `row_bytes` bytes
/// (each converted to a size as Rust's `as` does).
pub fn dib_size(row_bytes: i32, height: i32) -> (size: usize)
    requires
        (row_bytes as usize) * (height as usize) <= usize::MAX,
    ensures
        size == (row_bytes as usize) * (height as usize),
{
    (row_bytes as usize) * (height as usize)
}

} // verus!
