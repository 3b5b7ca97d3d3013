//! The banding palette: an iteration count becomes an opaque RGBA pixel.

use vstd::prelude::*;

verus! {

/// One pixel of the colour buffer.
#[derive(Clone, Copy, Debug, PartialEq, Eq, Structural)]
pub struct Rgba {
    pub r: u8,
    pub g: u8,
    pub b: u8,
    pub a: u8,
}

impl Rgba {
    /// Byte `c` of the pixel as it lies in the colour buffer: red, green,
    /// blue, alpha.
    pub open spec fn channel(self, c: int) -> u8 {
        if c == 0 {
            self.r
        } else if c == 1 {
            self.g
        } else if c == 2 {
            self.b
        } else {
            self.a
        }
    }
}

/// Opaque black, the colour of a point that stayed bounded.
pub open spec fn black() -> Rgba {
    Rgba { r: 0, g: 0, b: 0, a: 255 }
}

/// Brightness of a channel whose two-bit field of the count starts at the bit
/// of weight `weight`: the field's value times 64.
pub open spec fn band(value: u8, weight: int) -> int {
    64 * ((value as int / weight) % 4)
}

/// The colour of a stored iteration count under the cap `max_iterations`.
///
/// A count at or above the cap is black. Below it, the low six bits of the
/// count give red (bits 0-1), green (bits 2-3) and blue (bits 4-5).
pub open spec fn palette(value: u8, max_iterations: u8) -> Rgba {
    if value >= max_iterations {
        black()
    } else {
        Rgba {
            r: band(value, 1) as u8,
            g: band(value, 4) as u8,
            b: band(value, 16) as u8,
            a: 255,
        }
    }
}

/// Computes `palette(value, max_iterations)` with masks and shifts.
pub fn quantize(value: u8, max_iterations: u8) -> (pixel: Rgba)
    ensures
        pixel == palette(value, max_iterations),
{
    if value >= max_iterations {
        Rgba { r: 0, g: 0, b: 0, a: 255 }
    } else {
        assert((value & 0x03) >> 0 == value % 4) by (bit_vector);
        assert((value & 0x0C) >> 2 == (value / 4) % 4) by (bit_vector);
        assert((value & 0x30) >> 4 == (value / 16) % 4) by (bit_vector);
        Rgba {
            r: ((value & 0x03) >> 0) * 64,
            g: ((value & 0x0C) >> 2) * 64,
            b: ((value & 0x30) >> 4) * 64,
            a: 255,
        }
    }
}

/// Every colour of the palette is fully opaque, each channel is one of four
/// levels, and a count equal to the cap is exactly opaque black.
pub proof fn lemma_palette_opaque(value: u8, max_iterations: u8)
    ensures
        palette(value, max_iterations).a == 255,
        palette(max_iterations, max_iterations) == black(),
        value >= max_iterations ==> palette(value, max_iterations) == black(),
        palette(value, max_iterations).r % 64 == 0,
        palette(value, max_iterations).g % 64 == 0,
        palette(value, max_iterations).b % 64 == 0,
{
}

} // verus!
