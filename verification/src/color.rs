//! 24-bit RGB color with packed hex encoding.

use vstd::prelude::*;

verus! {

/// An 8-bit-per-channel RGB color. Because each channel is a `u8`, every
/// `Color` value has all channels in `[0, 255]` by construction.
#[derive(Debug, Clone, Copy, PartialEq, Eq, Structural)]
pub struct Color {
    r: u8,
    g: u8,
    b: u8,
}

impl Color {
    /// The red channel, as seen by specifications.
    pub closed spec fn spec_r(self) -> u8 {
        self.r
    }

    /// The green channel, as seen by specifications.
    pub closed spec fn spec_g(self) -> u8 {
        self.g
    }

    /// The blue channel, as seen by specifications.
    pub closed spec fn spec_b(self) -> u8 {
        self.b
    }

    /// The packed 24-bit encoding `(r << 16) | (g << 8) | b`, stated
    /// arithmetically.
    pub open spec fn spec_to_hex(self) -> u32 {
        (self.spec_r() * 0x10000 + self.spec_g() * 0x100 + self.spec_b()) as u32
    }

    pub fn new(r: u8, g: u8, b: u8) -> (c: Color)
        ensures
            c.spec_r() == r,
            c.spec_g() == g,
            c.spec_b() == b,
    {
        Color { r, g, b }
    }

    pub fn black() -> (c: Color)
        ensures
            c.spec_r() == 0,
            c.spec_g() == 0,
            c.spec_b() == 0,
    {
        Color { r: 0, g: 0, b: 0 }
    }

    /// Packs the three channels into one `u32` as `0xRRGGBB`. The result
    /// always fits in 24 bits.
    pub fn to_hex(&self) -> (h: u32)
        ensures
            h == self.spec_to_hex(),
            h < 0x1000000,
    {
        let r = self.r as u32;
        let g = self.g as u32;
        let b = self.b as u32;
        let h = (r << 16) | (g << 8) | b;
        assert(r < 0x100 && g < 0x100 && b < 0x100 ==> ((r << 16) | (g << 8) | b) == r * 0x10000
            + g * 0x100 + b && r * 0x10000 + g * 0x100 + b < 0x1000000) by (bit_vector);
        h
    }

    /// Law: the packed encoding is lossless. Each channel can be read
    /// back out of `to_hex`'s result as one of its three bytes, so two
    /// colors share a hex value only if they are the same color.
    pub proof fn lemma_to_hex_recovers_channels(self)
        ensures
            self.spec_to_hex() / 0x10000 == self.spec_r(),
            (self.spec_to_hex() / 0x100) % 0x100 == self.spec_g(),
            self.spec_to_hex() % 0x100 == self.spec_b(),
    {
        let r = self.spec_r() as u32;
        let g = self.spec_g() as u32;
        let b = self.spec_b() as u32;
        assert(r < 0x100 && g < 0x100 && b < 0x100 ==> ((r * 0x10000 + g * 0x100 + b) as u32)
            / 0x10000 == r && ((r * 0x10000 + g * 0x100 + b) as u32) / 0x100 % 0x100 == g && ((r
            * 0x10000 + g * 0x100 + b) as u32) % 0x100 == b) by (bit_vector);
    }

    pub fn r(&self) -> (v: u8)
        ensures
            v == self.spec_r(),
    {
        self.r
    }

    pub fn g(&self) -> (v: u8)
        ensures
            v == self.spec_g(),
    {
        self.g
    }

    pub fn b(&self) -> (v: u8)
        ensures
            v == self.spec_b(),
    {
        self.b
    }
}

} // verus!
