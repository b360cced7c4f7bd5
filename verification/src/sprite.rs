//! Colours and images of the characters.

use crate::hash::keccak256;
use vstd::prelude::*;

verus! {

/// A colour as red, green, blue and alpha.
#[derive(Debug, Clone, Copy, PartialEq, Eq, Hash)]
pub struct Color(pub [u8; 4]);

/// The channels of the hair's colour on the plain character sheet.
pub const HAIR_COLOR: [u8; 4] = [0x79, 0x3d, 0x4e, 0xff];

/// The channels of the skin's colour on the plain character sheet.
pub const SKIN_COLOR: [u8; 4] = [0xfb, 0x95, 0x85, 0xff];

/// The channels of the eyes' colour on the plain character sheet.
pub const EYES_COLOR: [u8; 4] = [0x85, 0xa3, 0xc7, 0xff];

/// The channels of the clothing's colour on the plain character sheet.
pub const CLOTHING_COLOR: [u8; 4] = [0x01, 0x76, 0x87, 0xff];

impl Color {
    /// The colour with the given channels.
    pub fn create(r: u8, g: u8, b: u8, a: u8) -> (color: Self)
        ensures
            color.0@ == seq![r, g, b, a],
    {
        let color = Color([r, g, b, a]);
        assert(color.0@ =~= seq![r, g, b, a]);
        color
    }

    /// The colour whose channels are the first four of `bytes`.
    pub fn from_bytes(bytes: &[u8]) -> (color: Self)
        requires
            bytes@.len() >= 4,
        ensures
            color.0@ == bytes@.take(4),
    {
        let color = Self::create(bytes[0], bytes[1], bytes[2], bytes[3]);
        assert(color.0@ =~= bytes@.take(4));
        color
    }

    /// The opaque colour that stands for an identifier: red, green and blue are bytes 28, 3
    /// and 12 of the identifier's Keccak-256 digest.
    pub fn from_identifier(identifier: &[u8]) -> (color: Self)
        ensures
            color.0@ == Self::picked(crate::hash::keccak256_digest(identifier@)),
    {
        let hash = keccak256(identifier);
        Self::from_digest(&hash.bytes)
    }

    /// The channels that `from_digest` picks from a digest.
    pub open spec fn picked(digest: Seq<u8>) -> Seq<u8> {
        seq![digest[28], digest[3], digest[12], 0xffu8]
    }

    /// The opaque colour whose red, green and blue are bytes 28, 3 and 12 of `digest`.
    pub fn from_digest(digest: &[u8; 32]) -> (color: Self)
        ensures
            color.0@ == Self::picked(digest@),
    {
        Self::create(digest[28], digest[3], digest[12], 0xFF)
    }

    /// Whether two colours have the same channels.
    pub fn is_equal(&self, other: &Color) -> (same: bool)
        ensures
            same == (*self == *other),
    {
        crate::primitives::bytes_equal(&self.0, &other.0)
    }
}

/// Why pixels are no image.
#[derive(Clone, Copy, Debug, PartialEq, Eq, Structural)]
pub enum SpriteError {
    /// The number of pixels is not the width times the height.
    SizeMismatch,
}

/// The colour that a recolouring gives to `color`: that of the first pair whose first part
/// is `color`, or `color` itself where there is none.
pub open spec fn recolored(map: Seq<(Color, Color)>, color: Color) -> Color
    decreases map.len(),
{
    if map.len() == 0 {
        color
    } else if map[0].0 == color {
        map[0].1
    } else {
        recolored(map.drop_first(), color)
    }
}

/// An image held in memory, row by row.
#[derive(Debug)]
pub struct SpriteImage {
    width: u32,
    height: u32,
    pixels: Vec<Color>,
}

impl SpriteImage {
    /// The width in pixels.
    pub closed spec fn spec_width(&self) -> u32 {
        self.width
    }

    /// The height in pixels.
    pub closed spec fn spec_height(&self) -> u32 {
        self.height
    }

    /// The pixels, row by row.
    pub closed spec fn view(&self) -> Seq<Color> {
        self.pixels@
    }

    /// The image of the given size that holds the given pixels; an error where their number
    /// is not `width * height`.
    pub fn new(width: u32, height: u32, pixels: Vec<Color>) -> (res: Result<Self, SpriteError>)
        ensures
            match res {
                Ok(image) => {
                    &&& pixels@.len() == width * height
                    &&& image.spec_width() == width
                    &&& image.spec_height() == height
                    &&& image@ == pixels@
                },
                Err(e) => pixels@.len() != width * height && e == SpriteError::SizeMismatch,
            },
    {
        assert(width * height <= u64::MAX) by (nonlinear_arith)
            requires
                width <= u32::MAX,
                height <= u32::MAX,
        ;
        let expected: u64 = (width as u64) * (height as u64);
        if pixels.len() as u64 == expected {
            Ok(SpriteImage { width, height, pixels })
        } else {
            Err(SpriteError::SizeMismatch)
        }
    }

    /// The width in pixels.
    #[verifier::when_used_as_spec(spec_width)]
    pub fn width(&self) -> (width: u32)
        ensures
            width == self.spec_width(),
    {
        self.width
    }

    /// The height in pixels.
    #[verifier::when_used_as_spec(spec_height)]
    pub fn height(&self) -> (height: u32)
        ensures
            height == self.spec_height(),
    {
        self.height
    }

    /// The pixels, row by row.
    pub fn pixels(&self) -> (pixels: &Vec<Color>)
        ensures
            pixels@ == self@,
    {
        &self.pixels
    }

    /// Looks `color` up in a recolouring.
    pub fn recolor(map: &Vec<(Color, Color)>, color: Color) -> (res: Color)
        ensures
            res == recolored(map@, color),
    {
        let mut i: usize = 0;
        assert(map@.skip(0) =~= map@);
        while i < map.len()
            invariant
                0 <= i <= map.len(),
                recolored(map@, color) == recolored(map@.skip(i as int), color),
            decreases map.len() - i,
        {
            if map[i].0.is_equal(&color) {
                assert(map@.skip(i as int)[0] == map@[i as int]);
                return map[i].1;
            }
            proof {
                assert(map@.skip(i as int)[0] == map@[i as int]);
                assert(map@.skip(i as int).drop_first() =~= map@.skip(i + 1));
            }
            i += 1;
        }
        color
    }

    /// Gives every pixel the colour that the recolouring `map` assigns to its colour. The
    /// size of the image stays.
    pub fn modify_color(&mut self, map: &Vec<(Color, Color)>)
        ensures
            final(self).spec_width() == old(self).spec_width(),
            final(self).spec_height() == old(self).spec_height(),
            final(self)@.len() == old(self)@.len(),
            forall|i: int|
                0 <= i < old(self)@.len() ==> final(self)@[i] == recolored(map@, old(self)@[i]),
    {
        let mut i: usize = 0;
        while i < self.pixels.len()
            invariant
                0 <= i <= self.pixels.len(),
                self.width == old(self).width,
                self.height == old(self).height,
                self.pixels.len() == old(self).pixels.len(),
                forall|j: int| 0 <= j < i ==> self.pixels[j] == recolored(map@, old(self).pixels[j]),
                forall|j: int| i <= j < self.pixels.len() ==> self.pixels[j] == old(self).pixels[j],
            decreases self.pixels.len() - i,
        {
            let to = Self::recolor(map, self.pixels[i]);
            self.pixels.set(i, to);
            i += 1;
        }
    }
}

} // verus!
