//! Plain drawing data: colors, patterns, rectangles and bitmap draw
//! options. The actual rendering happens outside the library; these types
//! only describe what should be drawn.

use vstd::prelude::*;

verus! {

/// A color that can be used when drawing.
#[derive(Debug, Copy, Clone, Eq, PartialEq)]
pub enum Color {
    /// A uniform color.
    Solid(Solid),
    /// An 8x8 pattern.
    Pattern(Pattern),
}

impl Color {
    /// Solid black color.
    pub fn black() -> (r: Self)
        ensures
            r == Color::Solid(Solid::Black),
    {
        Color::Solid(Solid::Black)
    }

    /// Solid white color.
    pub fn white() -> (r: Self)
        ensures
            r == Color::Solid(Solid::White),
    {
        Color::Solid(Solid::White)
    }

    pub fn clear() -> (r: Self)
        ensures
            r == Color::Solid(Solid::Clear),
    {
        Color::Solid(Solid::Clear)
    }

    pub fn xor() -> (r: Self)
        ensures
            r == Color::Solid(Solid::Xor),
    {
        Color::Solid(Solid::Xor)
    }
}

/// A uniform color.
#[derive(Debug, Copy, Clone, Eq, PartialEq, Structural)]
pub enum Solid {
    /// Black.
    Black,
    /// White.
    White,
    Clear,
    Xor,
}

/// An 8x8 black-and-white pattern with a transparency mask: eight rows of
/// color bits followed by eight rows of mask bits.
#[derive(Debug, Copy, Clone, Eq, PartialEq)]
pub struct Pattern(pub [u8; 16]);

impl Pattern {
    /// Create a black and white pattern from black bits.
    ///
    /// The argument is an array of 8 numbers describing the bitmap for
    /// each row; the mask rows are left fully opaque.
    pub fn from_black(black: [u8; 8]) -> (r: Self)
        ensures
            forall|i: int| 0 <= i < 8 ==> r.0@[i] == black@[i],
            forall|i: int| 8 <= i < 16 ==> r.0@[i] == 0xFFu8,
    {
        let inner: [u8; 16] = [
            black[0],
            black[1],
            black[2],
            black[3],
            black[4],
            black[5],
            black[6],
            black[7],
            0xFF,
            0xFF,
            0xFF,
            0xFF,
            0xFF,
            0xFF,
            0xFF,
            0xFF,
        ];
        Pattern(inner)
    }

    /// Create a pattern from black bits and a transparency mask, one row
    /// of each per byte.
    pub fn from_black_and_mask(black: [u8; 8], mask: [u8; 8]) -> (r: Self)
        ensures
            forall|i: int| 0 <= i < 8 ==> r.0@[i] == black@[i],
            forall|i: int| 8 <= i < 16 ==> r.0@[i] == mask@[i - 8],
    {
        let inner: [u8; 16] = [
            black[0],
            black[1],
            black[2],
            black[3],
            black[4],
            black[5],
            black[6],
            black[7],
            mask[0],
            mask[1],
            mask[2],
            mask[3],
            mask[4],
            mask[5],
            mask[6],
            mask[7],
        ];
        Pattern(inner)
    }
}

/// A screen-space rectangle: its top-left corner and its size, in pixels.
#[derive(Debug, Copy, Clone, Eq, PartialEq)]
pub struct Rect {
    pub top_left: [i32; 2],
    pub size: [i32; 2],
}

impl Rect {
    pub fn new(top_left: [i32; 2], size: [i32; 2]) -> (r: Self)
        ensures
            r.top_left == top_left,
            r.size == size,
    {
        Rect { top_left, size }
    }
}

/// Error returned when an image cannot be loaded from the game package.
#[derive(Debug, Copy, Clone, Eq, PartialEq, Structural)]
pub enum LoadError {
    InvalidPath,
    NotFound,
}

impl LoadError {
    /// A short human-readable description of the error.
    pub fn message(self) -> (r: &'static str)
        ensures
            self is InvalidPath ==> r@ == "Invalid path"@,
            self is NotFound ==> r@ == "File not found"@,
    {
        match self {
            LoadError::InvalidPath => "Invalid path",
            LoadError::NotFound => "File not found",
        }
    }
}

/// How an image is mirrored when drawn.
#[derive(Debug, Copy, Clone, Eq, PartialEq, Structural)]
pub enum Flip {
    Unflipped,
    FlippedX,
    FlippedY,
    FlippedXY,
}

impl Flip {
    pub fn new(flip_x: bool, flip_y: bool) -> (r: Self)
        ensures
            r == match (flip_x, flip_y) {
                (false, false) => Flip::Unflipped,
                (true, false) => Flip::FlippedX,
                (false, true) => Flip::FlippedY,
                (true, true) => Flip::FlippedXY,
            },
    {
        match (flip_x, flip_y) {
            (false, false) => Flip::Unflipped,
            (true, false) => Flip::FlippedX,
            (false, true) => Flip::FlippedY,
            (true, true) => Flip::FlippedXY,
        }
    }
}

impl Default for Flip {
    fn default() -> (r: Self)
        ensures
            r == Flip::Unflipped,
    {
        Flip::Unflipped
    }
}

/// The blending mode used when drawing bitmaps.
#[non_exhaustive]
#[derive(Debug, Copy, Clone, Eq, PartialEq, Structural)]
pub enum DrawMode {
    /// Images are drawn exactly as they are.
    Copy,
    /// White pixels are drawn transparent.
    WhiteTransparent,
    /// Black pixels are drawn transparent.
    BlackTransparent,
    /// All non-transparent pixels are drawn white.
    FillWhite,
    /// All non-transparent pixels are drawn black.
    FillBlack,
    /// Pixels are drawn inverted on white backgrounds.
    XOR,
    /// Pixels are drawn inverted on black backgrounds.
    NXOR,
    /// Pixels are drawn inverted.
    Inverted,
}

impl Default for DrawMode {
    fn default() -> (r: Self)
        ensures
            r == DrawMode::Copy,
    {
        DrawMode::Copy
    }
}

} // verus!
