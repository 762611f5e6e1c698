//! What the display's grid behind the spectrum is made of: the two grid
//! components, which carry no data, and the description of the line buffer
//! that the grid shader reads.
//!
//! The line buffer holds the positions of the decibel lines, then the
//! positions of the frequency lines, then one flag for each frequency line
//! that says whether the line is a major one.

use vstd::prelude::*;

verus! {

/// The grid drawn on a canvas: lines and labels, the same in every frame.
#[derive(Debug, Clone, Copy, PartialEq, Eq, Structural)]
pub struct GridOverlay;

impl GridOverlay {
    /// The grid overlay.
    pub fn new() -> (overlay: Self)
        ensures
            overlay == GridOverlay,
    {
        GridOverlay
    }
}

/// The grid drawn by a shader: the same in every frame.
#[derive(Debug, Clone, Copy, PartialEq, Eq, Structural)]
pub struct GridShader;

impl GridShader {
    /// The grid shader.
    pub fn new() -> (shader: Self)
        ensures
            shader == GridShader,
    {
        GridShader
    }
}

impl Default for GridShader {
    /// The grid shader.
    fn default() -> (shader: Self)
        ensures
            shader == GridShader,
    {
        GridShader
    }
}

/// How many lines of each kind the line buffer describes. The padding fills
/// the record up to sixteen bytes.
#[derive(Debug, Clone, Copy)]
pub struct GridMetadata {
    /// The number of decibel lines.
    pub db_line_count: u32,
    /// The number of frequency lines.
    pub freq_line_count: u32,
    /// Always zero.
    pub _padding: [u32; 2],
}

impl GridMetadata {
    /// Where in the line buffer the flags of the frequency lines start:
    /// behind the positions of both kinds of lines.
    pub open spec fn flags_start(&self) -> int {
        self.db_line_count + self.freq_line_count
    }

    /// The number of entries of the line buffer: one for each decibel line
    /// and two for each frequency line.
    pub open spec fn buffer_len(&self) -> int {
        self.db_line_count + 2 * self.freq_line_count
    }

    /// The metadata for the given numbers of lines.
    pub fn new(db_line_count: u32, freq_line_count: u32) -> (metadata: Self)
        ensures
            metadata.db_line_count == db_line_count,
            metadata.freq_line_count == freq_line_count,
            metadata._padding@ == seq![0u32, 0u32],
    {
        let metadata = GridMetadata { db_line_count, freq_line_count, _padding: [0, 0] };
        assert(metadata._padding@ =~= seq![0u32, 0u32]);
        metadata
    }

    /// Where in the line buffer the flags of the frequency lines start.
    pub fn flag_offset(&self) -> (offset: u64)
        ensures
            offset == self.flags_start(),
    {
        self.db_line_count as u64 + self.freq_line_count as u64
    }

    /// The number of entries of the line buffer.
    pub fn positions_len(&self) -> (len: u64)
        ensures
            len == self.buffer_len(),
    {
        self.db_line_count as u64 + 2 * (self.freq_line_count as u64)
    }
}

} // verus!
