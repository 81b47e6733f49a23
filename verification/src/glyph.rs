//! Rasterized glyphs and the canvas that their samples are written onto.

use vstd::prelude::*;

verus! {

use crate::grid::lemma_cell_index;

/// One pixel of a rasterized glyph: its position within the glyph's pixel
/// bounding box, and its coverage.
#[derive(Clone, Copy, Debug, PartialEq, Eq)]
pub struct Sample {
    pub x: u32,
    pub y: u32,
    pub coverage: u16,
}

/// A glyph as the rasterizer hands it over: the character, its advance
/// width in pixels, the top-left corner of its pixel bounding box on the
/// glyph's canvas, and the pixels of that box.
#[derive(Debug)]
pub struct GlyphRaster {
    pub ch: char,
    pub width: usize,
    pub left: i32,
    pub top: i32,
    pub samples: Vec<Sample>,
}

/// The row-major index on a `w` by `h` canvas of the cell that a sample
/// lands on, for a bounding box whose corner is at `(left, top)`; `None`
/// where the sample falls off the canvas.
pub open spec fn sample_cell(s: Sample, left: int, top: int, w: int, h: int) -> Option<int> {
    let x = s.x + left;
    let y = s.y + top;
    if 0 <= x < w && 0 <= y < h {
        Some(y * w + x)
    } else {
        None
    }
}

/// A zeroed `w` by `h` canvas onto which the samples were written in order:
/// a sample that lands on the canvas replaces what its cell held, and one
/// that falls off is dropped.
pub open spec fn painted(samples: Seq<Sample>, left: int, top: int, w: int, h: int) -> Seq<u16>
    decreases samples.len(),
{
    if samples.len() == 0 {
        Seq::new((w * h) as nat, |i: int| 0u16)
    } else {
        let below = painted(samples.drop_last(), left, top, w, h);
        match sample_cell(samples.last(), left, top, w, h) {
            Some(i) => below.update(i, samples.last().coverage),
            None => below,
        }
    }
}

impl GlyphRaster {
    /// The glyph's coverage grid at `height` rows: row-major, `width`
    /// columns wide.
    pub open spec fn canvas(&self, height: int) -> Seq<u16> {
        painted(self.samples@, self.left as int, self.top as int, self.width as int, height)
    }
}

/// The canvas has `w * h` cells.
pub proof fn lemma_painted_len(samples: Seq<Sample>, left: int, top: int, w: int, h: int)
    requires
        0 <= w,
        0 <= h,
    ensures
        painted(samples, left, top, w, h).len() == w * h,
    decreases samples.len(),
{
    assert(w * h >= 0) by (nonlinear_arith)
        requires
            0 <= w,
            0 <= h,
    ;
    if samples.len() > 0 {
        lemma_painted_len(samples.drop_last(), left, top, w, h);
        let s = samples.last();
        if sample_cell(s, left, top, w, h).is_some() {
            lemma_cell_index(w, h, s.x + left, s.y + top);
        }
    }
}

/// A cell on which no sample lands holds no coverage.
pub proof fn lemma_painted_untouched(
    samples: Seq<Sample>,
    left: int,
    top: int,
    w: int,
    h: int,
    cell: int,
)
    requires
        0 <= w,
        0 <= h,
        0 <= cell < w * h,
        forall|k: int| 0 <= k < samples.len() ==> sample_cell(samples[k], left, top, w, h) != Some(cell),
    ensures
        painted(samples, left, top, w, h)[cell] == 0,
    decreases samples.len(),
{
    if samples.len() > 0 {
        let front = samples.drop_last();
        lemma_painted_untouched(front, left, top, w, h, cell);
        lemma_painted_len(front, left, top, w, h);
        let s = samples.last();
        if sample_cell(s, left, top, w, h).is_some() {
            lemma_cell_index(w, h, s.x + left, s.y + top);
        }
    }
}

/// A cell holds the coverage of the last sample that lands on it.
pub proof fn lemma_painted_last_wins(
    samples: Seq<Sample>,
    left: int,
    top: int,
    w: int,
    h: int,
    cell: int,
    k: int,
)
    requires
        0 <= w,
        0 <= h,
        0 <= cell < w * h,
        0 <= k < samples.len(),
        sample_cell(samples[k], left, top, w, h) == Some(cell),
        forall|j: int| k < j < samples.len() ==> sample_cell(samples[j], left, top, w, h) != Some(cell),
    ensures
        painted(samples, left, top, w, h)[cell] == samples[k].coverage,
    decreases samples.len(),
{
    let front = samples.drop_last();
    let s = samples.last();
    lemma_painted_len(front, left, top, w, h);
    if sample_cell(s, left, top, w, h).is_some() {
        lemma_cell_index(w, h, s.x + left, s.y + top);
    }
    if k < samples.len() - 1 {
        lemma_painted_last_wins(front, left, top, w, h, cell, k);
    }
}

/// Samples without coverage leave the canvas without coverage.
pub proof fn lemma_painted_inkless(samples: Seq<Sample>, left: int, top: int, w: int, h: int)
    requires
        0 <= w,
        0 <= h,
        forall|k: int| 0 <= k < samples.len() ==> (#[trigger] samples[k]).coverage == 0,
    ensures
        forall|i: int| 0 <= i < w * h ==> painted(samples, left, top, w, h)[i] == 0,
    decreases samples.len(),
{
    if samples.len() > 0 {
        let front = samples.drop_last();
        lemma_painted_inkless(front, left, top, w, h);
        lemma_painted_len(front, left, top, w, h);
        let s = samples.last();
        if sample_cell(s, left, top, w, h).is_some() {
            lemma_cell_index(w, h, s.x + left, s.y + top);
        }
    }
}

/// A glyph without ink, be it without samples or with samples that carry no
/// coverage, has a canvas of its advance width times the height, with no
/// coverage anywhere.
pub proof fn lemma_blank_canvas(glyph: GlyphRaster, height: int)
    requires
        0 <= height,
        forall|k: int| 0 <= k < glyph.samples@.len() ==> (#[trigger] glyph.samples@[k]).coverage == 0,
    ensures
        glyph.canvas(height).len() == glyph.width * height,
        forall|i: int| 0 <= i < glyph.width * height ==> glyph.canvas(height)[i] == 0,
{
    lemma_painted_len(glyph.samples@, glyph.left as int, glyph.top as int, glyph.width as int, height);
    lemma_painted_inkless(
        glyph.samples@,
        glyph.left as int,
        glyph.top as int,
        glyph.width as int,
        height,
    );
}

} // verus!
