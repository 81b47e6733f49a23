//! The two steps of rendering: a glyph's samples become its coverage grid,
//! and the glyphs of a text become binarized line images.

use vstd::prelude::*;

verus! {

use crate::glyph::{painted, GlyphRaster, Sample};
use crate::grid::lemma_cell_index;
use crate::layout::{
    binarize, binarized, columns, composite, finished_lines, first_too_wide, layout,
    layout_defined, lemma_layout_defined_prefix, lemma_layout_lines_fit, lemma_layout_step,
    line_fits, line_models, none_too_wide, place_char, too_wide,
};

/// Builds the coverage grid of one glyph: a zeroed canvas of the glyph's
/// advance width and the common line height, onto which each sample is
/// written at its place; samples that fall off the canvas are dropped.
pub fn render_char(glyph: &GlyphRaster, image_height: usize) -> (canvas: Vec<u16>)
    requires
        glyph.width * image_height <= usize::MAX,
    ensures
        canvas@ == glyph.canvas(image_height as int),
        canvas.len() == glyph.width * image_height,
{
    let w: usize = glyph.width;
    let size: usize = w * image_height;
    let mut canvas: Vec<u16> = Vec::new();
    let mut filled: usize = 0;
    while filled < size
        invariant
            filled <= size,
            canvas@ =~= Seq::new(filled as nat, |i: int| 0u16),
        decreases size - filled,
    {
        canvas.push(0);
        filled = filled + 1;
    }
    let ghost left = glyph.left as int;
    let ghost top = glyph.top as int;
    let mut k: usize = 0;
    while k < glyph.samples.len()
        invariant
            k <= glyph.samples.len(),
            w == glyph.width,
            size == w * image_height,
            left == glyph.left,
            top == glyph.top,
            canvas@ == painted(glyph.samples@.take(k as int), left, top, w as int, image_height as int),
            canvas.len() == size,
        decreases glyph.samples.len() - k,
    {
        let s: Sample = glyph.samples[k];
        let x: i128 = s.x as i128 + glyph.left as i128;
        let y: i128 = s.y as i128 + glyph.top as i128;
        proof {
            let upto = glyph.samples@.take(k + 1);
            assert(upto.drop_last() =~= glyph.samples@.take(k as int));
        }
        if 0 <= x && x < w as i128 && 0 <= y && y < image_height as i128 {
            proof {
                lemma_cell_index(w as int, image_height as int, x as int, y as int);
            }
            let index: usize = y as usize * w + x as usize;
            canvas.set(index, s.coverage);
        }
        k = k + 1;
    }
    assert(glyph.samples@.take(k as int) =~= glyph.samples@);
    canvas
}

/// Lays out the glyphs of a text into lines and binarizes each line.
///
/// Fails with the character of the first glyph that is too wide for a line.
/// Else the glyphs are placed in order, each shifted by its width times
/// `offset_permille / 1000`, wrapping where a line would reach `max_width`,
/// and every finished line is returned as a row-major image of
/// `image_height` rows, set where the coverage exceeds `threshold`.
pub fn render_str(
    glyphs: &Vec<GlyphRaster>,
    image_height: usize,
    offset_permille: i32,
    threshold: u16,
    max_width: Option<usize>,
) -> (result: Result<Vec<Vec<bool>>, char>)
    requires
        image_height > 0,
        offset_permille >= -1000,
        layout_defined(glyphs@, image_height as int, offset_permille as int, max_width),
    ensures
        match result {
            Err(c) => exists|i: int| first_too_wide(glyphs@, i, max_width) && c == glyphs[i].ch,
            Ok(images) => {
                let lines = finished_lines(
                    layout(glyphs@, image_height as int, offset_permille as int, max_width),
                );
                &&& none_too_wide(glyphs@, max_width)
                &&& images.len() == lines.len()
                &&& forall|k: int|
                    0 <= k < images.len() ==> (#[trigger] images[k])@ == binarized(
                        lines[k],
                        image_height as int,
                        threshold,
                    )
            },
        },
{
    let ghost h = image_height as int;
    let ghost pm = offset_permille as int;
    let mut ret_lines: Vec<Vec<Vec<u16>>> = Vec::new();
    let mut cur_line: Vec<Vec<u16>> = Vec::new();
    let mut i: usize = 0;
    while i < glyphs.len()
        invariant
            i <= glyphs.len(),
            h == image_height,
            pm == offset_permille,
            pm >= -1000,
            layout_defined(glyphs@, h, pm, max_width),
            none_too_wide(glyphs@.take(i as int), max_width),
            line_models(ret_lines@) == layout(glyphs@.take(i as int), h, pm, max_width).closed,
            columns(cur_line@) == layout(glyphs@.take(i as int), h, pm, max_width).open,
        decreases glyphs.len() - i,
    {
        let glyph = &glyphs[i];
        let ghost sofar = glyphs@.take(i as int);
        let ghost upto = glyphs@.take(i + 1);
        proof {
            assert(upto.drop_last() =~= sofar);
            lemma_layout_defined_prefix(glyphs@, i as int, h, pm, max_width);
            lemma_layout_defined_prefix(glyphs@, i + 1, h, pm, max_width);
            lemma_layout_lines_fit(sofar, h, pm, max_width);
        }
        let stop: bool = match max_width {
            Some(m) => glyph.width >= m,
            None => false,
        };
        if stop {
            assert(first_too_wide(glyphs@, i as int, max_width));
            return Err(glyph.ch);
        }
        proof {
            lemma_layout_step(upto, h, pm, max_width);
        }
        let placed = place_char(cur_line.len(), glyph.width, image_height, offset_permille, max_width);
        let placement = placed.unwrap();
        assert(glyph.width * image_height <= usize::MAX) by (nonlinear_arith)
            requires
                (placement.x_offset + glyph.width) * image_height <= usize::MAX,
                placement.x_offset >= 0,
                glyph.width >= 0,
                image_height >= 0,
        ;
        let char_image = render_char(glyph, image_height);
        if placement.wrap {
            ret_lines.push(cur_line);
            cur_line = Vec::new();
            assert(columns(cur_line@) =~= Seq::empty());
        }
        composite(&mut cur_line, placement.x_offset, &char_image, glyph.width, image_height);
        i = i + 1;
    }
    assert(glyphs@.take(i as int) =~= glyphs@);
    proof {
        lemma_layout_lines_fit(glyphs@, h, pm, max_width);
    }
    if cur_line.len() > 0 {
        ret_lines.push(cur_line);
    }
    let ghost lines = finished_lines(layout(glyphs@, h, pm, max_width));
    let mut images: Vec<Vec<bool>> = Vec::new();
    let mut k: usize = 0;
    while k < ret_lines.len()
        invariant
            k <= ret_lines.len(),
            h == image_height,
            line_models(ret_lines@) == lines,
            forall|j: int| 0 <= j < lines.len() ==> line_fits(#[trigger] lines[j], h, max_width),
            images.len() == k,
            forall|j: int| 0 <= j < k ==> (#[trigger] images[j])@ == binarized(lines[j], h, threshold),
        decreases ret_lines.len() - k,
    {
        assert(lines[k as int] == columns(ret_lines@[k as int]@));
        let image = binarize(&ret_lines[k], image_height, threshold);
        images.push(image);
        k = k + 1;
    }
    Ok(images)
}

} // verus!
