//! Line layout: where each glyph goes, how its coverage is laid over the
//! open line, when a line wraps, and how a finished line becomes an image.
//!
//! Horizontal offsets are given in thousandths of a glyph's width.

use vstd::prelude::*;

verus! {

use crate::coverage::{
    is_ink, lemma_screen_bounds, lemma_screen_extremes, screen, screen_of,
};
use crate::glyph::GlyphRaster;
use crate::grid::lemma_cell_index;
use crate::marching::cell_at;

/// The horizontal shift of a glyph of `char_width` pixels: the width times
/// `permille / 1000`, rounded to the nearest integer, halves away from zero.
pub open spec fn char_offset_of(char_width: int, permille: int) -> int {
    if permille >= 0 {
        (char_width * permille + 500) / 1000
    } else {
        -((char_width * (-permille) + 500) / 1000)
    }
}

/// The shift is within half a pixel of the exact product, has the sign of
/// the factor, and a factor of -1000 or more never shifts a glyph left by
/// more than its own width.
pub proof fn lemma_char_offset(char_width: int, permille: int)
    requires
        0 <= char_width,
    ensures
        -500 <= 1000 * char_offset_of(char_width, permille) - char_width * permille <= 500,
        permille >= 0 ==> char_offset_of(char_width, permille) >= 0,
        permille <= 0 ==> char_offset_of(char_width, permille) <= 0,
        permille >= -1000 ==> char_offset_of(char_width, permille) >= -char_width,
        permille == 0 ==> char_offset_of(char_width, permille) == 0,
        permille == -1000 ==> char_offset_of(char_width, permille) == -char_width,
{
    let magnitude = if permille >= 0 {
        permille
    } else {
        -permille
    };
    let product = char_width * magnitude;
    let rounded = (product + 500) / 1000;
    assert(product >= 0 && (magnitude <= 1000 ==> product <= char_width * 1000)) by (nonlinear_arith)
        requires
            char_width >= 0,
            magnitude >= 0,
            product == char_width * magnitude,
    ;
    assert(magnitude == 0 ==> product == 0) by (nonlinear_arith)
        requires
            product == char_width * magnitude,
    ;
    assert(magnitude == 1000 ==> product == char_width * 1000) by (nonlinear_arith)
        requires
            product == char_width * magnitude,
    ;
    assert(char_width * (-permille) == -(char_width * permille)) by (nonlinear_arith);
    assert(rounded >= 0 && -500 <= 1000 * rounded - product <= 500) by (nonlinear_arith)
        requires
            product >= 0,
            rounded == (product + 500) / 1000,
    ;
    assert(product <= char_width * 1000 ==> rounded <= char_width) by (nonlinear_arith)
        requires
            rounded == (product + 500) / 1000,
    ;
    assert(product == char_width * 1000 ==> rounded == char_width) by (nonlinear_arith)
        requires
            rounded == (product + 500) / 1000,
    ;
}

/// Computes the horizontal shift of a glyph. Its magnitude stays within
/// 2^96, whatever the width and the factor.
pub fn char_offset(char_width: usize, offset_permille: i32) -> (offset: i128)
    ensures
        offset == char_offset_of(char_width as int, offset_permille as int),
        -0x1_0000_0000_0000_0000_0000_0000 <= offset <= 0x1_0000_0000_0000_0000_0000_0000,
{
    let width: i128 = char_width as i128;
    let factor: i128 = offset_permille as i128;
    if factor >= 0 {
        assert(0 <= width * factor <= 0x1_0000_0000_0000_0000 * 0x8000_0000) by (nonlinear_arith)
            requires
                0 <= width <= 0x1_0000_0000_0000_0000,
                0 <= factor <= 0x8000_0000,
        ;
        (width * factor + 500) / 1000
    } else {
        let magnitude: i128 = -factor;
        assert(0 <= width * magnitude <= 0x1_0000_0000_0000_0000 * 0x8000_0000)
            by (nonlinear_arith)
            requires
                0 <= width <= 0x1_0000_0000_0000_0000,
                0 <= magnitude <= 0x8000_0000,
        ;
        -((width * magnitude + 500) / 1000)
    }
}

/// Whether a glyph of this width can never be placed: with a maximum line
/// width set, a glyph as wide as the maximum or wider fits on no line.
pub open spec fn too_wide(char_width: int, max_width: Option<usize>) -> bool {
    match max_width {
        Some(m) => char_width >= m,
        None => false,
    }
}

/// Where the next glyph would start on the open line if the line went on:
/// at 0 on an empty line, else at the line's width plus the glyph's shift.
pub open spec fn tentative_x(line_width: int, char_width: int, permille: int) -> int {
    if line_width == 0 {
        0
    } else {
        line_width + char_offset_of(char_width, permille)
    }
}

/// Whether the open line is closed before the next glyph: the line is not
/// empty and with the glyph it would reach the maximum width.
pub open spec fn wraps(
    line_width: int,
    char_width: int,
    permille: int,
    max_width: Option<usize>,
) -> bool {
    line_width != 0 && match max_width {
        Some(m) => tentative_x(line_width, char_width, permille) + char_width >= m,
        None => false,
    }
}

/// The column at which the next glyph starts: 0 on a fresh line after a
/// wrap, else its tentative position.
pub open spec fn placed_x(
    line_width: int,
    char_width: int,
    permille: int,
    max_width: Option<usize>,
) -> int {
    if wraps(line_width, char_width, permille, max_width) {
        0
    } else {
        tentative_x(line_width, char_width, permille)
    }
}

/// Whether the next glyph has a place: its first column is not left of the
/// line's start, and the line that holds it, at `height` rows, has a width
/// and a pixel count that a `usize` can hold.
pub open spec fn placeable(
    line_width: int,
    char_width: int,
    height: int,
    permille: int,
    max_width: Option<usize>,
) -> bool {
    let x = placed_x(line_width, char_width, permille, max_width);
    0 <= x && x + char_width <= usize::MAX && (x + char_width) * height <= usize::MAX
}

/// Where a glyph goes: on a fresh line or on the open one, and at which
/// column.
#[derive(Clone, Copy, Debug, PartialEq, Eq)]
pub struct Placement {
    pub wrap: bool,
    pub x_offset: usize,
}

/// Decides where a glyph of `char_width` pixels goes when the open line is
/// `line_width` pixels wide; `None` where it has no place.
pub fn place_char(
    line_width: usize,
    char_width: usize,
    image_height: usize,
    offset_permille: i32,
    max_width: Option<usize>,
) -> (placement: Option<Placement>)
    ensures
        placement.is_some() == placeable(
            line_width as int,
            char_width as int,
            image_height as int,
            offset_permille as int,
            max_width,
        ),
        placement matches Some(p) ==> {
            &&& p.wrap == wraps(line_width as int, char_width as int, offset_permille as int, max_width)
            &&& p.x_offset == placed_x(
                line_width as int,
                char_width as int,
                offset_permille as int,
                max_width,
            )
        },
{
    let tentative: i128 = if line_width == 0 {
        0
    } else {
        line_width as i128 + char_offset(char_width, offset_permille)
    };
    let end: i128 = tentative + char_width as i128;
    let wrap: bool = line_width != 0 && match max_width {
        Some(m) => end >= m as i128,
        None => false,
    };
    let x: i128 = if wrap {
        0
    } else {
        tentative
    };
    if x < 0 || x > usize::MAX as i128 - char_width as i128 {
        None
    } else {
        let x_offset: usize = x as usize;
        let width: usize = x_offset + char_width;
        if image_height != 0 && width > usize::MAX / image_height {
            assert(width * image_height > usize::MAX) by (nonlinear_arith)
                requires
                    image_height > 0,
                    width > usize::MAX as int / image_height as int,
            ;
            None
        } else {
            assert(width * image_height <= usize::MAX) by (nonlinear_arith)
                requires
                    image_height == 0 || (image_height > 0 && width <= usize::MAX as int
                        / image_height as int),
                    width >= 0,
            ;
            Some(Placement { wrap, x_offset })
        }
    }
}

/// A line as a sequence of columns, each a sequence of coverage levels from
/// top to bottom.
pub open spec fn columns(line: Seq<Vec<u16>>) -> Seq<Seq<u16>> {
    Seq::new(line.len(), |x: int| line[x]@)
}

/// Whether every column of a line has `height` rows.
pub open spec fn has_height(line: Seq<Seq<u16>>, height: int) -> bool {
    forall|x: int| 0 <= x < line.len() ==> (#[trigger] line[x]).len() == height
}

/// The coverage of a line at column `x`, row `y`; nothing right of its last
/// column.
pub open spec fn line_cell(line: Seq<Seq<u16>>, x: int, y: int) -> u16 {
    if 0 <= x < line.len() {
        line[x][y]
    } else {
        0
    }
}

/// What a pixel of the line holds once a glyph was laid over it with its
/// first column at `x_offset`: under the glyph, the screen blend of what
/// was there with the glyph's coverage; elsewhere what was there.
pub open spec fn composited_cell(
    line: Seq<Seq<u16>>,
    x_offset: int,
    glyph: Seq<u16>,
    char_width: int,
    x: int,
    y: int,
) -> u16 {
    let below = line_cell(line, x, y);
    if x_offset <= x < x_offset + char_width {
        screen_of(below as int, glyph[y * char_width + (x - x_offset)] as int) as u16
    } else {
        below
    }
}

/// The line once a glyph of `char_width` columns was laid over it at
/// `x_offset`: it ends where the glyph ends.
pub open spec fn composited(
    line: Seq<Seq<u16>>,
    x_offset: int,
    glyph: Seq<u16>,
    char_width: int,
    height: int,
) -> Seq<Seq<u16>> {
    Seq::new(
        (x_offset + char_width) as nat,
        |x: int|
            Seq::new(
                height as nat,
                |y: int| composited_cell(line, x_offset, glyph, char_width, x, y),
            ),
    )
}

/// Laying a glyph over a line takes no ink away: every pixel holds at least
/// what the line held there, and under the glyph at least what the glyph
/// brings.
pub proof fn lemma_composited_keeps_ink(
    line: Seq<Seq<u16>>,
    x_offset: int,
    glyph: Seq<u16>,
    char_width: int,
    height: int,
    x: int,
    y: int,
)
    requires
        0 <= x_offset,
        0 <= x < x_offset + char_width,
        0 <= y < height,
    ensures
        composited(line, x_offset, glyph, char_width, height)[x][y] >= line_cell(line, x, y),
        x_offset <= x ==> composited(line, x_offset, glyph, char_width, height)[x][y] >= glyph[y
            * char_width + (x - x_offset)],
{
    if x_offset <= x {
        lemma_screen_bounds(
            line_cell(line, x, y) as int,
            glyph[y * char_width + (x - x_offset)] as int,
        );
    }
}

/// Laying a glyph without ink over a line changes no pixel: the line only
/// grows, by columns without ink, to where the glyph ends.
pub proof fn lemma_composited_blank(
    line: Seq<Seq<u16>>,
    x_offset: int,
    glyph: Seq<u16>,
    char_width: int,
    height: int,
    x: int,
    y: int,
)
    requires
        0 <= x_offset,
        0 <= x < x_offset + char_width,
        0 <= y < height,
        forall|i: int| 0 <= i < char_width * height ==> glyph[i] == 0,
    ensures
        composited(line, x_offset, glyph, char_width, height)[x][y] == line_cell(line, x, y),
{
    if x_offset <= x {
        lemma_cell_index(char_width, height, x - x_offset, y);
        lemma_screen_extremes(line_cell(line, x, y) as int);
    }
}

fn blank_column(image_height: usize) -> (column: Vec<u16>)
    ensures
        column@ == Seq::new(image_height as nat, |y: int| 0u16),
{
    let mut column: Vec<u16> = Vec::new();
    let mut y: usize = 0;
    while y < image_height
        invariant
            y <= image_height,
            column@ =~= Seq::new(y as nat, |y: int| 0u16),
        decreases image_height - y,
    {
        column.push(0);
        y = y + 1;
    }
    column
}

/// Lays a glyph's coverage grid over a line with its first column at
/// `x_offset`: the line grows to where the glyph ends, new columns start
/// without ink, and each pixel under the glyph becomes the screen blend of
/// what it held with the glyph's coverage.
pub fn composite(
    line: &mut Vec<Vec<u16>>,
    x_offset: usize,
    char_image: &Vec<u16>,
    char_width: usize,
    image_height: usize,
)
    requires
        x_offset + char_width <= usize::MAX,
        old(line).len() <= x_offset + char_width,
        char_image.len() == char_width * image_height,
        has_height(columns(old(line)@), image_height as int),
    ensures
        columns(final(line)@) == composited(
            columns(old(line)@),
            x_offset as int,
            char_image@,
            char_width as int,
            image_height as int,
        ),
        has_height(columns(final(line)@), image_height as int),
        final(line).len() == x_offset + char_width,
{
    let ghost before = columns(line@);
    let end: usize = x_offset + char_width;
    assert forall|x: int| 0 <= x < line.len() implies (#[trigger] line@[x])@ =~= Seq::new(
        image_height as nat,
        |y: int| line_cell(before, x, y),
    ) by {
        assert(before[x].len() == image_height);
    }
    while line.len() < end
        invariant
            line.len() <= end,
            old(line).len() <= line.len(),
            before == columns(old(line)@),
            has_height(before, image_height as int),
            forall|x: int|
                0 <= x < line.len() ==> (#[trigger] line@[x])@ =~= Seq::new(
                    image_height as nat,
                    |y: int| line_cell(before, x, y),
                ),
        decreases end - line.len(),
    {
        let column = blank_column(image_height);
        line.push(column);
    }
    let mut x: usize = 0;
    while x < char_width
        invariant
            x <= char_width,
            end == x_offset + char_width,
            line.len() == end,
            char_image.len() == char_width * image_height,
            forall|c: int|
                0 <= c < end ==> (#[trigger] line@[c])@ =~= Seq::new(
                    image_height as nat,
                    |y: int|
                        if c < x_offset + x {
                            composited_cell(before, x_offset as int, char_image@, char_width as int, c, y)
                        } else {
                            line_cell(before, c, y)
                        },
                ),
        decreases char_width - x,
    {
        let mut column: Vec<u16> = Vec::new();
        let mut y: usize = 0;
        while y < image_height
            invariant
                y <= image_height,
                x < char_width,
                end == x_offset + char_width,
                line.len() == end,
                char_image.len() == char_width * image_height,
                line@[x_offset + x]@ =~= Seq::new(
                    image_height as nat,
                    |y: int| line_cell(before, x_offset + x, y),
                ),
                column@ =~= Seq::new(
                    y as nat,
                    |y: int|
                        composited_cell(
                            before,
                            x_offset as int,
                            char_image@,
                            char_width as int,
                            x_offset + x,
                            y,
                        ),
                ),
            decreases image_height - y,
        {
            proof {
                lemma_cell_index(char_width as int, image_height as int, x as int, y as int);
            }
            let v: u16 = char_image[y * char_width + x];
            let below: u16 = line[x_offset + x][y];
            column.push(screen(below, v));
            y = y + 1;
        }
        line.set(x_offset + x, column);
        x = x + 1;
    }
    assert(columns(line@) =~~= composited(
        before,
        x_offset as int,
        char_image@,
        char_width as int,
        image_height as int,
    ));
}

/// The image of a line: row-major, one cell per pixel, set where the
/// coverage is ink under `threshold`.
pub open spec fn binarized(line: Seq<Seq<u16>>, height: int, threshold: u16) -> Seq<bool> {
    Seq::new(
        (line.len() * height) as nat,
        |i: int| is_ink(line[i % line.len() as int][i / line.len() as int], threshold),
    )
}

/// The image of a line has the line's width times its height in cells, and
/// the cell of column `x`, row `y` is at `y * width + x`.
pub proof fn lemma_binarized_cell(line: Seq<Seq<u16>>, height: int, threshold: u16, x: int, y: int)
    requires
        0 <= x < line.len(),
        0 <= y < height,
    ensures
        binarized(line, height, threshold).len() == line.len() * height,
        0 <= y * line.len() + x < line.len() * height,
        binarized(line, height, threshold)[y * line.len() + x] == is_ink(line[x][y], threshold),
{
    let w = line.len() as int;
    lemma_cell_index(w, height, x, y);
    vstd::arithmetic::div_mod::lemma_fundamental_div_mod_converse(y * w + x, w, y, x);
}

/// Read as a grid of `height` rows, the image of a line has as many columns
/// as the line, so tracing it sees each pixel of the line at its place.
pub proof fn lemma_binarized_width(line: Seq<Seq<u16>>, height: int, threshold: u16)
    requires
        0 < height,
    ensures
        binarized(line, height, threshold).len() as int / height == line.len(),
        forall|x: int, y: int, outside: bool|
            0 <= x < line.len() && 0 <= y < height ==> #[trigger] cell_at(
                binarized(line, height, threshold),
                line.len() as int,
                height,
                x,
                y,
                outside,
            ) == is_ink(line[x][y], threshold),
{
    let w = line.len() as int;
    assert(w * height >= 0 && (w * height) / height == w) by (nonlinear_arith)
        requires
            0 <= w,
            0 < height,
    ;
    assert forall|x: int, y: int, outside: bool| 0 <= x < w && 0 <= y < height implies #[trigger] cell_at(
        binarized(line, height, threshold),
        w,
        height,
        x,
        y,
        outside,
    ) == is_ink(line[x][y], threshold) by {
        lemma_binarized_cell(line, height, threshold, x, y);
    }
}

/// Flattens a finished line into its image and binarizes it.
pub fn binarize(line: &Vec<Vec<u16>>, image_height: usize, threshold: u16) -> (image: Vec<bool>)
    requires
        has_height(columns(line@), image_height as int),
        line.len() * image_height <= usize::MAX,
    ensures
        image@ == binarized(columns(line@), image_height as int, threshold),
        image.len() == line.len() * image_height,
{
    let width: usize = line.len();
    let ghost cols = columns(line@);
    let ghost want = binarized(cols, image_height as int, threshold);
    let mut image: Vec<bool> = Vec::new();
    let mut y: usize = 0;
    while y < image_height
        invariant
            y <= image_height,
            width == line.len(),
            cols == columns(line@),
            has_height(cols, image_height as int),
            want == binarized(cols, image_height as int, threshold),
            image.len() == y * width,
            forall|i: int| 0 <= i < image.len() ==> image@[i] == want[i],
        decreases image_height - y,
    {
        let mut x: usize = 0;
        while x < width
            invariant
                y < image_height,
                x <= width,
                width == line.len(),
                cols == columns(line@),
                has_height(cols, image_height as int),
                want == binarized(cols, image_height as int, threshold),
                image.len() == y * width + x,
                forall|i: int| 0 <= i < image.len() ==> image@[i] == want[i],
            decreases width - x,
        {
            proof {
                lemma_binarized_cell(cols, image_height as int, threshold, x as int, y as int);
            }
            image.push(line[x][y] > threshold);
            x = x + 1;
        }
        y = y + 1;
        assert(y * width == (y - 1) * width + width) by (nonlinear_arith);
    }
    assert(image_height * width == width * image_height) by (nonlinear_arith);
    image
}

/// The state of a layout: the lines that were closed by a wrap, in order,
/// and the line that is still open.
pub struct Layout {
    pub closed: Seq<Seq<Seq<u16>>>,
    pub open: Seq<Seq<u16>>,
}

/// The layout after the glyphs were placed one after the other: each glyph
/// goes on the open line at its tentative position, unless the line would
/// reach the maximum width with it; then the open line is closed and the
/// glyph starts a new one.
pub open spec fn layout(
    glyphs: Seq<GlyphRaster>,
    height: int,
    permille: int,
    max_width: Option<usize>,
) -> Layout
    decreases glyphs.len(),
{
    if glyphs.len() == 0 {
        Layout { closed: Seq::empty(), open: Seq::empty() }
    } else {
        let before = layout(glyphs.drop_last(), height, permille, max_width);
        let g = glyphs.last();
        let line_width = before.open.len() as int;
        let x = placed_x(line_width, g.width as int, permille, max_width);
        if wraps(line_width, g.width as int, permille, max_width) {
            Layout {
                closed: before.closed.push(before.open),
                open: composited(Seq::empty(), x, g.canvas(height), g.width as int, height),
            }
        } else {
            Layout {
                closed: before.closed,
                open: composited(before.open, x, g.canvas(height), g.width as int, height),
            }
        }
    }
}

/// The lines of a layout at the end of the text: the closed lines, and the
/// open line if anything is on it.
pub open spec fn finished_lines(layout: Layout) -> Seq<Seq<Seq<u16>>> {
    if layout.open.len() > 0 {
        layout.closed.push(layout.open)
    } else {
        layout.closed
    }
}

/// Whether no glyph is too wide for a line.
pub open spec fn none_too_wide(glyphs: Seq<GlyphRaster>, max_width: Option<usize>) -> bool {
    forall|i: int| 0 <= i < glyphs.len() ==> !too_wide((#[trigger] glyphs[i]).width as int, max_width)
}

/// Whether glyph `i` is the first that is too wide for a line.
pub open spec fn first_too_wide(
    glyphs: Seq<GlyphRaster>,
    i: int,
    max_width: Option<usize>,
) -> bool {
    &&& 0 <= i < glyphs.len()
    &&& too_wide(glyphs[i].width as int, max_width)
    &&& none_too_wide(glyphs.take(i), max_width)
}

/// Whether every glyph has a place, up to the first that is too wide for a
/// line if there is one.
pub open spec fn layout_defined(
    glyphs: Seq<GlyphRaster>,
    height: int,
    permille: int,
    max_width: Option<usize>,
) -> bool
    decreases glyphs.len(),
{
    glyphs.len() == 0 || {
        &&& layout_defined(glyphs.drop_last(), height, permille, max_width)
        &&& none_too_wide(glyphs, max_width) ==> placeable(
            layout(glyphs.drop_last(), height, permille, max_width).open.len() as int,
            glyphs.last().width as int,
            height,
            permille,
            max_width,
        )
    }
}

/// Whether a line can stand in a layout: every column has `height` rows,
/// its pixel count fits a `usize`, and it is narrower than the maximum
/// width where one is set.
pub open spec fn line_fits(line: Seq<Seq<u16>>, height: int, max_width: Option<usize>) -> bool {
    &&& has_height(line, height)
    &&& line.len() * height <= usize::MAX
    &&& max_width matches Some(m) ==> line.len() < m
}

/// A layout that is defined for some glyphs is defined for every prefix of
/// them.
pub proof fn lemma_layout_defined_prefix(
    glyphs: Seq<GlyphRaster>,
    n: int,
    height: int,
    permille: int,
    max_width: Option<usize>,
)
    requires
        0 <= n <= glyphs.len(),
        layout_defined(glyphs, height, permille, max_width),
    ensures
        layout_defined(glyphs.take(n), height, permille, max_width),
    decreases glyphs.len(),
{
    if n == glyphs.len() {
        assert(glyphs.take(n) =~= glyphs);
    } else {
        lemma_layout_defined_prefix(glyphs.drop_last(), n, height, permille, max_width);
        assert(glyphs.drop_last().take(n) =~= glyphs.take(n));
    }
}

/// Placing one more glyph: the open line ends where the glyph ends; with a
/// factor of -1000 or more it is no shorter than before unless the line
/// wrapped; and it stays under the maximum width unless the glyph is too
/// wide.
pub proof fn lemma_layout_step(
    glyphs: Seq<GlyphRaster>,
    height: int,
    permille: int,
    max_width: Option<usize>,
)
    requires
        glyphs.len() > 0,
        0 <= height,
        placeable(
            layout(glyphs.drop_last(), height, permille, max_width).open.len() as int,
            glyphs.last().width as int,
            height,
            permille,
            max_width,
        ),
    ensures
        ({
            let before = layout(glyphs.drop_last(), height, permille, max_width);
            let after = layout(glyphs, height, permille, max_width);
            let cw = glyphs.last().width as int;
            let x = placed_x(before.open.len() as int, cw, permille, max_width);
            &&& after.open.len() == x + cw
            &&& has_height(after.open, height)
            &&& -1000 <= permille && !wraps(before.open.len() as int, cw, permille, max_width)
                ==> before.open.len() <= x + cw
            &&& !too_wide(cw, max_width) ==> (max_width matches Some(m) ==> after.open.len() < m)
        }),
{
    let before = layout(glyphs.drop_last(), height, permille, max_width);
    let cw = glyphs.last().width as int;
    lemma_char_offset(cw, permille);
}

/// In a defined layout of glyphs of which none is too wide, the open line
/// has the common height and a pixel count that fits a `usize`, and every
/// finished line fits and holds at least one column.
pub proof fn lemma_layout_lines_fit(
    glyphs: Seq<GlyphRaster>,
    height: int,
    permille: int,
    max_width: Option<usize>,
)
    requires
        0 <= height,
        -1000 <= permille,
        none_too_wide(glyphs, max_width),
        layout_defined(glyphs, height, permille, max_width),
    ensures
        ({
            let l = layout(glyphs, height, permille, max_width);
            let lines = finished_lines(l);
            &&& has_height(l.open, height)
            &&& l.open.len() * height <= usize::MAX
            &&& forall|k: int|
                0 <= k < lines.len() ==> line_fits(#[trigger] lines[k], height, max_width)
                    && lines[k].len() > 0
        }),
    decreases glyphs.len(),
{
    let after = layout(glyphs, height, permille, max_width);
    if glyphs.len() > 0 {
        let front = glyphs.drop_last();
        lemma_layout_lines_fit(front, height, permille, max_width);
        lemma_layout_step(glyphs, height, permille, max_width);
        let before = layout(front, height, permille, max_width);
        let earlier = finished_lines(before);
        assert forall|k: int| 0 <= k < after.closed.len() implies line_fits(
            #[trigger] after.closed[k],
            height,
            max_width,
        ) && after.closed[k].len() > 0 by {
            if k < before.closed.len() {
                assert(earlier[k] == before.closed[k]);
            }
        }
    }
}

/// The lines that a sequence of line buffers stands for.
pub open spec fn line_models(lines: Seq<Vec<Vec<u16>>>) -> Seq<Seq<Seq<u16>>> {
    Seq::new(lines.len(), |k: int| columns(lines[k]@))
}

/// Once a glyph is too wide, nothing is asked of the glyphs after it.
pub proof fn lemma_layout_defined_past_too_wide(
    glyphs: Seq<GlyphRaster>,
    i: int,
    height: int,
    permille: int,
    max_width: Option<usize>,
)
    requires
        0 <= i < glyphs.len(),
        too_wide(glyphs[i].width as int, max_width),
        layout_defined(glyphs.take(i), height, permille, max_width),
    ensures
        layout_defined(glyphs, height, permille, max_width),
    decreases glyphs.len(),
{
    let front = glyphs.drop_last();
    if i < glyphs.len() - 1 {
        assert(front.take(i) =~= glyphs.take(i));
        lemma_layout_defined_past_too_wide(front, i, height, permille, max_width);
    }
}

/// Tells whether every glyph has a place, up to the first that is too wide
/// for a line.
pub fn layout_is_defined(
    glyphs: &Vec<GlyphRaster>,
    image_height: usize,
    offset_permille: i32,
    max_width: Option<usize>,
) -> (defined: bool)
    ensures
        defined == layout_defined(glyphs@, image_height as int, offset_permille as int, max_width),
{
    let ghost h = image_height as int;
    let ghost pm = offset_permille as int;
    let mut line_width: usize = 0;
    let mut i: usize = 0;
    while i < glyphs.len()
        invariant
            i <= glyphs.len(),
            h == image_height,
            pm == offset_permille,
            none_too_wide(glyphs@.take(i as int), max_width),
            layout_defined(glyphs@.take(i as int), h, pm, max_width),
            line_width == layout(glyphs@.take(i as int), h, pm, max_width).open.len(),
        decreases glyphs.len() - i,
    {
        let glyph = &glyphs[i];
        let ghost upto = glyphs@.take(i + 1);
        proof {
            assert(upto.drop_last() =~= glyphs@.take(i as int));
        }
        let stop: bool = match max_width {
            Some(m) => glyph.width >= m,
            None => false,
        };
        if stop {
            proof {
                lemma_layout_defined_past_too_wide(glyphs@, i as int, h, pm, max_width);
            }
            return true;
        }
        match place_char(line_width, glyph.width, image_height, offset_permille, max_width) {
            Some(placement) => {
                proof {
                    lemma_layout_step(upto, h, pm, max_width);
                }
                line_width = placement.x_offset + glyph.width;
            },
            None => {
                proof {
                    if layout_defined(glyphs@, h, pm, max_width) {
                        lemma_layout_defined_prefix(glyphs@, i + 1, h, pm, max_width);
                    }
                }
                return false;
            },
        }
        i = i + 1;
    }
    assert(glyphs@.take(i as int) =~= glyphs@);
    true
}

} // verus!
