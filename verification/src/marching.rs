//! Marching squares over a boolean grid, with two corner styles.

use vstd::prelude::*;

verus! {

use crate::grid::lemma_cell_index;

// Corners are named after the one cell of the neighbourhood that is set, or
// after the one that is not.
pub const ROUND_TOP_LEFT: char = '\u{256F}';
pub const ROUND_TOP_RIGHT: char = '\u{2570}';
pub const ROUND_BOTTOM_LEFT: char = '\u{256E}';
pub const ROUND_BOTTOM_RIGHT: char = '\u{256D}';

pub const SHARP_TOP_LEFT: char = '\u{2518}';
pub const SHARP_TOP_RIGHT: char = '\u{2514}';
pub const SHARP_BOTTOM_LEFT: char = '\u{2510}';
pub const SHARP_BOTTOM_RIGHT: char = '\u{250C}';

pub const VERTICAL: char = '\u{2502}';
pub const HORIZONTAL: char = '\u{2500}';

pub const DIAG_LEFT_DOWN: char = '\u{2571}';
pub const DIAG_RIGHT_DOWN: char = '\u{2572}';

/// The 4-bit pattern of a 2x2 neighbourhood: bit 0 is the top-left cell,
/// bit 1 the top-right, bit 2 the bottom-left, bit 3 the bottom-right.
pub open spec fn pattern_of(
    top_left: bool,
    top_right: bool,
    bottom_left: bool,
    bottom_right: bool,
) -> int {
    (if top_left { 1int } else { 0int }) + (if top_right { 2int } else { 0int })
        + (if bottom_left { 4int } else { 0int }) + (if bottom_right { 8int } else { 0int })
}

/// Computes the pattern of a neighbourhood.
pub fn pattern_index(top_left: bool, top_right: bool, bottom_left: bool, bottom_right: bool) -> (index: u8)
    ensures
        index == pattern_of(top_left, top_right, bottom_left, bottom_right),
        index < 16,
{
    let mut index: u8 = 0;
    if top_left {
        index = index + 1;
    }
    if top_right {
        index = index + 2;
    }
    if bottom_left {
        index = index + 4;
    }
    if bottom_right {
        index = index + 8;
    }
    index
}

/// The character of the round style for `pattern`, with `null` shown for an
/// empty neighbourhood and `full` for a filled one.
pub open spec fn round_glyph(pattern: int, null: char, full: char) -> char {
    if pattern == 0 {
        null
    } else if pattern == 1 || pattern == 14 {
        ROUND_TOP_LEFT
    } else if pattern == 2 || pattern == 13 {
        ROUND_TOP_RIGHT
    } else if pattern == 4 || pattern == 11 {
        ROUND_BOTTOM_LEFT
    } else if pattern == 8 || pattern == 7 {
        ROUND_BOTTOM_RIGHT
    } else {
        shared_glyph(pattern, full)
    }
}

/// The character of the square style for `pattern`.
pub open spec fn sharp_glyph(pattern: int, null: char, full: char) -> char {
    if pattern == 0 {
        null
    } else if pattern == 1 || pattern == 14 {
        SHARP_TOP_LEFT
    } else if pattern == 2 || pattern == 13 {
        SHARP_TOP_RIGHT
    } else if pattern == 4 || pattern == 11 {
        SHARP_BOTTOM_LEFT
    } else if pattern == 8 || pattern == 7 {
        SHARP_BOTTOM_RIGHT
    } else {
        shared_glyph(pattern, full)
    }
}

/// The characters that both styles use for the patterns with two or four
/// cells set: straight lines where the set cells share a side of the
/// neighbourhood, diagonals where they are opposite corners.
pub open spec fn shared_glyph(pattern: int, full: char) -> char {
    if pattern == 3 || pattern == 12 {
        HORIZONTAL
    } else if pattern == 5 || pattern == 10 {
        VERTICAL
    } else if pattern == 6 {
        DIAG_LEFT_DOWN
    } else if pattern == 9 {
        DIAG_RIGHT_DOWN
    } else {
        full
    }
}

/// A corner style: a total table from neighbourhood patterns to characters.
pub trait MarchingSquare {
    /// The character that this style shows for `pattern`.
    spec fn glyph(&self, pattern: int) -> char;

    /// Looks up the character for one 2x2 neighbourhood.
    fn marching_square(
        &self,
        top_left: bool,
        top_right: bool,
        bottom_left: bool,
        bottom_right: bool,
    ) -> (c: char)
        ensures
            c == self.glyph(pattern_of(top_left, top_right, bottom_left, bottom_right)),
    ;
}

/// The style with curved corners; `null` is shown for an empty
/// neighbourhood and `full` for a filled one.
pub struct RoundCornerMarchingSquare {
    pub null: char,
    pub full: char,
}

impl MarchingSquare for RoundCornerMarchingSquare {
    open spec fn glyph(&self, pattern: int) -> char {
        round_glyph(pattern, self.null, self.full)
    }

    fn marching_square(
        &self,
        top_left: bool,
        top_right: bool,
        bottom_left: bool,
        bottom_right: bool,
    ) -> (c: char) {
        let index = pattern_index(top_left, top_right, bottom_left, bottom_right);
        match index {
            0 => self.null,
            1 => ROUND_TOP_LEFT,
            2 => ROUND_TOP_RIGHT,
            3 => HORIZONTAL,
            4 => ROUND_BOTTOM_LEFT,
            5 => VERTICAL,
            6 => DIAG_LEFT_DOWN,
            7 => ROUND_BOTTOM_RIGHT,
            8 => ROUND_BOTTOM_RIGHT,
            9 => DIAG_RIGHT_DOWN,
            10 => VERTICAL,
            11 => ROUND_BOTTOM_LEFT,
            12 => HORIZONTAL,
            13 => ROUND_TOP_RIGHT,
            14 => ROUND_TOP_LEFT,
            _ => self.full,
        }
    }
}

/// The style with right-angled corners; `null` is shown for an empty
/// neighbourhood and `full` for a filled one.
pub struct SharpCornerMarchingSquare {
    pub null: char,
    pub full: char,
}

impl MarchingSquare for SharpCornerMarchingSquare {
    open spec fn glyph(&self, pattern: int) -> char {
        sharp_glyph(pattern, self.null, self.full)
    }

    fn marching_square(
        &self,
        top_left: bool,
        top_right: bool,
        bottom_left: bool,
        bottom_right: bool,
    ) -> (c: char) {
        let index = pattern_index(top_left, top_right, bottom_left, bottom_right);
        match index {
            0 => self.null,
            1 => SHARP_TOP_LEFT,
            2 => SHARP_TOP_RIGHT,
            3 => HORIZONTAL,
            4 => SHARP_BOTTOM_LEFT,
            5 => VERTICAL,
            6 => DIAG_LEFT_DOWN,
            7 => SHARP_BOTTOM_RIGHT,
            8 => SHARP_BOTTOM_RIGHT,
            9 => DIAG_RIGHT_DOWN,
            10 => VERTICAL,
            11 => SHARP_BOTTOM_LEFT,
            12 => HORIZONTAL,
            13 => SHARP_TOP_RIGHT,
            14 => SHARP_TOP_LEFT,
            _ => self.full,
        }
    }
}

/// How many of the four cells of a pattern are set.
pub open spec fn cells_set(pattern: int) -> int {
    pattern % 2 + (pattern / 2) % 2 + (pattern / 4) % 2 + (pattern / 8) % 2
}

/// Every neighbourhood has a pattern from 0 to 15.
pub proof fn lemma_pattern_range(
    top_left: bool,
    top_right: bool,
    bottom_left: bool,
    bottom_right: bool,
)
    ensures
        0 <= pattern_of(top_left, top_right, bottom_left, bottom_right) < 16,
{
}

/// Every number from 0 to 15 is the pattern of the neighbourhood that its
/// four bits spell out, and of that many set cells.
pub proof fn lemma_pattern_bits(p: int)
    requires
        0 <= p < 16,
    ensures
        pattern_of(p % 2 == 1, (p / 2) % 2 == 1, (p / 4) % 2 == 1, (p / 8) % 2 == 1) == p,
        0 <= cells_set(p) <= 4,
{
}

/// The characters, besides the two configurable ones, that a style may show.
pub open spec fn is_line_glyph(c: char) -> bool {
    c == ROUND_TOP_LEFT || c == ROUND_TOP_RIGHT || c == ROUND_BOTTOM_LEFT || c == ROUND_BOTTOM_RIGHT
        || c == SHARP_TOP_LEFT || c == SHARP_TOP_RIGHT || c == SHARP_BOTTOM_LEFT
        || c == SHARP_BOTTOM_RIGHT || c == VERTICAL || c == HORIZONTAL || c == DIAG_LEFT_DOWN
        || c == DIAG_RIGHT_DOWN
}

/// Both tables are total: the empty pattern shows `null`, the full pattern
/// shows `full`, and each of the fourteen patterns between shows a line
/// character.
pub proof fn lemma_tables_total(pattern: int, null: char, full: char)
    requires
        0 <= pattern < 16,
    ensures
        pattern == 0 ==> round_glyph(pattern, null, full) == null && sharp_glyph(pattern, null, full)
            == null,
        pattern == 15 ==> round_glyph(pattern, null, full) == full && sharp_glyph(
            pattern,
            null,
            full,
        ) == full,
        0 < pattern < 15 ==> is_line_glyph(round_glyph(pattern, null, full)) && is_line_glyph(
            sharp_glyph(pattern, null, full),
        ),
{
}

/// The two styles differ only in corners: on every pattern with none, two or
/// four cells set they show the same character, and on every pattern with
/// one or three cells set the round style shows a curved corner where the
/// square style shows the right-angled corner of the same orientation.
pub proof fn lemma_styles_differ_only_in_corners(pattern: int, null: char, full: char)
    requires
        0 <= pattern < 16,
    ensures
        cells_set(pattern) != 1 && cells_set(pattern) != 3 ==> round_glyph(pattern, null, full)
            == sharp_glyph(pattern, null, full),
        cells_set(pattern) == 1 || cells_set(pattern) == 3 ==> {
            let r = round_glyph(pattern, null, full);
            let s = sharp_glyph(pattern, null, full);
            ||| r == ROUND_TOP_LEFT && s == SHARP_TOP_LEFT
            ||| r == ROUND_TOP_RIGHT && s == SHARP_TOP_RIGHT
            ||| r == ROUND_BOTTOM_LEFT && s == SHARP_BOTTOM_LEFT
            ||| r == ROUND_BOTTOM_RIGHT && s == SHARP_BOTTOM_RIGHT
        },
{
}

/// The cell at column `x`, row `y` of a row-major grid of `w` columns and
/// `h` rows; `outside` wherever the position is not on the grid.
pub open spec fn cell_at(image: Seq<bool>, w: int, h: int, x: int, y: int, outside: bool) -> bool {
    if 0 <= x < w && 0 <= y < h {
        image[y * w + x]
    } else {
        outside
    }
}

/// The pattern of the neighbourhood whose top-left cell is at `(x, y)`.
pub open spec fn junction_pattern(
    image: Seq<bool>,
    w: int,
    h: int,
    x: int,
    y: int,
    outside: bool,
) -> int {
    pattern_of(
        cell_at(image, w, h, x, y, outside),
        cell_at(image, w, h, x + 1, y, outside),
        cell_at(image, w, h, x, y + 1, outside),
        cell_at(image, w, h, x + 1, y + 1, outside),
    )
}

/// The characters of the `n` neighbourhoods of row `y` that start at column
/// `x0`, from left to right; nothing when `n` is not positive.
pub open spec fn traced_row<M: MarchingSquare + ?Sized>(
    image: Seq<bool>,
    w: int,
    h: int,
    y: int,
    x0: int,
    n: int,
    outside: bool,
    ms: &M,
) -> Seq<char> {
    Seq::new(
        if n > 0 { n as nat } else { 0 },
        |i: int| ms.glyph(junction_pattern(image, w, h, x0 + i, y, outside)),
    )
}

/// The traced grid of an image of `h` rows and `image.len() / h` columns.
///
/// With a boundary value, every neighbourhood that touches the grid is
/// traced, and cells off the grid read as that value: `h + 1` rows of
/// `w + 1` characters. Without one, only the neighbourhoods that lie on the
/// grid are traced: `h - 1` rows of `w - 1` characters, and nothing where
/// that is not positive.
pub open spec fn traced<M: MarchingSquare + ?Sized>(
    image: Seq<bool>,
    h: int,
    pad: Option<bool>,
    ms: &M,
) -> Seq<Seq<char>> {
    let w = image.len() as int / h;
    match pad {
        Some(outside) => Seq::new(
            (h + 1) as nat,
            |r: int| traced_row(image, w, h, r - 1, -1, w + 1, outside, ms),
        ),
        None => Seq::new(
            if h > 1 { (h - 1) as nat } else { 0 },
            |r: int| traced_row(image, w, h, r, 0, w - 1, false, ms),
        ),
    }
}

/// The size of the traced grid: with a boundary value, one row and one
/// column more than the image; without one, one row and one column fewer,
/// and never fewer than none.
pub proof fn lemma_traced_dimensions<M: MarchingSquare + ?Sized>(
    image: Seq<bool>,
    h: int,
    pad: Option<bool>,
    ms: &M,
)
    requires
        h > 0,
    ensures
        ({
            let w = image.len() as int / h;
            let rows = traced(image, h, pad, ms);
            &&& pad.is_some() ==> rows.len() == h + 1 && forall|r: int|
                0 <= r < rows.len() ==> (#[trigger] rows[r]).len() == w + 1
            &&& pad.is_none() && h >= 2 && w >= 2 ==> rows.len() == h - 1 && forall|r: int|
                0 <= r < rows.len() ==> (#[trigger] rows[r]).len() == w - 1
            &&& pad.is_none() && h < 2 ==> rows.len() == 0
            &&& pad.is_none() && w < 2 ==> forall|r: int|
                0 <= r < rows.len() ==> (#[trigger] rows[r]).len() == 0
        }),
{
    let w = image.len() as int / h;
    assert(w >= 0) by (nonlinear_arith)
        requires
            h > 0,
            w == image.len() as int / h,
    ;
}

/// `std::string::String::push`: the character is appended at the end of the
/// string and the rest is left as it was.
pub assume_specification[ String::push ](s: &mut String, ch: char)
    ensures
        final(s)@ == old(s)@.push(ch),
;

fn grid_cell(image: &[bool], w: usize, h: usize, x: usize, y: usize) -> (b: bool)
    requires
        w * h <= image.len(),
        x < w,
        y < h,
    ensures
        b == image@[y * w + x],
{
    proof {
        lemma_cell_index(w as int, h as int, x as int, y as int);
    }
    image[y * w + x]
}

/// The character for the neighbourhood whose bottom-right cell is at
/// `(col, row)`.
fn junction_glyph<M: MarchingSquare + ?Sized>(
    image: &[bool],
    w: usize,
    h: usize,
    col: usize,
    row: usize,
    outside: bool,
    ms: &M,
) -> (c: char)
    requires
        w * h <= image.len(),
        col <= w,
        row <= h,
    ensures
        c == ms.glyph(junction_pattern(image@, w as int, h as int, col - 1, row - 1, outside)),
{
    let top_left = if col >= 1 && row >= 1 {
        grid_cell(image, w, h, col - 1, row - 1)
    } else {
        outside
    };
    let top_right = if col < w && row >= 1 {
        grid_cell(image, w, h, col, row - 1)
    } else {
        outside
    };
    let bottom_left = if col >= 1 && row < h {
        grid_cell(image, w, h, col - 1, row)
    } else {
        outside
    };
    let bottom_right = if col < w && row < h {
        grid_cell(image, w, h, col, row)
    } else {
        outside
    };
    ms.marching_square(top_left, top_right, bottom_left, bottom_right)
}

/// The characters for the neighbourhoods of one row whose bottom-right cells
/// are at columns `first` to `last`, both included.
fn trace_row<M: MarchingSquare + ?Sized>(
    image: &[bool],
    w: usize,
    h: usize,
    row: usize,
    first: usize,
    last: usize,
    outside: bool,
    ms: &M,
) -> (line: String)
    requires
        w * h <= image.len(),
        row <= h,
        first <= last <= w,
    ensures
        line@ == traced_row(
            image@,
            w as int,
            h as int,
            row - 1,
            first - 1,
            last - first + 1,
            outside,
            ms,
        ),
{
    let mut line = String::new();
    let mut col: usize = first;
    while col < last
        invariant
            w * h <= image.len(),
            row <= h,
            first <= col <= last <= w,
            line@ =~= traced_row(image@, w as int, h as int, row - 1, first - 1, col - first, outside, ms),
        decreases last - col,
    {
        let c = junction_glyph(image, w, h, col, row, outside, ms);
        line.push(c);
        col = col + 1;
        assert(line@ =~= traced_row(
            image@,
            w as int,
            h as int,
            row - 1,
            first - 1,
            col - first,
            outside,
            ms,
        ));
    }
    let c = junction_glyph(image, w, h, last, row, outside, ms);
    line.push(c);
    assert(line@ =~= traced_row(
        image@,
        w as int,
        h as int,
        row - 1,
        first - 1,
        last - first + 1,
        outside,
        ms,
    ));
    line
}

/// Traces a row-major image of `h` rows with marching squares and returns
/// the traced grid, one string per row.
///
/// With `pad` set, its value stands for every cell off the grid, so that the
/// border of the grid is traced too.
pub fn marching_square<M: MarchingSquare + ?Sized>(
    image: &[bool],
    h: usize,
    pad: Option<bool>,
    ms: &M,
) -> (rows: Vec<String>)
    requires
        h > 0,
    ensures
        rows.len() == traced(image@, h as int, pad, ms).len(),
        forall|r: int| 0 <= r < rows.len() ==> rows[r]@ == traced(image@, h as int, pad, ms)[r],
{
    let w = image.len() / h;
    assert(w * h <= image.len()) by (nonlinear_arith)
        requires
            h > 0,
            w == image.len() as int / h as int,
    ;
    let ghost want = traced(image@, h as int, pad, ms);
    let mut ret: Vec<String> = Vec::new();
    match pad {
        Some(outside) => {
            let mut row: usize = 0;
            while row < h
                invariant
                    w * h <= image.len(),
                    row <= h,
                    want == traced(image@, h as int, pad, ms),
                    pad == Some(outside),
                    w == image.len() as int / h as int,
                    ret.len() == row,
                    forall|r: int| 0 <= r < row ==> ret[r]@ == want[r],
                decreases h - row,
            {
                let line = trace_row(image, w, h, row, 0, w, outside, ms);
                ret.push(line);
                row = row + 1;
            }
            let line = trace_row(image, w, h, h, 0, w, outside, ms);
            ret.push(line);
        },
        None => {
            let mut row: usize = 1;
            while row < h
                invariant
                    w * h <= image.len(),
                    1 <= row <= h,
                    want == traced(image@, h as int, pad, ms),
                    pad.is_none(),
                    w == image.len() as int / h as int,
                    ret.len() == row - 1,
                    forall|r: int| 0 <= r < row - 1 ==> ret[r]@ == want[r],
                decreases h - row,
            {
                let line = if w >= 2 {
                    trace_row(image, w, h, row, 1, w - 1, false, ms)
                } else {
                    String::new()
                };
                ret.push(line);
                row = row + 1;
            }
        },
    }
    ret
}

} // verus!
