use lineart::marching::{marching_square, RoundCornerMarchingSquare, SharpCornerMarchingSquare};
use lineart::coverage::{screen, FULL_COVERAGE};
use lineart::glyph::{GlyphRaster, Sample};
use lineart::layout::{
    binarize, char_offset, composite, layout_is_defined, place_char, Placement,
};
use lineart::render::{render_char, render_str};

/// A glyph of the given advance whose bounding box starts at the canvas
/// corner and is filled with `coverage` over `ink_w` by `ink_h` pixels.
fn block(ch: char, width: usize, ink_w: u32, ink_h: u32, coverage: u16) -> GlyphRaster {
    let mut samples = Vec::new();
    for y in 0..ink_h {
        for x in 0..ink_w {
            samples.push(Sample { x, y, coverage });
        }
    }
    GlyphRaster { ch, width, left: 0, top: 0, samples }
}

fn blank(ch: char, width: usize) -> GlyphRaster {
    GlyphRaster { ch, width, left: 0, top: 0, samples: Vec::new() }
}

#[test]
fn screen_blend_exact_values() {
    assert_eq!(screen(32768, 32768), 49152);
    assert_eq!(screen(16384, 49152), 53248);
    assert_eq!(screen(1, 1), 2);
    assert_eq!(screen(65534, 1), 65534);
    assert_eq!(screen(30000, 40000), 51689);
    assert_eq!(screen(100, 200), 300);
}

#[test]
fn screen_blend_extremes() {
    for level in [0u16, 1, 2, 255, 256, 32767, 32768, 65534, 65535] {
        assert_eq!(screen(level, 0), level);
        assert_eq!(screen(0, level), level);
        assert_eq!(screen(level, FULL_COVERAGE), FULL_COVERAGE);
        assert_eq!(screen(FULL_COVERAGE, level), FULL_COVERAGE);
    }
}

#[test]
fn screen_blend_never_loses_ink_and_commutes() {
    let levels = [0u16, 1, 77, 1000, 19660, 32767, 32768, 50000, 65534, 65535];
    for a in levels {
        for b in levels {
            let c = screen(a, b);
            assert!(c >= a && c >= b);
            assert_eq!(c, screen(b, a));
        }
    }
}

#[test]
fn char_offset_exact_values() {
    assert_eq!(char_offset(7, -500), -4);
    assert_eq!(char_offset(5, 100), 1);
    assert_eq!(char_offset(6, 0), 0);
    assert_eq!(char_offset(10, -1000), -10);
    assert_eq!(char_offset(3, 333), 1);
    assert_eq!(char_offset(9, -250), -2);
    assert_eq!(char_offset(10, 250), 3);
    assert_eq!(char_offset(12345, 1500), 18518);
    assert_eq!(char_offset(1, 499), 0);
    assert_eq!(char_offset(1, 500), 1);
    assert_eq!(char_offset(1, -500), -1);
    assert_eq!(char_offset(1, -499), 0);
    assert_eq!(char_offset(0, 2_000_000), 0);
}

#[test]
fn place_char_on_empty_line_starts_at_zero() {
    assert_eq!(place_char(0, 6, 4, 500, Some(10)), Some(Placement { wrap: false, x_offset: 0 }));
    assert_eq!(place_char(0, 6, 4, -1000, None), Some(Placement { wrap: false, x_offset: 0 }));
}

#[test]
fn place_char_wraps_when_the_line_would_reach_the_maximum() {
    // 4 + 5 = 9 < 10 stays, 5 + 5 = 10 wraps
    assert_eq!(place_char(4, 5, 3, 0, Some(10)), Some(Placement { wrap: false, x_offset: 4 }));
    assert_eq!(place_char(5, 5, 3, 0, Some(10)), Some(Placement { wrap: true, x_offset: 0 }));
    assert_eq!(place_char(6, 6, 3, 0, Some(10)), Some(Placement { wrap: true, x_offset: 0 }));
    assert_eq!(place_char(6, 6, 3, 0, None), Some(Placement { wrap: false, x_offset: 6 }));
}

#[test]
fn place_char_applies_the_shift() {
    assert_eq!(place_char(10, 6, 3, -500, None), Some(Placement { wrap: false, x_offset: 7 }));
    assert_eq!(place_char(10, 6, 3, 500, None), Some(Placement { wrap: false, x_offset: 13 }));
    assert_eq!(place_char(10, 6, 3, -1000, Some(80)), Some(Placement { wrap: false, x_offset: 4 }));
}

#[test]
fn place_char_has_no_place_left_of_the_line_start() {
    // a wide glyph pulled left by its own width past a narrow line
    assert_eq!(place_char(3, 10, 3, -1000, None), None);
    assert_eq!(place_char(3, 10, 3, -1000, Some(80)), None);
}

#[test]
fn place_char_has_no_place_beyond_the_addressable_range() {
    assert_eq!(place_char(usize::MAX, 1, 1, 0, None), None);
    assert_eq!(place_char(usize::MAX / 2, 1, 4, 0, None), None);
    assert_eq!(
        place_char(usize::MAX - 1, 1, 0, 0, None),
        Some(Placement { wrap: false, x_offset: usize::MAX - 1 })
    );
}

#[test]
fn render_char_of_blank_glyph_is_all_zero() {
    for width in [0usize, 1, 5, 9] {
        let canvas = render_char(&blank(' ', width), 7);
        assert_eq!(canvas.len(), width * 7);
        assert!(canvas.iter().all(|&v| v == 0));
    }
}

#[test]
fn render_char_places_samples_by_the_bounding_box() {
    let glyph = GlyphRaster {
        ch: 'x',
        width: 4,
        left: 1,
        top: 2,
        samples: vec![
            Sample { x: 0, y: 0, coverage: 10 },
            Sample { x: 1, y: 0, coverage: 20 },
            Sample { x: 0, y: 1, coverage: 30 },
            Sample { x: 1, y: 1, coverage: 40 },
        ],
    };
    let canvas = render_char(&glyph, 4);
    let mut expected = vec![0u16; 16];
    expected[2 * 4 + 1] = 10;
    expected[2 * 4 + 2] = 20;
    expected[3 * 4 + 1] = 30;
    expected[3 * 4 + 2] = 40;
    assert_eq!(canvas, expected);
}

#[test]
fn render_char_drops_samples_off_the_canvas() {
    let glyph = GlyphRaster {
        ch: '_',
        width: 3,
        left: -1,
        top: 1,
        samples: vec![
            Sample { x: 0, y: 0, coverage: 11 }, // x = -1: off
            Sample { x: 1, y: 0, coverage: 22 }, // (0, 1)
            Sample { x: 3, y: 0, coverage: 33 }, // (2, 1)
            Sample { x: 4, y: 0, coverage: 44 }, // x = 3: off
            Sample { x: 1, y: 1, coverage: 55 }, // y = 2: off
            Sample { x: u32::MAX, y: u32::MAX, coverage: 66 },
        ],
    };
    let canvas = render_char(&glyph, 2);
    assert_eq!(canvas, vec![0, 0, 0, 22, 0, 33]);
    let above = GlyphRaster {
        ch: '^',
        width: 2,
        left: 0,
        top: -1,
        samples: vec![Sample { x: 0, y: 0, coverage: 9 }, Sample { x: 1, y: 1, coverage: 8 }],
    };
    assert_eq!(render_char(&above, 2), vec![0, 8, 0, 0]);
}

#[test]
fn render_char_last_sample_on_a_cell_wins() {
    let glyph = GlyphRaster {
        ch: 'o',
        width: 2,
        left: 0,
        top: 0,
        samples: vec![
            Sample { x: 1, y: 0, coverage: 5 },
            Sample { x: 1, y: 0, coverage: 7 },
            Sample { x: 1, y: 0, coverage: 6 },
        ],
    };
    assert_eq!(render_char(&glyph, 1), vec![0, 6]);
}

#[test]
fn composite_grows_the_line_and_blends_the_overlap() {
    // a line of two columns, height two
    let mut line: Vec<Vec<u16>> = vec![vec![32768, 0], vec![0, 32768]];
    // glyph of two columns, row-major: row 0 = [32768, 1], row 1 = [65535, 100]
    let glyph: Vec<u16> = vec![32768, 1, 65535, 100];
    composite(&mut line, 1, &glyph, 2, 2);
    assert_eq!(line, vec![vec![32768, 0], vec![32768, 65535], vec![1, 100]]);
    // laid over once more at column 0: column 0 blends with the glyph's first column
    composite(&mut line, 1, &glyph, 2, 2);
    assert_eq!(line[1], vec![49152, 65535]);
    assert_eq!(line[2], vec![2, 200]);
}

#[test]
fn composite_leaves_a_gap_without_ink() {
    let mut line: Vec<Vec<u16>> = vec![vec![7]];
    composite(&mut line, 3, &vec![9, 8], 2, 1);
    assert_eq!(line, vec![vec![7], vec![0], vec![0], vec![9], vec![8]]);
}

#[test]
fn binarize_is_row_major_and_strict() {
    // columns: x = 0 -> [10, 20], x = 1 -> [30, 40], x = 2 -> [20, 21]
    let line: Vec<Vec<u16>> = vec![vec![10, 20], vec![30, 40], vec![20, 21]];
    let image = binarize(&line, 2, 20);
    assert_eq!(image, vec![false, true, false, false, true, true]);
}

#[test]
fn binarize_threshold_boundary() {
    let line: Vec<Vec<u16>> = vec![vec![19660], vec![19661], vec![19659]];
    assert_eq!(binarize(&line, 1, 19660), vec![false, true, false]);
    let line: Vec<Vec<u16>> = vec![vec![0], vec![65535]];
    assert_eq!(binarize(&line, 1, 0), vec![false, true]);
    assert_eq!(binarize(&line, 1, 65535), vec![false, false]);
}

#[test]
fn render_str_wraps_two_wide_glyphs_onto_two_lines() {
    let glyphs = vec![block('a', 6, 6, 3, FULL_COVERAGE), block('b', 6, 3, 3, FULL_COVERAGE)];
    assert!(layout_is_defined(&glyphs, 3, 0, Some(10)));
    let lines = render_str(&glyphs, 3, 0, 19660, Some(10)).unwrap();
    assert_eq!(lines.len(), 2);
    assert_eq!(lines[0], vec![true; 18]);
    let half = [true, true, true, false, false, false];
    let mut second = Vec::new();
    for _ in 0..3 {
        second.extend_from_slice(&half);
    }
    assert_eq!(lines[1], second);
}

#[test]
fn render_str_fits_two_glyphs_on_one_line() {
    let glyphs = vec![block('a', 4, 4, 2, FULL_COVERAGE), block('b', 5, 1, 2, FULL_COVERAGE)];
    assert!(layout_is_defined(&glyphs, 2, 0, Some(10)));
    let lines = render_str(&glyphs, 2, 0, 19660, Some(10)).unwrap();
    assert_eq!(lines.len(), 1);
    let row = [true, true, true, true, true, false, false, false, false];
    let mut expected = Vec::new();
    expected.extend_from_slice(&row);
    expected.extend_from_slice(&row);
    assert_eq!(lines[0], expected);
}

#[test]
fn render_str_fails_on_a_glyph_as_wide_as_the_maximum() {
    let glyphs = vec![block('W', 5, 5, 2, FULL_COVERAGE)];
    assert!(layout_is_defined(&glyphs, 2, 0, Some(5)));
    assert_eq!(render_str(&glyphs, 2, 0, 19660, Some(5)), Err('W'));
}

#[test]
fn render_str_fails_with_the_first_glyph_that_is_too_wide() {
    let glyphs = vec![
        block('a', 3, 3, 2, FULL_COVERAGE),
        block('M', 8, 8, 2, FULL_COVERAGE),
        block('W', 9, 9, 2, FULL_COVERAGE),
    ];
    assert!(layout_is_defined(&glyphs, 2, 0, Some(8)));
    assert_eq!(render_str(&glyphs, 2, 0, 19660, Some(8)), Err('M'));
    assert_eq!(render_str(&glyphs, 2, 0, 19660, Some(9)), Err('W'));
    assert!(render_str(&glyphs, 2, 0, 19660, None).is_ok());
}

#[test]
fn render_str_full_overlap_retraces_full_pattern() {
    let w = 5usize;
    let h = 4usize;
    let glyphs = vec![
        block('#', w, w as u32, h as u32, FULL_COVERAGE),
        block('#', w, w as u32, h as u32, FULL_COVERAGE),
    ];
    assert!(layout_is_defined(&glyphs, h, -1000, Some(80)));
    let lines = render_str(&glyphs, h, -1000, 19660, Some(80)).unwrap();
    assert_eq!(lines.len(), 1);
    assert_eq!(lines[0], vec![true; w * h]);
    let ms = RoundCornerMarchingSquare { null: ' ', full: '\u{2588}' };
    let rows = marching_square(&lines[0], h, None, &ms);
    assert_eq!(rows.len(), h - 1);
    for row in rows {
        assert_eq!(row, "\u{2588}".repeat(w - 1));
    }
}

#[test]
fn render_str_half_overlap_blends_partial_coverage() {
    // two glyphs of width 4 at half ink, the second pulled left by 2
    let glyphs = vec![block('a', 4, 4, 1, 32768), block('b', 4, 4, 1, 32768)];
    assert!(layout_is_defined(&glyphs, 1, -500, None));
    // threshold between one layer (32768) and two layers (49152)
    let lines = render_str(&glyphs, 1, -500, 40000, None).unwrap();
    assert_eq!(lines, vec![vec![false, false, true, true, false, false]]);
    // threshold below one layer
    let lines = render_str(&glyphs, 1, -500, 32767, None).unwrap();
    assert_eq!(lines, vec![vec![true; 6]]);
    // a pixel exactly at the threshold is background
    let lines = render_str(&glyphs, 1, -500, 49152, None).unwrap();
    assert_eq!(lines, vec![vec![false; 6]]);
    let lines = render_str(&glyphs, 1, -500, 49151, None).unwrap();
    assert_eq!(lines, vec![vec![false, false, true, true, false, false]]);
}

#[test]
fn render_str_positive_offset_spreads_glyphs() {
    let glyphs = vec![block('a', 2, 2, 1, FULL_COVERAGE), block('b', 2, 2, 1, FULL_COVERAGE)];
    let lines = render_str(&glyphs, 1, 1000, 0, None).unwrap();
    assert_eq!(lines, vec![vec![true, true, false, false, true, true]]);
}

#[test]
fn render_str_blank_glyph_advances_the_line() {
    for offset in [-1000, -500, 0, 250] {
        let glyphs = vec![blank(' ', 3)];
        let lines = render_str(&glyphs, 2, offset, 19660, Some(80)).unwrap();
        assert_eq!(lines, vec![vec![false; 6]]);
    }
    let glyphs = vec![
        block('a', 2, 2, 1, FULL_COVERAGE),
        blank(' ', 3),
        block('b', 1, 1, 1, FULL_COVERAGE),
    ];
    let lines = render_str(&glyphs, 1, 0, 19660, None).unwrap();
    assert_eq!(lines, vec![vec![true, true, false, false, false, true]]);
}

#[test]
fn render_str_of_no_glyphs_has_no_lines() {
    let glyphs: Vec<GlyphRaster> = Vec::new();
    assert!(layout_is_defined(&glyphs, 3, 0, Some(10)));
    assert_eq!(render_str(&glyphs, 3, 0, 19660, Some(10)), Ok(Vec::new()));
}

#[test]
fn render_str_wraps_repeatedly_in_text_order() {
    let glyphs = vec![
        block('a', 3, 1, 1, FULL_COVERAGE),
        block('b', 3, 2, 1, FULL_COVERAGE),
        block('c', 3, 3, 1, FULL_COVERAGE),
        block('d', 3, 1, 1, FULL_COVERAGE),
        block('e', 3, 2, 1, FULL_COVERAGE),
    ];
    // two glyphs make 6 < 7, a third would make 9 >= 7
    let lines = render_str(&glyphs, 1, 0, 0, Some(7)).unwrap();
    assert_eq!(
        lines,
        vec![
            vec![true, false, false, true, true, false],
            vec![true, true, true, true, false, false],
            vec![true, true, false],
        ]
    );
    for line in &lines {
        assert!(line.len() < 7);
    }
}

#[test]
fn layout_is_defined_rejects_a_glyph_pulled_left_of_the_line() {
    let glyphs = vec![block('i', 3, 3, 1, FULL_COVERAGE), block('W', 10, 10, 1, FULL_COVERAGE)];
    assert!(!layout_is_defined(&glyphs, 1, -1000, None));
    assert!(layout_is_defined(&glyphs, 1, -300, None));
    // nothing is asked of glyphs after one that is too wide
    assert!(layout_is_defined(&glyphs, 1, -1000, Some(3)));
}

#[test]
fn rendered_lines_trace_to_outlines() {
    let glyphs = vec![GlyphRaster {
        ch: 'o',
        width: 3,
        left: 1,
        top: 1,
        samples: vec![Sample { x: 0, y: 0, coverage: FULL_COVERAGE }],
    }];
    let lines = render_str(&glyphs, 3, 0, 19660, Some(80)).unwrap();
    assert_eq!(lines.len(), 1);
    let ms = SharpCornerMarchingSquare { null: ' ', full: ' ' };
    let rows = marching_square(&lines[0], 3, None, &ms);
    assert_eq!(rows, vec!["\u{250C}\u{2510}".to_string(), "\u{2514}\u{2518}".to_string()]);
}
