use std::time::Duration;

use three_rs::info::{BuildCounts, ComputeCounts, Info, MemoryCounts, RenderCounts};
use three_rs::text::decimal_text;
use three_rs::strip::{
    blit, draw_text, glyph, gutter, FrameBound, NotSteady, Strip, StripFrame,
    ADVANCE, BACKGROUND, BUILT, GLYPH_HEIGHT, GLYPH_WIDTH, GUTTER, LABEL, LINE, PAD, SCALE, TEXT,
};

#[test]
fn a_glyph_fits_its_cell() {
    const { assert!(GLYPH_WIDTH * SCALE < ADVANCE) };
    for row in glyph('W') {
        assert_eq!(row & !0b111, 0, "a glyph row is three bits wide");
    }
}

#[test]
fn the_gutter_holds_its_three_lines() {
    assert_eq!(GUTTER, PAD * 2 + LINE * 3);
    const { assert!(GUTTER > GLYPH_HEIGHT * SCALE * 3) };
}

#[test]
fn an_unknown_character_is_a_question_mark() {
    assert_eq!(glyph('~'), glyph('\u{1f600}'));
    assert_ne!(glyph('~'), glyph(' '));
    assert_eq!(glyph('a'), glyph('A'));
}

#[test]
fn every_glyph_row_is_three_bits() {
    for c in (0u8..128).map(char::from) {
        for row in glyph(c) {
            assert!(row < 8);
        }
    }
    assert_eq!(glyph('A'), [0b111, 0b101, 0b111, 0b101, 0b101]);
    assert_eq!(glyph('?'), [0b111, 0b001, 0b011, 0b000, 0b010]);
}

#[test]
fn numbers_are_written_in_decimal() {
    assert_eq!(decimal_text(0), "0");
    assert_eq!(decimal_text(7), "7");
    assert_eq!(decimal_text(10), "10");
    assert_eq!(decimal_text(1234567890), "1234567890");
    assert_eq!(decimal_text(u64::MAX), u64::MAX.to_string());
}

fn pixel(canvas: &[u8], width: u32, x: u32, y: u32) -> [u8; 4] {
    let at = ((y * width + x) * 4) as usize;
    [canvas[at], canvas[at + 1], canvas[at + 2], canvas[at + 3]]
}

#[test]
fn text_is_drawn_in_scaled_blocks() {
    let width = 20;
    let mut canvas = vec![0u8; (width * 12 * 4) as usize];
    draw_text(&mut canvas, width, 1, 1, "1", [9, 9, 9, 9]);
    // '1' is 010 / 110 / 010 / 010 / 111: the top row lights the middle
    // column, a 2x2 block at x = 1 + 2, y = 1.
    assert_eq!(pixel(&canvas, width, 3, 1), [9, 9, 9, 9]);
    assert_eq!(pixel(&canvas, width, 4, 2), [9, 9, 9, 9]);
    assert_eq!(pixel(&canvas, width, 1, 1), [0, 0, 0, 0]);
    assert_eq!(pixel(&canvas, width, 5, 1), [0, 0, 0, 0]);
    // The bottom row is all three columns.
    assert_eq!(pixel(&canvas, width, 1, 9), [9, 9, 9, 9]);
    assert_eq!(pixel(&canvas, width, 6, 10), [9, 9, 9, 9]);
    let lit = canvas.chunks(4).filter(|p| p == &[9, 9, 9, 9]).count();
    assert_eq!(lit, 8 * 4);
}

#[test]
fn text_past_the_edge_is_clipped() {
    let width = 4;
    let mut canvas = vec![0u8; (width * 12 * 4) as usize];
    draw_text(&mut canvas, width, 0, 0, "W", [1, 2, 3, 4]);
    // Column 2 of 'W' lands at x = 4 and 5, off a four-pixel-wide canvas:
    // nothing wraps into the next row.
    assert_eq!(pixel(&canvas, width, 0, 0), [1, 2, 3, 4]);
    assert_eq!(pixel(&canvas, width, 2, 0), [0, 0, 0, 0]);
    assert_eq!(pixel(&canvas, width, 0, 1), [1, 2, 3, 4]);
}

fn info(calls: u64, programs: u64, textures: u64) -> Info {
    Info {
        auto_reset: false,
        render: RenderCounts {
            calls,
            triangles: 12,
            points: 0,
            lines: 0,
        },
        build: BuildCounts {
            programs_compiled: programs,
            pipelines_built: 0,
            geometries_uploaded: 0,
            buffers_written: 0,
            textures_uploaded: textures,
            buffers_created: 0,
            views_created: 0,
            samplers_created: 0,
            bind_groups_created: 0,
        },
        memory: MemoryCounts {
            geometries: 0,
            textures: 0,
            programs: 0,
        },
        compute: ComputeCounts { calls: 0 },
    }
}

fn frame(label: &str, width: u32, height: u32, fill: u8, info: Info, millis: u64) -> StripFrame {
    StripFrame {
        label: label.to_string(),
        width,
        height,
        pixels: vec![fill; (width * height * 4) as usize],
        info,
        time: Duration::from_millis(millis),
    }
}

#[test]
fn a_frame_is_copied_pixel_for_pixel() {
    let width = 5;
    let mut canvas = vec![0u8; (width * 4 * 4) as usize];
    let mut small = frame("", 2, 2, 0, info(0, 0, 0), 0);
    small.pixels = (1..=16).collect();
    blit(&mut canvas, width, 1, 1, &small);
    assert_eq!(pixel(&canvas, width, 1, 1), [1, 2, 3, 4]);
    assert_eq!(pixel(&canvas, width, 2, 1), [5, 6, 7, 8]);
    assert_eq!(pixel(&canvas, width, 1, 2), [9, 10, 11, 12]);
    assert_eq!(pixel(&canvas, width, 2, 2), [13, 14, 15, 16]);
    assert_eq!(pixel(&canvas, width, 0, 1), [0, 0, 0, 0]);
    assert_eq!(pixel(&canvas, width, 3, 2), [0, 0, 0, 0]);
}

#[test]
fn the_strip_tiles_frames_left_to_right_over_their_gutters() {
    let strip = Strip {
        frames: vec![
            frame("", 40, 10, 50, info(1, 0, 0), 3),
            frame("step", 30, 20, 60, info(2, 1, 0), 4),
        ],
    };
    let (width, height, canvas) = strip.canvas();
    assert_eq!((width, height), (70, 20 + GUTTER));
    assert_eq!(canvas.len(), (width * height * 4) as usize);
    assert_eq!(pixel(&canvas, width, 0, 0), [50, 50, 50, 50]);
    assert_eq!(pixel(&canvas, width, 39, 9), [50, 50, 50, 50]);
    // Under the shorter frame, and right of everything, is background.
    assert_eq!(pixel(&canvas, width, 0, 15), BACKGROUND);
    assert_eq!(pixel(&canvas, width, 40, 0), [60, 60, 60, 60]);
    assert_eq!(pixel(&canvas, width, 69, 19), [60, 60, 60, 60]);
    // The gutter's first line starts with '#', whose top row is 101: lit at
    // the cell's first column.
    assert_eq!(pixel(&canvas, width, PAD, 20 + PAD), LABEL);
    assert_eq!(pixel(&canvas, width, PAD + 2, 20 + PAD), BACKGROUND);
    // The first frame built nothing: its build line is in the text colour;
    // the second built a program: the warning colour. 'P' tops the line.
    assert_eq!(pixel(&canvas, width, PAD, 20 + PAD + 2 * LINE), TEXT);
    assert_eq!(pixel(&canvas, width, 40 + PAD, 20 + PAD + 2 * LINE), BUILT);
}

#[test]
fn frame_times_are_kept_but_not_drawn() {
    let fast = Strip {
        frames: vec![frame("a", 8, 8, 1, info(1, 0, 0), 1)],
    };
    let slow = Strip {
        frames: vec![frame("a", 8, 8, 1, info(1, 0, 0), 900)],
    };
    assert_eq!(fast.times(), vec![Duration::from_millis(1)]);
    assert_eq!(slow.times(), vec![Duration::from_millis(900)]);
    assert_eq!(fast.canvas(), slow.canvas());
}

#[test]
fn a_gutter_cuts_its_lines_to_the_cell() {
    let width = 12;
    let mut canvas = vec![0u8; (width * GUTTER * 4) as usize];
    let long = frame("a long label", 12, 1, 0, info(123, 0, 0), 0);
    gutter(&mut canvas, width, 0, 0, 12, 0, &long);
    // Twelve pixels hold (12 - 8) / 8 = 0 characters: nothing is drawn.
    assert!(canvas.iter().all(|&b| b == 0));
    let mut canvas = vec![0u8; (24 * GUTTER * 4) as usize];
    gutter(&mut canvas, 24, 0, 0, 24, 0, &long);
    // Twenty-four pixels hold two characters; the third cell stays empty.
    assert_eq!(pixel(&canvas, 24, PAD, PAD), LABEL);
    assert!((0..GUTTER).all(|y| (PAD + 2 * ADVANCE..24).all(|x| pixel(&canvas, 24, x, y) == [0, 0, 0, 0])));
}

#[test]
fn steady_frames_build_nothing_but_their_uploads() {
    let strip = Strip {
        frames: vec![
            frame("", 4, 4, 0, info(1, 3, 1), 0),
            frame("", 4, 4, 0, info(1, 0, 0), 0),
            frame("", 4, 4, 0, info(1, 0, 2), 0),
            frame("", 4, 4, 0, info(1, 1, 2), 0),
        ],
    };
    assert_eq!(strip.assert_steady(FrameBound::Included(1), FrameBound::Excluded(2)), Ok(()));
    assert_eq!(
        strip.assert_steady(FrameBound::Included(1), FrameBound::Unbounded),
        Err(NotSteady::Built { index: 2 })
    );
    assert_eq!(
        strip.assert_steady(FrameBound::Unbounded, FrameBound::Unbounded),
        Err(NotSteady::Built { index: 0 })
    );
    assert_eq!(
        strip.assert_steady_uploading(FrameBound::Included(2), FrameBound::Included(2), 2),
        Ok(())
    );
    assert_eq!(
        strip.assert_steady_uploading(FrameBound::Excluded(1), FrameBound::Unbounded, 2),
        Err(NotSteady::Built { index: 3 })
    );
    assert_eq!(
        strip.assert_steady(FrameBound::Included(1), FrameBound::Included(4)),
        Err(NotSteady::PastTheEnd { frames: 4, end: 5 })
    );
}

fn decode(png: &[u8]) -> (u32, u32, Vec<u8>) {
    let decoder = png::Decoder::new(std::io::Cursor::new(png));
    let mut reader = decoder.read_info().unwrap();
    let mut pixels = vec![0; reader.output_buffer_size().unwrap()];
    let info = reader.next_frame(&mut pixels).unwrap();
    pixels.truncate(info.buffer_size());
    (info.width, info.height, pixels)
}

#[test]
fn the_strip_png_holds_its_canvas() {
    let strip = Strip {
        frames: vec![frame("a", 8, 4, 50, info(1, 0, 0), 3), frame("b", 6, 9, 60, info(2, 1, 0), 4)],
    };
    let (width, height, canvas) = strip.canvas();
    let png = strip.png().unwrap();
    assert_eq!(decode(&png), (width, height, canvas));

    let slow = Strip {
        frames: vec![frame("a", 8, 4, 50, info(1, 0, 0), 300), frame("b", 6, 9, 60, info(2, 1, 0), 400)],
    };
    assert_eq!(slow.png().unwrap(), png, "the file does not depend on the frame times");

    let empty = Strip { frames: vec![frame("a", 0, 4, 50, info(1, 0, 0), 3)] };
    assert_eq!(empty.png(), None);
}
