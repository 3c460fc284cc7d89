//! A film strip: one frame and one set of counts per step of a run, tiled
//! into one image with the counts written under each frame, so that
//! redundant work shows up beside the picture. Rendering the frames is the
//! renderer's; composing the strip and checking that its frames are steady
//! is here.

use vstd::arithmetic::div_mod::lemma_fundamental_div_mod_converse;
use vstd::prelude::*;

use crate::encoding::{encode_rgba_png, png_rgba8_of};
use crate::info::{build_total, BuildCounts, Info, RenderCounts};
use crate::text::{decimal, decimal_text, literal, shows};

verus! {

/// One render: its label, what it drew, and what it cost.
pub struct StripFrame {
    /// The step that produced it; the first frame, rendered before any step,
    /// carries `""`.
    pub label: String,
    pub width: u32,
    pub height: u32,
    /// The frame's RGBA8 pixels, rows top-down.
    pub pixels: Vec<u8>,
    /// The counts for this frame alone.
    pub info: Info,
    /// How long the frame took. Not drawn: it is not deterministic.
    pub time: std::time::Duration,
}

/// The frames of a run, in order.
pub struct Strip {
    pub frames: Vec<StripFrame>,
}

/// The rows of a 3x5 glyph, top to bottom, each in the low three bits with
/// the leftmost pixel the high bit. Lower-case letters are their upper-case
/// glyphs, and a character the font does not have is a question mark.
pub open spec fn font(character: char) -> Seq<u8> {
    match ascii_upper(character) {
        ' ' => seq![0b000, 0b000, 0b000, 0b000, 0b000],
        'A' => seq![0b111, 0b101, 0b111, 0b101, 0b101],
        'B' => seq![0b110, 0b101, 0b110, 0b101, 0b110],
        'C' => seq![0b111, 0b100, 0b100, 0b100, 0b111],
        'D' => seq![0b110, 0b101, 0b101, 0b101, 0b110],
        'E' => seq![0b111, 0b100, 0b110, 0b100, 0b111],
        'F' => seq![0b111, 0b100, 0b110, 0b100, 0b100],
        'G' => seq![0b111, 0b100, 0b101, 0b101, 0b111],
        'H' => seq![0b101, 0b101, 0b111, 0b101, 0b101],
        'I' => seq![0b111, 0b010, 0b010, 0b010, 0b111],
        'J' => seq![0b001, 0b001, 0b001, 0b101, 0b111],
        'K' => seq![0b101, 0b101, 0b110, 0b101, 0b101],
        'L' => seq![0b100, 0b100, 0b100, 0b100, 0b111],
        'M' => seq![0b111, 0b111, 0b101, 0b101, 0b101],
        'N' => seq![0b110, 0b101, 0b101, 0b101, 0b101],
        'O' => seq![0b111, 0b101, 0b101, 0b101, 0b111],
        'P' => seq![0b111, 0b101, 0b111, 0b100, 0b100],
        'Q' => seq![0b111, 0b101, 0b101, 0b111, 0b011],
        'R' => seq![0b111, 0b101, 0b111, 0b110, 0b101],
        'S' => seq![0b111, 0b100, 0b111, 0b001, 0b111],
        'T' => seq![0b111, 0b010, 0b010, 0b010, 0b010],
        'U' => seq![0b101, 0b101, 0b101, 0b101, 0b111],
        'V' => seq![0b101, 0b101, 0b101, 0b101, 0b010],
        'W' => seq![0b101, 0b101, 0b101, 0b111, 0b111],
        'X' => seq![0b101, 0b101, 0b010, 0b101, 0b101],
        'Y' => seq![0b101, 0b101, 0b010, 0b010, 0b010],
        'Z' => seq![0b111, 0b001, 0b010, 0b100, 0b111],
        '0' => seq![0b111, 0b101, 0b101, 0b101, 0b111],
        '1' => seq![0b010, 0b110, 0b010, 0b010, 0b111],
        '2' => seq![0b111, 0b001, 0b111, 0b100, 0b111],
        '3' => seq![0b111, 0b001, 0b111, 0b001, 0b111],
        '4' => seq![0b101, 0b101, 0b111, 0b001, 0b001],
        '5' => seq![0b111, 0b100, 0b111, 0b001, 0b111],
        '6' => seq![0b111, 0b100, 0b111, 0b101, 0b111],
        '7' => seq![0b111, 0b001, 0b001, 0b001, 0b001],
        '8' => seq![0b111, 0b101, 0b111, 0b101, 0b111],
        '9' => seq![0b111, 0b101, 0b111, 0b001, 0b111],
        '#' => seq![0b101, 0b111, 0b101, 0b111, 0b101],
        '.' => seq![0b000, 0b000, 0b000, 0b000, 0b010],
        ',' => seq![0b000, 0b000, 0b000, 0b010, 0b100],
        ':' => seq![0b000, 0b010, 0b000, 0b010, 0b000],
        '-' => seq![0b000, 0b000, 0b111, 0b000, 0b000],
        '+' => seq![0b000, 0b010, 0b111, 0b010, 0b000],
        '=' => seq![0b000, 0b111, 0b000, 0b111, 0b000],
        '/' => seq![0b001, 0b001, 0b010, 0b100, 0b100],
        '(' => seq![0b001, 0b010, 0b010, 0b010, 0b001],
        ')' => seq![0b100, 0b010, 0b010, 0b010, 0b100],
        _ => seq![0b111, 0b001, 0b011, 0b000, 0b010],
    }
}

/// `c` with an ASCII lower-case letter made upper-case.
pub open spec fn ascii_upper(c: char) -> char {
    if 'a' <= c && c <= 'z' {
        ((c as u32) - 32) as char
    } else {
        c
    }
}

/// The glyph of `character`: five rows of three bits, upper-cased on the
/// way in, a question mark for anything the font lacks.
pub fn glyph(character: char) -> (rows: [u8; 5])
    ensures
        rows@ == font(character),
{
    match character {
        ' ' => [0b000, 0b000, 0b000, 0b000, 0b000],
        'A' | 'a' => [0b111, 0b101, 0b111, 0b101, 0b101],
        'B' | 'b' => [0b110, 0b101, 0b110, 0b101, 0b110],
        'C' | 'c' => [0b111, 0b100, 0b100, 0b100, 0b111],
        'D' | 'd' => [0b110, 0b101, 0b101, 0b101, 0b110],
        'E' | 'e' => [0b111, 0b100, 0b110, 0b100, 0b111],
        'F' | 'f' => [0b111, 0b100, 0b110, 0b100, 0b100],
        'G' | 'g' => [0b111, 0b100, 0b101, 0b101, 0b111],
        'H' | 'h' => [0b101, 0b101, 0b111, 0b101, 0b101],
        'I' | 'i' => [0b111, 0b010, 0b010, 0b010, 0b111],
        'J' | 'j' => [0b001, 0b001, 0b001, 0b101, 0b111],
        'K' | 'k' => [0b101, 0b101, 0b110, 0b101, 0b101],
        'L' | 'l' => [0b100, 0b100, 0b100, 0b100, 0b111],
        'M' | 'm' => [0b111, 0b111, 0b101, 0b101, 0b101],
        'N' | 'n' => [0b110, 0b101, 0b101, 0b101, 0b101],
        'O' | 'o' => [0b111, 0b101, 0b101, 0b101, 0b111],
        'P' | 'p' => [0b111, 0b101, 0b111, 0b100, 0b100],
        'Q' | 'q' => [0b111, 0b101, 0b101, 0b111, 0b011],
        'R' | 'r' => [0b111, 0b101, 0b111, 0b110, 0b101],
        'S' | 's' => [0b111, 0b100, 0b111, 0b001, 0b111],
        'T' | 't' => [0b111, 0b010, 0b010, 0b010, 0b010],
        'U' | 'u' => [0b101, 0b101, 0b101, 0b101, 0b111],
        'V' | 'v' => [0b101, 0b101, 0b101, 0b101, 0b010],
        'W' | 'w' => [0b101, 0b101, 0b101, 0b111, 0b111],
        'X' | 'x' => [0b101, 0b101, 0b010, 0b101, 0b101],
        'Y' | 'y' => [0b101, 0b101, 0b010, 0b010, 0b010],
        'Z' | 'z' => [0b111, 0b001, 0b010, 0b100, 0b111],
        '0' => [0b111, 0b101, 0b101, 0b101, 0b111],
        '1' => [0b010, 0b110, 0b010, 0b010, 0b111],
        '2' => [0b111, 0b001, 0b111, 0b100, 0b111],
        '3' => [0b111, 0b001, 0b111, 0b001, 0b111],
        '4' => [0b101, 0b101, 0b111, 0b001, 0b001],
        '5' => [0b111, 0b100, 0b111, 0b001, 0b111],
        '6' => [0b111, 0b100, 0b111, 0b101, 0b111],
        '7' => [0b111, 0b001, 0b001, 0b001, 0b001],
        '8' => [0b111, 0b101, 0b111, 0b101, 0b111],
        '9' => [0b111, 0b101, 0b111, 0b001, 0b111],
        '#' => [0b101, 0b111, 0b101, 0b111, 0b101],
        '.' => [0b000, 0b000, 0b000, 0b000, 0b010],
        ',' => [0b000, 0b000, 0b000, 0b010, 0b100],
        ':' => [0b000, 0b010, 0b000, 0b010, 0b000],
        '-' => [0b000, 0b000, 0b111, 0b000, 0b000],
        '+' => [0b000, 0b010, 0b111, 0b010, 0b000],
        '=' => [0b000, 0b111, 0b000, 0b111, 0b000],
        '/' => [0b001, 0b001, 0b010, 0b100, 0b100],
        '(' => [0b001, 0b010, 0b010, 0b010, 0b001],
        ')' => [0b100, 0b010, 0b010, 0b010, 0b100],
        _ => [0b111, 0b001, 0b011, 0b000, 0b010],
    }
}

/// Pixel padding around the gutter's text.
pub const PAD: u32 = 4;
/// Every glyph pixel is a `SCALE` x `SCALE` block, so the text stays exact.
pub const SCALE: u32 = 2;
pub const GLYPH_WIDTH: u32 = 3;
pub const GLYPH_HEIGHT: u32 = 5;
/// One line of gutter text.
pub const LINE: u32 = GLYPH_HEIGHT * SCALE + 4;
/// One character cell: the glyph plus a one-pixel gap, scaled.
pub const ADVANCE: u32 = (GLYPH_WIDTH + 1) * SCALE;
/// The gutter under every frame: three lines of scaled text.
pub const GUTTER: u32 = PAD * 2 + LINE * 3;

/// Bit `k` (0 the lowest) of a glyph row.
pub open spec fn row_bit(bits: u8, k: int) -> bool {
    if k == 0 {
        bits % 2 == 1
    } else if k == 1 {
        (bits / 2) % 2 == 1
    } else {
        (bits / 4) % 2 == 1
    }
}

/// Whether pixel (`column`, `row`) of `character`'s glyph is set; the
/// leftmost column is the row's high bit.
pub open spec fn glyph_lit(character: char, column: int, row: int) -> bool {
    &&& 0 <= column < 3
    &&& 0 <= row < 5
    &&& row_bit(font(character)[row], 2 - column)
}

/// Whether `text` drawn at (`x`, `y`) covers pixel (`px`, `py`): the pixel
/// falls in a lit glyph pixel's scaled block of some character's cell.
pub open spec fn covers(text: Seq<char>, x: int, y: int, px: int, py: int) -> bool {
    &&& px >= x
    &&& py >= y
    &&& (px - x) / 8 < text.len()
    &&& glyph_lit(text[(px - x) / 8], ((px - x) % 8) / 2, (py - y) / 2)
}

/// `canvas`, an RGBA8 image `width` pixels wide, with every whole pixel for
/// which `painted` holds set to `colour`.
pub open spec fn paint(canvas: Seq<u8>, width: int, colour: Seq<u8>, painted: spec_fn(int, int) -> bool) -> Seq<u8> {
    Seq::new(
        canvas.len(),
        |b: int|
            if width > 0 && (b / 4) * 4 + 4 <= canvas.len() && painted((b / 4) % width, (b / 4) / width) {
                colour[b % 4]
            } else {
                canvas[b]
            },
    )
}

/// `canvas` with `text` drawn at (`x`, `y`) in `colour`. Pixels past the
/// canvas's right edge or its end are not drawn.
pub open spec fn text_drawn(canvas: Seq<u8>, width: int, x: int, y: int, text: Seq<char>, colour: Seq<u8>) -> Seq<u8> {
    paint(canvas, width, colour, |px: int, py: int| covers(text, x, y, px, py))
}

/// The lexicographic order of the draw loop over (character, row, column,
/// sub-row, sub-column).
pub open spec fn lex_before(a: (int, int, int, int, int), b: (int, int, int, int, int)) -> bool {
    a.0 < b.0 || (a.0 == b.0 && (a.1 < b.1 || (a.1 == b.1 && (a.2 < b.2 || (a.2 == b.2 && (a.3 < b.3
        || (a.3 == b.3 && a.4 < b.4)))))))
}

/// Where pixel (`px`, `py`) sits relative to text drawn at (`x`, `y`):
/// (character, row, column, sub-row, sub-column).
pub open spec fn place(x: int, y: int, px: int, py: int) -> (int, int, int, int, int) {
    ((px - x) / 8, (py - y) / 2, ((px - x) % 8) / 2, (py - y) % 2, (px - x) % 2)
}

/// The text drawn so far when the loop stands at `at`.
pub open spec fn drawn_until(
    canvas: Seq<u8>,
    width: int,
    x: int,
    y: int,
    text: Seq<char>,
    colour: Seq<u8>,
    at: (int, int, int, int, int),
) -> Seq<u8> {
    paint(canvas, width, colour, |px: int, py: int| covers(text, x, y, px, py) && lex_before(place(x, y, px, py), at))
}

/// The canvas position of the pixel at `place` of text drawn at (`x`, `y`).
proof fn place_of_position(x: int, y: int, i: int, r: int, c: int, dy: int, dx: int)
    requires
        i >= 0, 0 <= r, 0 <= c < 4, 0 <= dy < 2, 0 <= dx < 2,
    ensures
        place(x, y, x + i * 8 + c * 2 + dx, y + r * 2 + dy) == (i, r, c, dy, dx),
{
    lemma_fundamental_div_mod_converse(i * 8 + c * 2 + dx, 8, i, c * 2 + dx);
    lemma_fundamental_div_mod_converse(c * 2 + dx, 2, c, dx);
    lemma_fundamental_div_mod_converse(i * 8 + c * 2 + dx, 2, i * 4 + c, dx);
    lemma_fundamental_div_mod_converse(r * 2 + dy, 2, r, dy);
}

/// A place determines its pixel.
proof fn place_determines_position(x: int, y: int, px: int, py: int, qx: int, qy: int)
    requires
        px >= x, py >= y, qx >= x, qy >= y,
        place(x, y, px, py) == place(x, y, qx, qy),
    ensures
        px == qx,
        py == qy,
{
    let a = px - x;
    let b = qx - x;
    assert(a == 8 * (a / 8) + a % 8);
    assert(b == 8 * (b / 8) + b % 8);
    assert(a % 8 == 2 * ((a % 8) / 2) + (a % 8) % 2);
    assert(b % 8 == 2 * ((b % 8) / 2) + (b % 8) % 2);
    assert((a % 8) % 2 == a % 2);
    assert((b % 8) % 2 == b % 2);
    let c = py - y;
    let d = qy - y;
    assert(c == 2 * (c / 2) + c % 2);
    assert(d == 2 * (d / 2) + d % 2);
}

/// A pixel index of a `width`-wide image from its coordinates.
proof fn pixel_of_position(width: int, px: int, py: int)
    requires
        width > 0, 0 <= px < width, py >= 0,
    ensures
        (py * width + px) % width == px,
        (py * width + px) / width == py,
{
    lemma_fundamental_div_mod_converse(py * width + px, width, py, px);
}

/// A pixel index's coordinates give it back.
proof fn position_of_pixel(width: int, p: int)
    requires
        width > 0, p >= 0,
    ensures
        (p / width) * width + p % width == p,
        0 <= p % width < width,
        p / width >= 0,
{
    vstd::arithmetic::div_mod::lemma_fundamental_div_mod(p, width);
    vstd::arithmetic::mul::lemma_mul_is_commutative(width, p / width);
}

/// Whether the byte offset computation of the draw loop fits a 32-bit word
/// for `count` characters at (`x`, `y`) on a `width`-wide canvas.
pub open spec fn text_fits(width: int, x: int, y: int, count: int) -> bool {
    &&& y + 10 <= u32::MAX
    &&& ((y + 10) * width + x + 8 * count + 8) * 4 <= u32::MAX
}

/// One pixel set to `colour`, if it lies on the canvas.
fn put_pixel(canvas: &mut Vec<u8>, canvas_width: u32, px: u32, py: u32, colour: [u8; 4])
    requires
        (py as int * canvas_width + px) * 4 + 4 <= u32::MAX,
    ensures
        final(canvas)@ == paint(old(canvas)@, canvas_width as int, colour@, |qx: int, qy: int| qx == px && qy == py),
{
    let ghost before = canvas@;
    let at = ((py * canvas_width + px) * 4) as usize;
    if px < canvas_width && at + 4 <= canvas.len() {
        canvas.set(at, colour[0]);
        canvas.set(at + 1, colour[1]);
        canvas.set(at + 2, colour[2]);
        canvas.set(at + 3, colour[3]);
        proof {
            let w = canvas_width as int;
            let p = py as int * w + px;
            pixel_of_position(w, px as int, py as int);
            assert forall|b: int| 0 <= b < canvas@.len() implies canvas@[b] == paint(before, w, colour@, |qx: int, qy: int| qx == px && qy == py)[b] by {
                position_of_pixel(w, b / 4);
                if b / 4 == p {
                    assert(at as int <= b < at + 4);
                } else {
                    if (b / 4) % w == px && (b / 4) / w == py {
                        assert(b / 4 == p);
                    }
                    assert(!(at as int <= b < at + 4));
                }
            }
            assert(canvas@ =~= paint(before, w, colour@, |qx: int, qy: int| qx == px && qy == py));
        }
    } else {
        proof {
            let w = canvas_width as int;
            let p = py as int * w + px;
            if w > 0 && px < w {
                pixel_of_position(w, px as int, py as int);
            }
            assert forall|b: int| 0 <= b < canvas@.len() implies canvas@[b] == paint(before, w, colour@, |qx: int, qy: int| qx == px && qy == py)[b] by {
                if w > 0 && (b / 4) * 4 + 4 <= before.len() && (b / 4) % w == px && (b / 4) / w == py {
                    position_of_pixel(w, b / 4);
                    assert(b / 4 == p);
                }
            }
            assert(canvas@ =~= paint(before, w, colour@, |qx: int, qy: int| qx == px && qy == py));
        }
    }
}

/// Painting twice in one colour is painting the union once.
proof fn paint_twice(canvas: Seq<u8>, width: int, colour: Seq<u8>, first: spec_fn(int, int) -> bool, second: spec_fn(int, int) -> bool)
    ensures
        paint(paint(canvas, width, colour, first), width, colour, second) == paint(
            canvas,
            width,
            colour,
            |px: int, py: int| first(px, py) || second(px, py),
        ),
{
    assert(paint(paint(canvas, width, colour, first), width, colour, second) =~= paint(
        canvas,
        width,
        colour,
        |px: int, py: int| first(px, py) || second(px, py),
    ));
}

/// Painting depends only on which pixels are painted.
proof fn paint_same_pixels(canvas: Seq<u8>, width: int, colour: Seq<u8>, first: spec_fn(int, int) -> bool, second: spec_fn(int, int) -> bool)
    requires
        forall|px: int, py: int| px >= 0 && py >= 0 ==> #[trigger] first(px, py) == second(px, py),
    ensures
        paint(canvas, width, colour, first) == paint(canvas, width, colour, second),
{
    assert forall|b: int| 0 <= b < canvas.len() implies paint(canvas, width, colour, first)[b] == paint(canvas, width, colour, second)[b] by {
        if width > 0 {
            position_of_pixel(width, b / 4);
        }
    }
    assert(paint(canvas, width, colour, first) =~= paint(canvas, width, colour, second));
}

/// Whether a glyph row's mask test sees bit `k` set.
proof fn mask_test(bits: u8, k: u32)
    requires
        k < 3,
    ensures
        ((bits & (1u8 << k)) != 0u8) == row_bit(bits, k as int),
{
    if k == 0 {
        assert(((bits & (1u8 << 0u32)) != 0u8) == (bits % 2 == 1)) by (bit_vector);
    } else if k == 1 {
        assert(((bits & (1u8 << 1u32)) != 0u8) == ((bits / 2) % 2 == 1)) by (bit_vector);
    } else {
        assert(((bits & (1u8 << 2u32)) != 0u8) == ((bits / 4) % 2 == 1)) by (bit_vector);
    }
}

/// `text` drawn at (`x`, `y`) of an RGBA8 `canvas` `canvas_width` pixels
/// wide, one glyph per character, each glyph pixel a `SCALE` x `SCALE`
/// block. Pixels that would fall off the canvas are skipped.
pub fn draw_text(canvas: &mut Vec<u8>, canvas_width: u32, x: u32, y: u32, text: &str, colour: [u8; 4])
    requires
        text_fits(canvas_width as int, x as int, y as int, text@.len() as int),
    ensures
        final(canvas)@ == text_drawn(old(canvas)@, canvas_width as int, x as int, y as int, text@, colour@),
{
    let ghost start = canvas@;
    let ghost w = canvas_width as int;
    let ghost t = text@;
    let n = text.unicode_len();
    let mut index: usize = 0;
    while index < n
        invariant
            n == t.len(),
            t == text@,
            w == canvas_width,
            0 <= index <= n,
            text_fits(w, x as int, y as int, n as int),
            canvas@ == drawn_until(start, w, x as int, y as int, t, colour@, (index as int, 0, 0, 0, 0)),
        decreases n - index,
    {
        let character = text.get_char(index);
        let rows = glyph(character);
        assert(index * 8 <= 8 * n) by (nonlinear_arith)
            requires index <= n;
        let origin = x + (index as u32) * ADVANCE;
        let mut row: usize = 0;
        while row < 5
            invariant
                n == t.len(),
                t == text@,
                w == canvas_width,
                0 <= index < n,
                0 <= row <= 5,
                character == t[index as int],
                rows@ == font(character),
                origin == x + index * 8,
                text_fits(w, x as int, y as int, n as int),
                canvas@ == drawn_until(start, w, x as int, y as int, t, colour@, (index as int, row as int, 0, 0, 0)),
            decreases 5 - row,
        {
            let bits = rows[row];
            let mut column: u32 = 0;
            while column < GLYPH_WIDTH
                invariant
                    n == t.len(),
                    t == text@,
                    w == canvas_width,
                    0 <= index < n,
                    0 <= row < 5,
                    0 <= column <= 3,
                    character == t[index as int],
                    bits == font(character)[row as int],
                    origin == x + index * 8,
                    text_fits(w, x as int, y as int, n as int),
                    canvas@ == drawn_until(start, w, x as int, y as int, t, colour@, (index as int, row as int, column as int, 0, 0)),
                decreases 3 - column,
            {
                proof {
                    mask_test(bits, (GLYPH_WIDTH - 1 - column) as u32);
                }
                if bits & (1u8 << (GLYPH_WIDTH - 1 - column)) != 0 {
                    let mut dy: u32 = 0;
                    while dy < SCALE
                        invariant
                            n == t.len(),
                            t == text@,
                            w == canvas_width,
                            0 <= index < n,
                            0 <= row < 5,
                            0 <= column < 3,
                            0 <= dy <= 2,
                            glyph_lit(t[index as int], column as int, row as int),
                            origin == x + index * 8,
                            text_fits(w, x as int, y as int, n as int),
                            canvas@ == drawn_until(start, w, x as int, y as int, t, colour@, (index as int, row as int, column as int, dy as int, 0)),
                        decreases 2 - dy,
                    {
                        let mut dx: u32 = 0;
                        while dx < SCALE
                            invariant
                                n == t.len(),
                                t == text@,
                                w == canvas_width,
                                0 <= index < n,
                                0 <= row < 5,
                                0 <= column < 3,
                                0 <= dy < 2,
                                0 <= dx <= 2,
                                glyph_lit(t[index as int], column as int, row as int),
                                origin == x + index * 8,
                                text_fits(w, x as int, y as int, n as int),
                                canvas@ == drawn_until(start, w, x as int, y as int, t, colour@, (index as int, row as int, column as int, dy as int, dx as int)),
                            decreases 2 - dx,
                        {
                            assert(x + 8 * index + 7 <= x + 8 * n + 8);
                            let px = origin + column * SCALE + dx;
                            let py = y + (row as u32) * SCALE + dy;
                            proof {
                                assert((py as int * w + px) * 4 + 4 <= u32::MAX) by (nonlinear_arith)
                                    requires
                                        ((y + 10) * w + x + 8 * n + 8) * 4 <= u32::MAX,
                                        py <= y + 9,
                                        px <= x + 8 * n + 7,
                                        w >= 0;
                            }
                            let ghost before = canvas@;
                            put_pixel(canvas, canvas_width, px, py, colour);
                            proof {
                                let at = (index as int, row as int, column as int, dy as int, dx as int);
                                let next = (index as int, row as int, column as int, dy as int, dx as int + 1);
                                place_of_position(x as int, y as int, index as int, row as int, column as int, dy as int, dx as int);
                                paint_twice(start, w, colour@,
                                    |qx: int, qy: int| covers(t, x as int, y as int, qx, qy) && lex_before(place(x as int, y as int, qx, qy), at),
                                    |qx: int, qy: int| qx == px && qy == py);
                                assert forall|qx: int, qy: int| qx >= 0 && qy >= 0 implies
                                    ((covers(t, x as int, y as int, qx, qy) && lex_before(place(x as int, y as int, qx, qy), at)) || (qx == px && qy == py))
                                    == (covers(t, x as int, y as int, qx, qy) && lex_before(place(x as int, y as int, qx, qy), next)) by {
                                    if covers(t, x as int, y as int, qx, qy) && place(x as int, y as int, qx, qy) == at {
                                        place_determines_position(x as int, y as int, qx, qy, px as int, py as int);
                                    }
                                }
                                paint_same_pixels(start, w, colour@,
                                    |qx: int, qy: int| (covers(t, x as int, y as int, qx, qy) && lex_before(place(x as int, y as int, qx, qy), at)) || (qx == px && qy == py),
                                    |qx: int, qy: int| covers(t, x as int, y as int, qx, qy) && lex_before(place(x as int, y as int, qx, qy), next));
                            }
                            dx = dx + 1;
                        }
                        proof {
                            paint_same_pixels(start, w, colour@,
                                |qx: int, qy: int| covers(t, x as int, y as int, qx, qy) && lex_before(place(x as int, y as int, qx, qy), (index as int, row as int, column as int, dy as int, 2)),
                                |qx: int, qy: int| covers(t, x as int, y as int, qx, qy) && lex_before(place(x as int, y as int, qx, qy), (index as int, row as int, column as int, dy as int + 1, 0)));
                        }
                        dy = dy + 1;
                    }
                    proof {
                        paint_same_pixels(start, w, colour@,
                            |qx: int, qy: int| covers(t, x as int, y as int, qx, qy) && lex_before(place(x as int, y as int, qx, qy), (index as int, row as int, column as int, 2, 0)),
                            |qx: int, qy: int| covers(t, x as int, y as int, qx, qy) && lex_before(place(x as int, y as int, qx, qy), (index as int, row as int, column as int + 1, 0, 0)));
                    }
                } else {
                    proof {
                        paint_same_pixels(start, w, colour@,
                            |qx: int, qy: int| covers(t, x as int, y as int, qx, qy) && lex_before(place(x as int, y as int, qx, qy), (index as int, row as int, column as int, 0, 0)),
                            |qx: int, qy: int| covers(t, x as int, y as int, qx, qy) && lex_before(place(x as int, y as int, qx, qy), (index as int, row as int, column as int + 1, 0, 0)));
                    }
                }
                column = column + 1;
            }
            proof {
                paint_same_pixels(start, w, colour@,
                    |qx: int, qy: int| covers(t, x as int, y as int, qx, qy) && lex_before(place(x as int, y as int, qx, qy), (index as int, row as int, 3, 0, 0)),
                    |qx: int, qy: int| covers(t, x as int, y as int, qx, qy) && lex_before(place(x as int, y as int, qx, qy), (index as int, row as int + 1, 0, 0, 0)));
            }
            row = row + 1;
        }
        proof {
            paint_same_pixels(start, w, colour@,
                |qx: int, qy: int| covers(t, x as int, y as int, qx, qy) && lex_before(place(x as int, y as int, qx, qy), (index as int, 5, 0, 0, 0)),
                |qx: int, qy: int| covers(t, x as int, y as int, qx, qy) && lex_before(place(x as int, y as int, qx, qy), (index as int + 1, 0, 0, 0, 0)));
        }
        index = index + 1;
    }
    proof {
        paint_same_pixels(start, w, colour@,
            |qx: int, qy: int| covers(t, x as int, y as int, qx, qy) && lex_before(place(x as int, y as int, qx, qy), (n as int, 0, 0, 0, 0)),
            |qx: int, qy: int| covers(t, x as int, y as int, qx, qy));
    }
}

/// The byte of a frame `frame_width` wide that lands at canvas byte `b`,
/// when the frame is drawn at (`x`, `y`) of a canvas `width` pixels wide:
/// row-major, four bytes a pixel.
pub open spec fn frame_byte(width: int, x: int, y: int, frame_width: int, b: int) -> int {
    (((b / 4) / width - y) * frame_width + ((b / 4) % width - x)) * 4 + b % 4
}

/// Whether canvas byte `b` lies inside a `frame_width` x `frame_height`
/// frame drawn at (`x`, `y`).
pub open spec fn in_frame(width: int, x: int, y: int, frame_width: int, frame_height: int, b: int) -> bool {
    &&& x <= (b / 4) % width < x + frame_width
    &&& y <= (b / 4) / width < y + frame_height
}

/// `canvas` with the first `count` bytes of a `frame_width`-wide frame's
/// `pixels` copied to (`x`, `y`).
pub open spec fn blitted_upto(canvas: Seq<u8>, width: int, x: int, y: int, frame_width: int, pixels: Seq<u8>, count: int) -> Seq<u8> {
    Seq::new(
        canvas.len(),
        |b: int|
            if in_frame(width, x, y, frame_width, count, b) && frame_byte(width, x, y, frame_width, b) < count {
                pixels[frame_byte(width, x, y, frame_width, b)]
            } else {
                canvas[b]
            },
    )
}

/// `canvas` with a `frame_width` x `frame_height` frame's `pixels` copied
/// to (`x`, `y`), pixel for pixel.
pub open spec fn blitted(canvas: Seq<u8>, width: int, x: int, y: int, frame_width: int, frame_height: int, pixels: Seq<u8>) -> Seq<u8> {
    Seq::new(
        canvas.len(),
        |b: int|
            if in_frame(width, x, y, frame_width, frame_height, b) {
                pixels[frame_byte(width, x, y, frame_width, b)]
            } else {
                canvas[b]
            },
    )
}

/// Whether a `frame_width` x `frame_height` frame fits a canvas `width`
/// pixels wide and `canvas_len` bytes long at (`x`, `y`), with the offsets
/// the copy computes fitting a 32-bit word.
pub open spec fn frame_fits(width: int, canvas_len: int, x: int, y: int, frame_width: int, frame_height: int) -> bool {
    &&& x + frame_width <= width
    &&& (y + frame_height) * width * 4 <= canvas_len
    &&& (y + frame_height) * width * 4 <= u32::MAX
    &&& frame_width * frame_height * 4 <= u32::MAX
}

/// Byte `k` of row `row` of a frame at (`x`, `y`) is canvas byte `to + k`.
proof fn blit_position(width: int, x: int, y: int, frame_width: int, row: int, k: int)
    requires
        width > 0, x >= 0, y >= 0, row >= 0,
        x + frame_width <= width,
        0 <= k < frame_width * 4,
    ensures
        ({
            let b = ((y + row) * width + x) * 4 + k;
            &&& (b / 4) % width == x + k / 4
            &&& (b / 4) / width == y + row
            &&& b % 4 == k % 4
            &&& frame_byte(width, x, y, frame_width, b) == row * frame_width * 4 + k
        }),
{
    let b = ((y + row) * width + x) * 4 + k;
    lemma_fundamental_div_mod_converse(b, 4, (y + row) * width + x + k / 4, k % 4);
    assert(k / 4 < frame_width);
    lemma_fundamental_div_mod_converse((y + row) * width + x + k / 4, width, y + row, x + k / 4);
    assert((row * frame_width + k / 4) * 4 + k % 4 == row * frame_width * 4 + k) by (nonlinear_arith)
        requires k == 4 * (k / 4) + k % 4;
}

/// Inside the frame, a frame byte names one canvas byte.
proof fn frame_byte_unique(width: int, x: int, y: int, frame_width: int, frame_height: int, b: int, c: int)
    requires
        width > 0, b >= 0, c >= 0, frame_width > 0,
        in_frame(width, x, y, frame_width, frame_height, b),
        in_frame(width, x, y, frame_width, frame_height, c),
        frame_byte(width, x, y, frame_width, b) == frame_byte(width, x, y, frame_width, c),
    ensures
        b == c,
{
    let f = frame_byte(width, x, y, frame_width, b);
    let bp = b / 4;
    let cp = c / 4;
    lemma_fundamental_div_mod_converse(f, 4, (bp / width - y) * frame_width + (bp % width - x), b % 4);
    lemma_fundamental_div_mod_converse(f, 4, (cp / width - y) * frame_width + (cp % width - x), c % 4);
    let q = f / 4;
    lemma_fundamental_div_mod_converse(q, frame_width, bp / width - y, bp % width - x);
    lemma_fundamental_div_mod_converse(q, frame_width, cp / width - y, cp % width - x);
    position_of_pixel(width, bp);
    position_of_pixel(width, cp);
    assert(b == 4 * bp + b % 4);
    assert(c == 4 * cp + c % 4);
}

/// A frame's pixels copied to (`x`, `y`) of an RGBA8 `canvas`
/// `canvas_width` pixels wide, row by row.
pub fn blit(canvas: &mut Vec<u8>, canvas_width: u32, x: u32, y: u32, frame: &StripFrame)
    requires
        frame_fits(canvas_width as int, old(canvas)@.len() as int, x as int, y as int, frame.width as int, frame.height as int),
        frame.pixels@.len() >= frame.width * frame.height * 4,
    ensures
        final(canvas)@ == blitted(old(canvas)@, canvas_width as int, x as int, y as int, frame.width as int, frame.height as int, frame.pixels@),
{
    let ghost start = canvas@;
    let ghost w = canvas_width as int;
    let ghost fw = frame.width as int;
    let ghost fh = frame.height as int;
    if frame.width == 0 || frame.height == 0 {
        assert(canvas@ =~= blitted(start, w, x as int, y as int, fw, fh, frame.pixels@));
        return;
    }
    assert(fw * 4 <= fw * fh * 4) by (nonlinear_arith)
        requires fh >= 1, fw >= 0;
    assert(y + fh <= (y + fh) * w * 4) by (nonlinear_arith)
        requires w >= 1, y + fh >= 0;
    let bytes = (frame.width * 4) as usize;
    let mut row: u32 = 0;
    while row < frame.height
        invariant
            w == canvas_width,
            fw == frame.width,
            fh == frame.height,
            fw > 0,
            fh > 0,
            w > 0,
            bytes == fw * 4,
            0 <= row <= fh,
            canvas@.len() == start.len(),
            frame_fits(w, start.len() as int, x as int, y as int, fw, fh),
            y + fh <= u32::MAX,
            frame.pixels@.len() >= fw * fh * 4,
            canvas@ == blitted_upto(start, w, x as int, y as int, fw, frame.pixels@, row * fw * 4),
        decreases fh - row,
    {
        proof {
            assert(row * fw * 4 + fw * 4 <= fw * fh * 4) by (nonlinear_arith)
                requires row < fh, fw > 0;
            assert((y + row + 1) * w * 4 <= (y + fh) * w * 4) by (nonlinear_arith)
                requires row < fh, w > 0;
            assert((y + row) * w + x + fw <= (y + row + 1) * w) by (nonlinear_arith)
                requires x + fw <= w;
        }
        let from = (row * frame.width * 4) as usize;
        let to = ((y + row) * canvas_width + x) as usize * 4;
        let mut k: usize = 0;
        while k < bytes
            invariant
                w == canvas_width,
                fw == frame.width,
                fh == frame.height,
                fw > 0,
                w > 0,
                bytes == fw * 4,
                0 <= row < fh,
                0 <= k <= bytes,
                from == row * fw * 4,
                to == ((y + row) * w + x) * 4,
                to + bytes <= start.len(),
                from + bytes <= frame.pixels@.len(),
                to + bytes <= u32::MAX,
                from + bytes <= u32::MAX,
                canvas@.len() == start.len(),
                x + fw <= w,
                canvas@ == blitted_upto(start, w, x as int, y as int, fw, frame.pixels@, row * fw * 4 + k),
            decreases bytes - k,
        {
            let ghost before = canvas@;
            let value = frame.pixels[from + k];
            canvas.set(to + k, value);
            proof {
                let count = row * fw * 4 + k;
                blit_position(w, x as int, y as int, fw, row as int, k as int);
                assert forall|b: int| 0 <= b < canvas@.len() implies canvas@[b] == blitted_upto(start, w, x as int, y as int, fw, frame.pixels@, count + 1)[b] by {
                    if b == to + k {
                        assert(in_frame(w, x as int, y as int, fw, count + 1, b)) by {
                            assert(row < count + 1) by (nonlinear_arith)
                                requires count == row * fw * 4 + k, fw > 0, k >= 0, row >= 0;
                        }
                    } else {
                        if in_frame(w, x as int, y as int, fw, count + 1, b) && frame_byte(w, x as int, y as int, fw, b) == count {
                            assert(in_frame(w, x as int, y as int, fw, count + 1, (to + k) as int)) by {
                                assert(row < count + 1) by (nonlinear_arith)
                                    requires count == row * fw * 4 + k, fw > 0, k >= 0, row >= 0;
                            }
                            frame_byte_unique(w, x as int, y as int, fw, count + 1, b, (to + k) as int);
                        }
                        let fb = frame_byte(w, x as int, y as int, fw, b);
                        if in_frame(w, x as int, y as int, fw, count + 1, b) && fb < count {
                            assert(in_frame(w, x as int, y as int, fw, count, b)) by {
                                let py = (b / 4) / w - y;
                                let px = (b / 4) % w - x;
                                assert(py < count) by (nonlinear_arith)
                                    requires fb == (py * fw + px) * 4 + b % 4, fb < count, px >= 0, b % 4 >= 0, fw > 0, py >= 0;
                            }
                        }
                    }
                }
                assert(canvas@ =~= blitted_upto(start, w, x as int, y as int, fw, frame.pixels@, count + 1));
            }
            k = k + 1;
        }
        row = row + 1;
        proof {
            assert((row - 1) * fw * 4 + bytes == row * fw * 4) by (nonlinear_arith)
                requires bytes == fw * 4;
        }
    }
    proof {
        assert forall|b: int| 0 <= b < canvas@.len() implies canvas@[b] == blitted(start, w, x as int, y as int, fw, fh, frame.pixels@)[b] by {
            let py = (b / 4) / w - y;
            let px = (b / 4) % w - x;
            let fb = frame_byte(w, x as int, y as int, fw, b);
            if in_frame(w, x as int, y as int, fw, fh, b) {
                assert(fb < fh * fw * 4) by (nonlinear_arith)
                    requires fb == (py * fw + px) * 4 + b % 4, 0 <= py < fh, 0 <= px < fw, 0 <= b % 4 < 4;
                assert(py < fh * fw * 4) by (nonlinear_arith)
                    requires 0 <= py < fh, fw > 0;
            }
            if in_frame(w, x as int, y as int, fw, fh * fw * 4, b) && fb < fh * fw * 4 {
                position_of_pixel(w, b / 4);
                assert(py < fh) by (nonlinear_arith)
                    requires fb == (py * fw + px) * 4 + b % 4, fb < fh * fw * 4, px >= 0, b % 4 >= 0, fw > 0, py >= 0;
            }
        }
        assert(canvas@ =~= blitted(start, w, x as int, y as int, fw, fh, frame.pixels@));
    }
}

/// The first gutter line: `#index`, then the label if there is one.
pub open spec fn label_line(index: nat, label: Seq<char>) -> Seq<char> {
    if label.len() == 0 {
        seq!['#'] + decimal(index)
    } else {
        seq!['#'] + decimal(index) + seq![' '] + label
    }
}

/// The second gutter line: what the frame drew.
pub open spec fn drawn_line(render: RenderCounts) -> Seq<char> {
    seq!['C', 'A', 'L', 'L', 'S', ' '] + decimal(render.calls as nat) + seq![' ', 'T', 'R', 'I', ' ']
        + decimal(render.triangles as nat) + seq![' ', 'L', 'I', 'N', 'E', 'S', ' '] + decimal(render.lines as nat)
}

/// The third gutter line: what the frame built.
pub open spec fn built_line(build: BuildCounts) -> Seq<char> {
    seq!['P', 'R', 'O', 'G', ' '] + decimal(build.programs_compiled as nat) + seq![' ', 'P', 'I', 'P', 'E', ' ']
        + decimal(build.pipelines_built as nat) + seq![' ', 'G', 'E', 'O', ' '] + decimal(build.geometries_uploaded as nat)
        + seq![' ', 'B', 'U', 'F', ' '] + decimal(build.buffers_written as nat) + seq![' ', 'T', 'E', 'X', ' ']
        + decimal(build.textures_uploaded as nat)
}

/// The gutter's lines print each count after its own label: the second
/// line the calls after "CALLS", the triangles after "TRI" and the lines
/// after "LINES"; the third line the programs after "PROG", the pipelines
/// after "PIPE", the geometries after "GEO", the buffer writes after "BUF"
/// and the texture uploads after "TEX"; the first line the frame's number
/// after "#", then its label, if it has one, after a space.
pub proof fn the_gutter_prints_each_count_by_its_label(render: RenderCounts, build: BuildCounts, index: nat, label: Seq<char>)
    ensures
        ({
            let drawn = drawn_line(render);
            let calls = seq!['C', 'A', 'L', 'L', 'S', ' '];
            let tri = seq![' ', 'T', 'R', 'I', ' '];
            let lines = seq![' ', 'L', 'I', 'N', 'E', 'S', ' '];
            &&& exists|rest: Seq<char>| drawn == calls + decimal(render.calls as nat) + tri + rest
            &&& shows(drawn, tri + decimal(render.triangles as nat) + lines)
            &&& exists|start: Seq<char>| drawn == start + lines + decimal(render.lines as nat)
        }),
        ({
            let built = built_line(build);
            let prog = seq!['P', 'R', 'O', 'G', ' '];
            let pipe = seq![' ', 'P', 'I', 'P', 'E', ' '];
            let geo = seq![' ', 'G', 'E', 'O', ' '];
            let buf = seq![' ', 'B', 'U', 'F', ' '];
            let tex = seq![' ', 'T', 'E', 'X', ' '];
            &&& exists|rest: Seq<char>| built == prog + decimal(build.programs_compiled as nat) + pipe + rest
            &&& shows(built, pipe + decimal(build.pipelines_built as nat) + geo)
            &&& shows(built, geo + decimal(build.geometries_uploaded as nat) + buf)
            &&& shows(built, buf + decimal(build.buffers_written as nat) + tex)
            &&& exists|start: Seq<char>| built == start + tex + decimal(build.textures_uploaded as nat)
        }),
        label.len() == 0 ==> label_line(index, label) == seq!['#'] + decimal(index),
        label.len() > 0 ==> label_line(index, label) == seq!['#'] + decimal(index) + seq![' '] + label,
{
    let calls = seq!['C', 'A', 'L', 'L', 'S', ' '];
    let tri = seq![' ', 'T', 'R', 'I', ' '];
    let lines = seq![' ', 'L', 'I', 'N', 'E', 'S', ' '];
    let c = decimal(render.calls as nat);
    let t = decimal(render.triangles as nat);
    let l = decimal(render.lines as nat);
    let drawn = drawn_line(render);
    assert(drawn =~= calls + c + tri + (t + lines + l));
    assert(drawn =~= (calls + c) + (tri + t + lines) + l);
    assert(drawn =~= (calls + c + tri + t) + lines + l);
    let prog = seq!['P', 'R', 'O', 'G', ' '];
    let pipe = seq![' ', 'P', 'I', 'P', 'E', ' '];
    let geo = seq![' ', 'G', 'E', 'O', ' '];
    let buf = seq![' ', 'B', 'U', 'F', ' '];
    let tex = seq![' ', 'T', 'E', 'X', ' '];
    let d0 = decimal(build.programs_compiled as nat);
    let d1 = decimal(build.pipelines_built as nat);
    let d2 = decimal(build.geometries_uploaded as nat);
    let d3 = decimal(build.buffers_written as nat);
    let d4 = decimal(build.textures_uploaded as nat);
    let built = built_line(build);
    assert(built =~= prog + d0 + pipe + (d1 + geo + d2 + buf + d3 + tex + d4));
    assert(built =~= (prog + d0) + (pipe + d1 + geo) + (d2 + buf + d3 + tex + d4));
    assert(built =~= (prog + d0 + pipe + d1) + (geo + d2 + buf) + (d3 + tex + d4));
    assert(built =~= (prog + d0 + pipe + d1 + geo + d2) + (buf + d3 + tex) + d4);
    assert(built =~= (prog + d0 + pipe + d1 + geo + d2 + buf + d3) + tex + d4);
}


fn label_text(index: u64, label: &String) -> (text: String)
    ensures
        text@ == label_line(index as nat, label@),
{
    proof {
        reveal_strlit("#");
        reveal_strlit(" ");
    }
    let mut text = literal("#");
    let number = decimal_text(index);
    text.append(number.as_str());
    if label.unicode_len() != 0 {
        text.append(" ");
        text.append(label.as_str());
    }
    text
}

fn drawn_text(render: &RenderCounts) -> (text: String)
    ensures
        text@ == drawn_line(*render),
{
    proof {
        reveal_strlit("CALLS ");
        reveal_strlit(" TRI ");
        reveal_strlit(" LINES ");
    }
    let mut text = literal("CALLS ");
    text.append(decimal_text(render.calls).as_str());
    text.append(" TRI ");
    text.append(decimal_text(render.triangles).as_str());
    text.append(" LINES ");
    text.append(decimal_text(render.lines).as_str());
    proof {
        assert(text@ =~= drawn_line(*render));
    }
    text
}

fn built_text(build: &BuildCounts) -> (text: String)
    ensures
        text@ == built_line(*build),
{
    proof {
        reveal_strlit("PROG ");
        reveal_strlit(" PIPE ");
        reveal_strlit(" GEO ");
        reveal_strlit(" BUF ");
        reveal_strlit(" TEX ");
    }
    let mut text = literal("PROG ");
    text.append(decimal_text(build.programs_compiled).as_str());
    text.append(" PIPE ");
    text.append(decimal_text(build.pipelines_built).as_str());
    text.append(" GEO ");
    text.append(decimal_text(build.geometries_uploaded).as_str());
    text.append(" BUF ");
    text.append(decimal_text(build.buffers_written).as_str());
    text.append(" TEX ");
    text.append(decimal_text(build.textures_uploaded).as_str());
    proof {
        assert(text@ =~= built_line(*build));
    }
    text
}

/// The strip's background.
pub const BACKGROUND: [u8; 4] = [24, 24, 24, 255];
/// The colour of a frame's label.
pub const LABEL: [u8; 4] = [255, 255, 255, 255];
/// The colour of a frame's counts.
pub const TEXT: [u8; 4] = [170, 170, 170, 255];
/// The colour of the build line of a frame that built something: the number
/// the strip exists to show.
pub const BUILT: [u8; 4] = [255, 176, 64, 255];

/// How many characters fit a gutter `cell_width` pixels wide.
pub open spec fn gutter_room(cell_width: int) -> int {
    (if cell_width >= 2 * PAD { cell_width - 2 * PAD } else { 0 }) / (ADVANCE as int)
}

/// The first `room` characters of `text`.
pub open spec fn clipped(text: Seq<char>, room: int) -> Seq<char> {
    if text.len() <= room {
        text
    } else {
        text.take(room)
    }
}

/// The colour of the build line: the warning colour when anything was built.
pub open spec fn built_colour(build: BuildCounts) -> Seq<u8> {
    if build_total(build) == 0 {
        TEXT@
    } else {
        BUILT@
    }
}

/// `canvas` with the three gutter lines of frame number `index` drawn under
/// it at (`x`, `y`) in a cell `cell_width` pixels wide: its label, what it
/// drew and what it built, each cut to the cell.
pub open spec fn guttered(canvas: Seq<u8>, width: int, x: int, y: int, cell_width: int, index: nat, frame: StripFrame) -> Seq<u8> {
    let room = gutter_room(cell_width);
    let labelled = text_drawn(canvas, width, x + PAD, y + PAD, clipped(label_line(index, frame.label@), room), LABEL@);
    let counted = text_drawn(labelled, width, x + PAD, y + PAD + LINE, clipped(drawn_line(frame.info.render), room), TEXT@);
    text_drawn(counted, width, x + PAD, y + PAD + 2 * LINE, clipped(built_line(frame.info.build), room), built_colour(frame.info.build))
}

/// Whether the three gutter lines fit the offsets the drawing computes.
pub open spec fn gutter_fits(width: int, x: int, y: int, cell_width: int) -> bool {
    let room = gutter_room(cell_width);
    &&& x + PAD <= u32::MAX
    &&& y + PAD + 2 * LINE <= u32::MAX
    &&& text_fits(width, x + PAD, y + PAD, room)
    &&& text_fits(width, x + PAD, y + PAD + LINE, room)
    &&& text_fits(width, x + PAD, y + PAD + 2 * LINE, room)
}

/// Whether `build` is all zeros.
fn built_nothing(build: &BuildCounts) -> (nothing: bool)
    ensures
        nothing == (build_total(*build) == 0),
{
    build.programs_compiled == 0 && build.pipelines_built == 0 && build.geometries_uploaded == 0
        && build.buffers_written == 0 && build.textures_uploaded == 0 && build.buffers_created == 0
        && build.views_created == 0 && build.samplers_created == 0 && build.bind_groups_created == 0
}

/// `text` cut to its first `room` characters, and drawn.
fn draw_clipped(canvas: &mut Vec<u8>, canvas_width: u32, x: u32, y: u32, text: &String, room: usize, colour: [u8; 4])
    requires
        text_fits(canvas_width as int, x as int, y as int, room as int),
    ensures
        final(canvas)@ == text_drawn(old(canvas)@, canvas_width as int, x as int, y as int, clipped(text@, room as int), colour@),
{
    let len = text.as_str().unicode_len();
    let end = if len <= room { len } else { room };
    let shown = text.as_str().substring_char(0, end);
    proof {
        assert(shown@ =~= clipped(text@, room as int));
        assert(text_fits(canvas_width as int, x as int, y as int, shown@.len() as int)) by (nonlinear_arith)
            requires
                text_fits(canvas_width as int, x as int, y as int, room as int),
                shown@.len() <= room;
    }
    draw_text(canvas, canvas_width, x, y, shown, colour);
}

/// The three lines under frame number `index`, drawn at (`x`, `y`) in a
/// cell `cell_width` pixels wide: what it is, what it drew, what it built.
/// A build line that is not zero is drawn in the warning colour.
pub fn gutter(canvas: &mut Vec<u8>, canvas_width: u32, x: u32, y: u32, cell_width: u32, index: usize, frame: &StripFrame)
    requires
        gutter_fits(canvas_width as int, x as int, y as int, cell_width as int),
    ensures
        final(canvas)@ == guttered(old(canvas)@, canvas_width as int, x as int, y as int, cell_width as int, index as nat, *frame),
{
    let lines = [
        label_text(index as u64, &frame.label),
        drawn_text(&frame.info.render),
        built_text(&frame.info.build),
    ];
    let colours = [LABEL, TEXT, if built_nothing(&frame.info.build) { TEXT } else { BUILT }];
    let room = (cell_width.saturating_sub(PAD * 2) / ADVANCE) as usize;
    draw_clipped(canvas, canvas_width, x + PAD, y + PAD, &lines[0], room, colours[0]);
    draw_clipped(canvas, canvas_width, x + PAD, y + PAD + LINE, &lines[1], room, colours[1]);
    draw_clipped(canvas, canvas_width, x + PAD, y + PAD + 2 * LINE, &lines[2], room, colours[2]);
}

/// The width of the first `n` frames side by side.
pub open spec fn widths_before(frames: Seq<StripFrame>, n: int) -> int
    decreases n,
{
    if n <= 0 {
        0
    } else {
        widths_before(frames, n - 1) + frames[n - 1].width
    }
}

/// The height of the tallest of the first `n` frames.
pub open spec fn tallest_of(frames: Seq<StripFrame>, n: int) -> int
    decreases n,
{
    if n <= 0 {
        0
    } else if tallest_of(frames, n - 1) >= frames[n - 1].height {
        tallest_of(frames, n - 1)
    } else {
        frames[n - 1].height as int
    }
}

/// A canvas of `len` bytes filled with the background colour.
pub open spec fn backdrop(len: int) -> Seq<u8> {
    Seq::new(len as nat, |b: int| BACKGROUND@[b % 4])
}

/// The strip canvas after the first `n` frames: each frame at 1:1, left to
/// right, on the background, with its gutter under the tallest frame.
pub open spec fn tiled(frames: Seq<StripFrame>, width: int, tallest: int, n: int) -> Seq<u8>
    decreases n,
{
    if n <= 0 {
        backdrop(width * (tallest + GUTTER) * 4)
    } else {
        let frame = frames[n - 1];
        let x = widths_before(frames, n - 1);
        guttered(
            blitted(tiled(frames, width, tallest, n - 1), width, x, 0, frame.width as int, frame.height as int, frame.pixels@),
            width,
            x,
            tallest,
            frame.width as int,
            (n - 1) as nat,
            frame,
        )
    }
}

/// Whether a strip's frames can be tiled: each frame holds its pixels, and
/// the canvas and every offset into it fit a 32-bit word.
pub open spec fn strip_fits(frames: Seq<StripFrame>) -> bool {
    let width = widths_before(frames, frames.len() as int);
    let height = tallest_of(frames, frames.len() as int) + GUTTER;
    &&& forall|i: int| 0 <= i < frames.len() ==> (#[trigger] frames[i]).pixels@.len() >= frames[i].width * frames[i].height * 4
    &&& width <= u32::MAX
    &&& height <= u32::MAX
    &&& (height * width + 16) * 4 <= u32::MAX
}

proof fn widths_grow(frames: Seq<StripFrame>, m: int, n: int)
    requires
        0 <= m <= n <= frames.len(),
    ensures
        0 <= widths_before(frames, m) <= widths_before(frames, n),
    decreases n,
{
    if m < n {
        widths_grow(frames, m, n - 1);
    } else if n > 0 {
        widths_grow(frames, n - 1, n - 1);
    }
}

proof fn tallest_bounds(frames: Seq<StripFrame>, i: int, n: int)
    requires
        0 <= i < n <= frames.len(),
    ensures
        frames[i].height <= tallest_of(frames, n),
        tallest_of(frames, n) >= 0,
    decreases n,
{
    if i < n - 1 {
        tallest_bounds(frames, i, n - 1);
    } else if n - 1 > 0 {
        tallest_bounds(frames, 0, n - 1);
    }
}

proof fn gutter_line_fits(w: int, h: int, tallest: int, x: int, fw: int, room: int, l: int)
    requires
        (h * w + 16) * 4 <= u32::MAX,
        h <= u32::MAX,
        h == tallest + 50,
        0 <= l < 3,
        x + fw <= w,
        8 * room + 8 <= fw + 8,
        x >= 0,
        room >= 0,
        w >= 0,
        tallest >= 0,
    ensures
        text_fits(w, x + PAD, tallest + PAD + l * LINE, room),
{
    assert(((tallest + PAD + l * LINE + 10) * w + x + PAD + 8 * room + 8) * 4 <= u32::MAX) by (nonlinear_arith)
        requires
            (h * w + 16) * 4 <= u32::MAX,
            h == tallest + 50,
            0 <= l < 3,
            x + fw <= w,
            8 * room + 8 <= fw + 8,
            x >= 0,
            room >= 0,
            w >= 0,
            tallest >= 0;
    assert(tallest + PAD + l * LINE + 10 <= u32::MAX) by (nonlinear_arith)
        requires
            (h * w + 16) * 4 <= u32::MAX,
            h == tallest + 50,
            0 <= l < 3,
            w >= 0,
            tallest >= 0,
            h <= u32::MAX;
}

/// A glyph fits the cell the advance reserves for it: every row is three
/// bits wide, and the scaled glyph is narrower than the advance, so two
/// characters never touch.
pub proof fn a_glyph_fits_its_cell(character: char, row: int)
    requires
        0 <= row < 5,
    ensures
        font(character).len() == 5,
        font(character)[row] < 8,
        GLYPH_WIDTH * SCALE < ADVANCE,
{
}

/// The gutter is three lines of scaled text with padding above and below,
/// so it is taller than the three lines' glyphs.
pub proof fn the_gutter_holds_its_three_lines()
    ensures
        GUTTER == PAD * 2 + LINE * 3,
        GUTTER > GLYPH_HEIGHT * SCALE * 3,
{
}

/// Lower case draws as upper case, and only a space draws as nothing: a
/// character the font lacks draws as a question mark, never as a blank a
/// reader would take for a space.
pub proof fn only_a_space_is_blank(character: char)
    ensures
        font(character) == font(ascii_upper(character)),
        (font(character) == seq![0u8, 0u8, 0u8, 0u8, 0u8]) <==> ascii_upper(character) == ' ',
{
    if ascii_upper(character) != ' ' {
        assert(font(character) != seq![0u8, 0u8, 0u8, 0u8, 0u8]) by {
            if font(character) == seq![0u8, 0u8, 0u8, 0u8, 0u8] {
                assert(font(character)[0] == 0 && font(character)[1] == 0 && font(character)[2] == 0
                    && font(character)[3] == 0 && font(character)[4] == 0);
            }
        }
    }
}

/// Two frames that differ at most in their time draw alike.
pub open spec fn same_picture(a: StripFrame, b: StripFrame) -> bool {
    &&& a.label@ == b.label@
    &&& a.width == b.width
    &&& a.height == b.height
    &&& a.pixels@ == b.pixels@
    &&& a.info == b.info
}

/// The strip image is a pure function of the pixels, the labels and the
/// counts: frame times are not drawn, so two runs that differ only in how
/// long their frames took give the same image, byte for byte.
pub proof fn the_strip_does_not_draw_time(first: Seq<StripFrame>, second: Seq<StripFrame>, width: int, tallest: int, n: int)
    requires
        first.len() == second.len(),
        0 <= n <= first.len(),
        forall|i: int| 0 <= i < first.len() ==> same_picture(#[trigger] first[i], second[i]),
    ensures
        tiled(first, width, tallest, n) == tiled(second, width, tallest, n),
        widths_before(first, n) == widths_before(second, n),
    decreases n,
{
    if n > 0 {
        the_strip_does_not_draw_time(first, second, width, tallest, n - 1);
        assert(same_picture(first[n - 1], second[n - 1]));
    }
}

/// One end of a range of frames.
#[derive(Clone, Copy, Debug, PartialEq, Eq, Structural)]
pub enum FrameBound {
    Included(usize),
    Excluded(usize),
    Unbounded,
}

/// Why a range of frames is not steady.
#[derive(Clone, Copy, Debug, PartialEq, Eq, Structural)]
pub enum NotSteady {
    /// The range runs past the last of `frames` frames.
    PastTheEnd { frames: usize, end: usize },
    /// Frame `index`, the first in the range that did, built something
    /// beyond the allowed texture uploads.
    Built { index: usize },
}

/// The first frame of a range starting at `start`.
pub open spec fn range_start(start: FrameBound) -> int {
    match start {
        FrameBound::Included(i) => i as int,
        FrameBound::Excluded(i) => i + 1,
        FrameBound::Unbounded => 0,
    }
}

/// One past the last frame of a range ending at `end`, of `len` frames.
pub open spec fn range_end(end: FrameBound, len: int) -> int {
    match end {
        FrameBound::Included(i) => i + 1,
        FrameBound::Excluded(i) => i as int,
        FrameBound::Unbounded => len,
    }
}

/// Whether a range bound can be turned into an index.
pub open spec fn bound_in_range(bound: FrameBound, is_start: bool) -> bool {
    match bound {
        FrameBound::Excluded(i) => !is_start || i < usize::MAX,
        FrameBound::Included(i) => is_start || i < usize::MAX,
        FrameBound::Unbounded => true,
    }
}

/// A steady frame built nothing, beyond exactly `textures` texture uploads.
pub open spec fn steady_frame(info: Info, textures: u64) -> bool {
    &&& build_total(info.build) == info.build.textures_uploaded
    &&& info.build.textures_uploaded == textures
}

/// Whether a frame's build block shows nothing but `textures` texture
/// uploads: no program compiled, no pipeline built, no geometry uploaded,
/// no buffer written, no buffer, view, sampler or bind group created.
pub open spec fn built_nothing_but(build: BuildCounts, textures: u64) -> bool {
    &&& build.programs_compiled == 0
    &&& build.pipelines_built == 0
    &&& build.geometries_uploaded == 0
    &&& build.buffers_written == 0
    &&& build.buffers_created == 0
    &&& build.views_created == 0
    &&& build.samplers_created == 0
    &&& build.bind_groups_created == 0
    &&& build.textures_uploaded == textures
}

/// Where some frame of a range is not steady, a first one is.
proof fn lemma_first_unsteady(frames: Seq<StripFrame>, start: int, end: int, textures: u64)
    requires
        exists|k: int| start <= k < end && !steady_frame(#[trigger] frames[k].info, textures),
    ensures
        exists|k: int|
            start <= k < end && !steady_frame(#[trigger] frames[k].info, textures) && forall|j: int|
                start <= j < k ==> steady_frame(#[trigger] frames[j].info, textures),
    decreases end - start,
{
    if exists|k: int| start <= k < end - 1 && !steady_frame(#[trigger] frames[k].info, textures) {
        lemma_first_unsteady(frames, start, end - 1, textures);
        let k = choose|k: int|
            start <= k < end - 1 && !steady_frame(#[trigger] frames[k].info, textures) && forall|j: int|
                start <= j < k ==> steady_frame(#[trigger] frames[j].info, textures);
        assert(start <= k < end);
    } else {
        let k = end - 1;
        assert(!steady_frame(frames[k].info, textures));
        assert(forall|j: int| start <= j < k ==> steady_frame(#[trigger] frames[j].info, textures));
    }
}

/// A frame is steady exactly when it built nothing but the allowed texture
/// uploads; and the verdict on a range within the strip is `Ok` exactly when
/// every frame in it is so, and otherwise names the first frame in it that
/// is not.
pub proof fn steady_means_built_nothing_but_the_textures(
    info: Info,
    frames: Seq<StripFrame>,
    start: int,
    end: int,
    textures: u64,
)
    requires
        0 <= start,
        frames.len() <= usize::MAX,
    ensures
        steady_frame(info, textures) == built_nothing_but(info.build, textures),
        end <= frames.len() ==> ((steadiness(frames, start, end, textures) is Ok) == (forall|k: int|
            start <= k < end ==> built_nothing_but(#[trigger] frames[k].info.build, textures))),
        steadiness(frames, start, end, textures) matches Err(NotSteady::Built { index }) ==> ({
            &&& start <= index < end
            &&& !built_nothing_but(frames[index as int].info.build, textures)
            &&& forall|j: int| start <= j < index ==> built_nothing_but(#[trigger] frames[j].info.build, textures)
        }),
{
    assert forall|i: Info| #[trigger] steady_frame(i, textures) == built_nothing_but(i.build, textures) by {}
    if end <= frames.len() && !(steadiness(frames, start, end, textures) is Ok) {
        let k = choose|k: int| start <= k < end && !steady_frame(#[trigger] frames[k].info, textures);
        assert(!built_nothing_but(frames[k].info.build, textures));
    }
    if end <= frames.len() && exists|k: int| start <= k < end && !steady_frame(#[trigger] frames[k].info, textures) {
        lemma_first_unsteady(frames, start, end, textures);
        let first = choose|k: int|
            start <= k < end && !steady_frame(#[trigger] frames[k].info, textures) && forall|j: int|
                start <= j < k ==> steady_frame(#[trigger] frames[j].info, textures);
        assert(steadiness(frames, start, end, textures) == Err::<(), NotSteady>(NotSteady::Built { index: first as usize }));
        assert(forall|j: int| start <= j < first ==> built_nothing_but(#[trigger] frames[j].info.build, textures)) by {
            assert forall|j: int| start <= j < first implies built_nothing_but(#[trigger] frames[j].info.build, textures) by {
                assert(steady_frame(frames[j].info, textures));
            }
        }
    }
}

/// The verdict on frames `start..end` of `frames`.
pub open spec fn steadiness(frames: Seq<StripFrame>, start: int, end: int, textures: u64) -> Result<(), NotSteady> {
    if end > frames.len() {
        Err(NotSteady::PastTheEnd { frames: frames.len() as usize, end: end as usize })
    } else if exists|k: int| start <= k < end && !steady_frame(#[trigger] frames[k].info, textures) {
        let first = choose|k: int|
            start <= k < end && !steady_frame(#[trigger] frames[k].info, textures) && forall|j: int|
                start <= j < k ==> steady_frame(#[trigger] frames[j].info, textures);
        Err(NotSteady::Built { index: first as usize })
    } else {
        Ok(())
    }
}

fn bound_start(start: FrameBound) -> (first: usize)
    requires
        bound_in_range(start, true),
    ensures
        first == range_start(start),
{
    match start {
        FrameBound::Included(i) => i,
        FrameBound::Excluded(i) => i + 1,
        FrameBound::Unbounded => 0,
    }
}

fn bound_end(end: FrameBound, len: usize) -> (last: usize)
    requires
        bound_in_range(end, false),
    ensures
        last == range_end(end, len as int),
{
    match end {
        FrameBound::Included(i) => i + 1,
        FrameBound::Excluded(i) => i,
        FrameBound::Unbounded => len,
    }
}

/// Whether a frame built nothing but `textures` texture uploads.
fn frame_is_steady(info: &Info, textures: u64) -> (steady: bool)
    ensures
        steady == steady_frame(*info, textures),
{
    let build = &info.build;
    build.programs_compiled == 0 && build.pipelines_built == 0 && build.geometries_uploaded == 0
        && build.buffers_written == 0 && build.buffers_created == 0 && build.views_created == 0
        && build.samplers_created == 0 && build.bind_groups_created == 0
        && build.textures_uploaded == textures
}

impl Strip {
    /// What each frame took, in order. Times are not part of the image.
    pub fn times(&self) -> (times: Vec<std::time::Duration>)
        ensures
            times@.len() == self.frames@.len(),
            forall|i: int| 0 <= i < times@.len() ==> #[trigger] times@[i] == self.frames@[i].time,
    {
        let mut times: Vec<std::time::Duration> = Vec::new();
        let mut i: usize = 0;
        while i < self.frames.len()
            invariant
                0 <= i <= self.frames@.len(),
                times@.len() == i,
                forall|j: int| 0 <= j < i ==> #[trigger] times@[j] == self.frames@[j].time,
            decreases self.frames@.len() - i,
        {
            times.push(self.frames[i].time);
            i = i + 1;
        }
        times
    }

    /// Every frame in the range built nothing beyond `textures` texture
    /// uploads: the steady-frame check for a scene whose per-frame data is
    /// itself an upload. Says which frame built something, or that the range
    /// runs past the end of the strip.
    pub fn assert_steady_uploading(&self, start: FrameBound, end: FrameBound, textures: u64) -> (verdict: Result<(), NotSteady>)
        requires
            bound_in_range(start, true),
            bound_in_range(end, false),
        ensures
            verdict == steadiness(self.frames@, range_start(start), range_end(end, self.frames@.len() as int), textures),
    {
        let first = bound_start(start);
        let last = bound_end(end, self.frames.len());
        if last > self.frames.len() {
            return Err(NotSteady::PastTheEnd { frames: self.frames.len(), end: last });
        }
        let ghost frames = self.frames@;
        let mut index: usize = first;
        while index < last
            invariant
                frames == self.frames@,
                last <= frames.len(),
                first <= index || index == first,
                first == range_start(start),
                last == range_end(end, frames.len() as int),
                index >= first,
                forall|j: int| first <= j < index ==> steady_frame(#[trigger] frames[j].info, textures),
            decreases last - index,
        {
            if !frame_is_steady(&self.frames[index].info, textures) {
                proof {
                    let k = index as int;
                    assert(first <= k < last && !steady_frame(frames[k].info, textures));
                    let chosen = choose|k: int|
                        first <= k < last && !steady_frame(#[trigger] frames[k].info, textures) && forall|j: int|
                            first <= j < k ==> steady_frame(#[trigger] frames[j].info, textures);
                    assert(first <= k < last && !steady_frame(frames[k].info, textures) && forall|j: int|
                            first <= j < k ==> steady_frame(#[trigger] frames[j].info, textures));
                    if chosen < k {
                        assert(steady_frame(frames[chosen].info, textures));
                    } else if chosen > k {
                        assert(steady_frame(frames[k].info, textures));
                    }
                }
                return Err(NotSteady::Built { index });
            }
            index = index + 1;
        }
        Ok(())
    }

    /// Every frame in the range compiled, built and uploaded nothing.
    pub fn assert_steady(&self, start: FrameBound, end: FrameBound) -> (verdict: Result<(), NotSteady>)
        requires
            bound_in_range(start, true),
            bound_in_range(end, false),
        ensures
            verdict == steadiness(self.frames@, range_start(start), range_end(end, self.frames@.len() as int), 0),
    {
        self.assert_steady_uploading(start, end, 0)
    }

    /// The frames tiled left to right at 1:1, each with a gutter under it
    /// carrying its label and its counts: the width, the height and the
    /// RGBA8 pixels. A pure function of the pixels, the labels and the
    /// counts; the frame times are not drawn.
    pub fn canvas(&self) -> (image: (u32, u32, Vec<u8>))
        requires
            self.frames@.len() > 0,
            strip_fits(self.frames@),
        ensures
            image.0 == widths_before(self.frames@, self.frames@.len() as int),
            image.1 == tallest_of(self.frames@, self.frames@.len() as int) + GUTTER,
            image.2@ == tiled(self.frames@, image.0 as int, tallest_of(self.frames@, self.frames@.len() as int), self.frames@.len() as int),
            image.2@.len() == image.0 * image.1 * 4,
    {
        let ghost frames = self.frames@;
        let n = self.frames.len();
        let mut width: u32 = 0;
        let mut tallest: u32 = 0;
        let mut i: usize = 0;
        while i < n
            invariant
                n == frames.len(),
                frames == self.frames@,
                0 <= i <= n,
                strip_fits(frames),
                width == widths_before(frames, i as int),
                tallest == tallest_of(frames, i as int),
            decreases n - i,
        {
            proof {
                widths_grow(frames, i + 1, n as int);
                if i + 1 < n {
                    tallest_bounds(frames, i as int, n as int);
                }
                tallest_bounds(frames, i as int, n as int);
            }
            width = width + self.frames[i].width;
            if self.frames[i].height > tallest {
                tallest = self.frames[i].height;
            }
            i = i + 1;
        }
        let height = tallest + GUTTER;
        let ghost total = (height * width * 4) as int;
        assert(height * width * 4 <= u32::MAX) by (nonlinear_arith)
            requires (height * width + 16) * 4 <= u32::MAX, height >= 0, width >= 0;
        assert(width * height * 4 <= u32::MAX && width * height <= u32::MAX) by (nonlinear_arith)
            requires height * width * 4 <= u32::MAX, height >= 0, width >= 0;
        let pixels = width * height;
        let mut canvas: Vec<u8> = Vec::new();
        let mut p: u32 = 0;
        while p < pixels
            invariant
                pixels == width * height,
                pixels * 4 <= u32::MAX,
                0 <= p <= pixels,
                canvas@ == backdrop(p * 4),
            decreases pixels - p,
        {
            canvas.push(BACKGROUND[0]);
            canvas.push(BACKGROUND[1]);
            canvas.push(BACKGROUND[2]);
            canvas.push(BACKGROUND[3]);
            p = p + 1;
            assert(canvas@ =~= backdrop(p * 4));
        }
        assert(canvas@ == tiled(frames, width as int, tallest as int, 0)) by {
            assert(width * (tallest + GUTTER) * 4 == p * 4) by (nonlinear_arith)
                requires p == width * height, height == tallest + GUTTER;
        }
        let mut x: u32 = 0;
        let mut index: usize = 0;
        while index < n
            invariant
                n == frames.len(),
                frames == self.frames@,
                0 <= index <= n,
                strip_fits(frames),
                width == widths_before(frames, n as int),
                tallest == tallest_of(frames, n as int),
                height == tallest + GUTTER,
                canvas@.len() == width * height * 4,
                x == widths_before(frames, index as int),
                canvas@ == tiled(frames, width as int, tallest as int, index as int),
            decreases n - index,
        {
            let frame = &self.frames[index];
            proof {
                widths_grow(frames, index + 1, n as int);
                tallest_bounds(frames, index as int, n as int);
                let fw = frame.width as int;
                let fh = frame.height as int;
                let w = width as int;
                let h = height as int;
                assert(fh * w * 4 <= h * w * 4) by (nonlinear_arith)
                    requires fh <= h, w >= 0;
                assert(fw * fh * 4 <= w * h * 4) by (nonlinear_arith)
                    requires fw <= w, fh <= h, fw >= 0, fh >= 0;
                assert(w * h * 4 == h * w * 4) by (nonlinear_arith);
                let room = gutter_room(fw);
                assert(8 * room + 8 <= fw + 8);
                gutter_line_fits(w, h, tallest as int, x as int, fw, room, 0);
                gutter_line_fits(w, h, tallest as int, x as int, fw, room, 1);
                gutter_line_fits(w, h, tallest as int, x as int, fw, room, 2);
            }
            blit(&mut canvas, width, x, 0, frame);
            gutter(&mut canvas, width, x, tallest, frame.width, index, frame);
            x = x + frame.width;
            index = index + 1;
        }
        (width, height, canvas)
    }

    /// The strip's canvas (see [`Self::canvas`]) as a PNG file: `None` only
    /// when its frames have no width between them, which PNG cannot hold.
    pub fn png(&self) -> (png: Option<Vec<u8>>)
        requires
            self.frames@.len() > 0,
            strip_fits(self.frames@),
        ensures
            ({
                let n = self.frames@.len() as int;
                let width = widths_before(self.frames@, n);
                let tallest = tallest_of(self.frames@, n);
                &&& width > 0 ==> (png is Some && png->0@ == png_rgba8_of(
                    width as u32,
                    (tallest + GUTTER) as u32,
                    tiled(self.frames@, width, tallest, n),
                ))
                &&& width == 0 ==> (png is None)
            }),
    {
        let (width, height, canvas) = self.canvas();
        encode_rgba_png(width, height, canvas.as_slice())
    }
}

} // verus!
