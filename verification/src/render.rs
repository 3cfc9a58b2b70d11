//! Text rendering helpers for image previews on terminals without graphics.

use vstd::prelude::*;

verus! {

/// The brightness ramp used for ASCII previews, darkest first.
pub open spec fn ascii_ramp() -> Seq<char> {
    seq![' ', '.', ':', '-', '=', '+', '*', '#', '%', '@']
}

/// The block ramp used for Unicode previews, darkest first.
pub open spec fn block_ramp() -> Seq<char> {
    seq![' ', '\u{2591}', '\u{2592}', '\u{2593}', '\u{2588}']
}

/// Index into a ramp of `n` characters for a brightness in `0..=255`.
pub open spec fn ramp_index(brightness: u8, n: nat) -> int {
    (brightness as int * (n as int - 1)) / 255
}

/// Index into the ASCII ramp: the brightness scaled to `0..=9`, rounded
/// up, so that black alone is blank, white alone is `@`, and the middle
/// brightness 127 lands on the middle character `+`.
pub open spec fn ascii_index(brightness: u8) -> int {
    (brightness as int * 9 + 254) / 255
}

/// Map a brightness (0-255) to an ASCII character.
pub fn brightness_to_ascii(brightness: u8) -> (c: char)
    ensures
        c == ascii_ramp()[ascii_index(brightness)],
{
    let index: usize = (brightness as usize * 9 + 254) / 255;
    assert(0 <= index < 10) by (nonlinear_arith)
        requires index == (brightness as usize * 9 + 254) / 255, brightness <= 255;
    if index == 0 { ' ' }
    else if index == 1 { '.' }
    else if index == 2 { ':' }
    else if index == 3 { '-' }
    else if index == 4 { '=' }
    else if index == 5 { '+' }
    else if index == 6 { '*' }
    else if index == 7 { '#' }
    else if index == 8 { '%' }
    else { '@' }
}


/// Map a brightness (0-255) to a block character.
pub fn brightness_to_block(brightness: u8) -> (c: char)
    ensures
        c == block_ramp()[ramp_index(brightness, 5)],
{
    let index: usize = (brightness as usize * 4) / 255;
    assert(0 <= index < 5) by (nonlinear_arith)
        requires index == (brightness as usize * 4) / 255, brightness <= 255;
    if index == 0 { ' ' }
    else if index == 1 { '\u{2591}' }
    else if index == 2 { '\u{2592}' }
    else if index == 3 { '\u{2593}' }
    else { '\u{2588}' }
}

/// Perceived brightness of an RGBA pixel, scaled by its alpha.
pub open spec fn rgba_brightness(r: int, g: int, b: int, a: int) -> int {
    ((r * 299 + g * 587 + b * 114) / 1000) * a / 255
}

/// The brightness of pixel (`x`, `y`) of an RGBA image `width` pixels
/// wide, or 0 outside the data.
pub open spec fn spec_pixel_brightness(data: Seq<u8>, x: int, y: int, width: int) -> int {
    let idx = (y * width + x) * 4;
    if idx + 3 >= data.len() {
        0
    } else {
        rgba_brightness(data[idx] as int, data[idx + 1] as int, data[idx + 2] as int, data[idx + 3] as int)
    }
}

/// The index of a pixel's first byte fits the machine.
pub open spec fn pixel_index_fits(x: int, y: int, width: int) -> bool {
    (y * width + x) * 4 + 3 <= usize::MAX
}

/// The brightness of a pixel of RGBA data (0 outside the data).
pub fn sample_pixel_brightness(data: &[u8], x: usize, y: usize, width: usize) -> (b: u8)
    requires
        pixel_index_fits(x as int, y as int, width as int),
    ensures
        b == spec_pixel_brightness(data@, x as int, y as int, width as int),
{
    assert(0 <= y * width <= usize::MAX) by (nonlinear_arith)
        requires (y * width + x) * 4 + 3 <= usize::MAX, 0 <= x, 0 <= y, 0 <= width;
    let idx = (y * width + x) * 4;
    if idx + 3 >= data.len() {
        return 0;
    }
    let r = data[idx] as u32;
    let g = data[idx + 1] as u32;
    let b = data[idx + 2] as u32;
    let a = data[idx + 3] as u32;
    let lum = (r * 299 + g * 587 + b * 114) / 1000;
    assert(lum <= 255) by (nonlinear_arith)
        requires lum == (r * 299 + g * 587 + b * 114) / 1000, r <= 255, g <= 255, b <= 255;
    assert(lum * a <= 255 * 255) by (nonlinear_arith)
        requires lum <= 255, a <= 255;
    let v = lum * a / 255;
    assert(v <= 255) by (nonlinear_arith)
        requires v == lum * a / 255, lum <= 255, a <= 255;
    v as u8
}

/// The character for a pixel: a block character, or an ASCII one.
pub open spec fn pixel_char(data: Seq<u8>, x: int, y: int, width: int, blocks: bool) -> char {
    let b = spec_pixel_brightness(data, x, y, width) as u8;
    if blocks {
        block_ramp()[ramp_index(b, 5)]
    } else {
        ascii_ramp()[ascii_index(b)]
    }
}

/// The text lines of an image sampled at columns `xs` and rows `ys`: one
/// line per row, one character per column.
pub fn image_lines(data: &Vec<u8>, width: usize, xs: &Vec<usize>, ys: &Vec<usize>, blocks: bool) -> (lines: Vec<String>)
    requires
        forall|i: int, j: int| 0 <= i < xs@.len() && 0 <= j < ys@.len() ==> pixel_index_fits(#[trigger] xs@[i] as int, #[trigger] ys@[j] as int, width as int),
    ensures
        lines@.len() == ys@.len(),
        forall|j: int| 0 <= j < ys@.len() ==> (#[trigger] lines@[j])@ == Seq::new(xs@.len(), |i: int| pixel_char(data@, xs@[i] as int, ys@[j] as int, width as int, blocks)),
{
    let mut lines: Vec<String> = Vec::new();
    let mut j: usize = 0;
    while j < ys.len()
        invariant
            j <= ys@.len(),
            lines@.len() == j,
            forall|i: int, jj: int| 0 <= i < xs@.len() && 0 <= jj < ys@.len() ==> pixel_index_fits(#[trigger] xs@[i] as int, #[trigger] ys@[jj] as int, width as int),
            forall|k: int| 0 <= k < j ==> (#[trigger] lines@[k])@ == Seq::new(xs@.len(), |i: int| pixel_char(data@, xs@[i] as int, ys@[k] as int, width as int, blocks)),
        decreases ys@.len() - j,
    {
        let y = ys[j];
        let mut line: Vec<char> = Vec::new();
        let mut i: usize = 0;
        while i < xs.len()
            invariant
                i <= xs@.len(),
                j < ys@.len(),
                y == ys@[j as int],
                forall|a: int, jj: int| 0 <= a < xs@.len() && 0 <= jj < ys@.len() ==> pixel_index_fits(#[trigger] xs@[a] as int, #[trigger] ys@[jj] as int, width as int),
                line@.len() == i,
                forall|k: int| 0 <= k < i ==> #[trigger] line@[k] == pixel_char(data@, xs@[k] as int, y as int, width as int, blocks),
            decreases xs@.len() - i,
        {
            let x = xs[i];
            assert(pixel_index_fits(xs@[i as int] as int, ys@[j as int] as int, width as int));
            let b = sample_pixel_brightness(data.as_slice(), x, y, width);
            let c = if blocks { brightness_to_block(b) } else { brightness_to_ascii(b) };
            line.push(c);
            i = i + 1;
        }
        let s = crate::text::string_of(&line);
        assert(s@ =~= Seq::new(xs@.len(), |a: int| pixel_char(data@, xs@[a] as int, ys@[j as int] as int, width as int, blocks)));
        lines.push(s);
        j = j + 1;
    }
    lines
}

} // verus!
