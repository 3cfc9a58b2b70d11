//! Escape sequences that place and clear Sixel graphics on the terminal.

use vstd::prelude::*;
use crate::layout::Area;
use crate::text::{decimal, push_decimal};

verus! {

/// `a + b`, stopping at the largest `u16`.
pub open spec fn sat_add16(a: u16, b: u16) -> u16 {
    if a + b <= u16::MAX { (a + b) as u16 } else { u16::MAX }
}

/// The sequence that moves the cursor to `row`, `col` (1-based).
pub open spec fn spec_move_to(row: u16, col: u16) -> Seq<char> {
    "\x1b["@ + decimal(row as nat) + ";"@ + decimal(col as nat) + "H"@
}

/// `n` spaces.
pub open spec fn spaces(n: nat) -> Seq<char> {
    Seq::new(n, |i: int| ' ')
}

/// Lines `0..k` of the blanking of `area`: each moves to its row and writes
/// a row of spaces.
pub open spec fn blank_lines(area: Area, k: nat) -> Seq<char>
    decreases k,
{
    if k == 0 {
        Seq::empty()
    } else {
        blank_lines(area, (k - 1) as nat) + spec_move_to(
            sat_add16(sat_add16(area.y, 1), (k - 1) as u16),
            sat_add16(area.x, 1),
        ) + spaces(area.width as nat)
    }
}

/// Blank the cells of `area`, then ask the terminal to drop Sixel
/// graphics.
pub open spec fn spec_clear_area(area: Area) -> Seq<char> {
    blank_lines(area, area.height as nat) + "\x1b[?2J"@
}

fn push_move_to(s: &mut String, row: u16, col: u16)
    ensures
        final(s)@ == old(s)@ + spec_move_to(row, col),
{
    s.append("\x1b[");
    push_decimal(s, row as u128);
    s.append(";");
    push_decimal(s, col as u128);
    s.append("H");
    assert(final(s)@ =~= old(s)@ + spec_move_to(row, col));
}

/// The text that clears a Sixel image from `area`.
pub fn clear_sixel_area_text(area: Area) -> (r: String)
    ensures
        r@ == spec_clear_area(area),
{
    let mut r = String::new();
    let start_row = area.y.saturating_add(1);
    let start_col = area.x.saturating_add(1);
    let mut line: u16 = 0;
    while line < area.height
        invariant
            line <= area.height,
            start_row == sat_add16(area.y, 1),
            start_col == sat_add16(area.x, 1),
            r@ == blank_lines(area, line as nat),
        decreases area.height - line,
    {
        let row = start_row.saturating_add(line);
        push_move_to(&mut r, row, start_col);
        let mut k: u16 = 0;
        let ghost before = r@;
        while k < area.width
            invariant
                k <= area.width,
                r@ == before + spaces(k as nat),
            decreases area.width - k,
        {
            crate::text::push_char(&mut r, ' ');
            k = k + 1;
            assert(r@ =~= before + spaces(k as nat));
        }
        line = line + 1;
        assert(r@ =~= blank_lines(area, line as nat));
    }
    r.append("\x1b[?2J");
    r
}

/// The text that draws Sixel data in `area`: clear it, move to its corner,
/// write the data.
pub open spec fn spec_sixel_to_area(area: Area, data: Seq<char>) -> Seq<char> {
    spec_clear_area(area) + spec_move_to(sat_add16(area.y, 1), sat_add16(area.x, 1)) + data
}

/// The text that draws Sixel `data` in `area`.
pub fn render_sixel_to_area_text(area: Area, data: &str) -> (r: String)
    ensures
        r@ == spec_sixel_to_area(area, data@),
{
    let mut r = clear_sixel_area_text(area);
    push_move_to(&mut r, area.y.saturating_add(1), area.x.saturating_add(1));
    r.append(data);
    r
}

/// The text that drops all Sixel graphics, clears the screen and homes the
/// cursor.
pub const CLEAR_ALL_SIXEL: &'static str = "\x1b[?2J\x1b[2J\x1b[H";

} // verus!
