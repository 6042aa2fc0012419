//! One frame of glyphs.
//!
//! Only the part of the viewport nearest its origin is drawn: 66 hundredths
//! of its width and of its height, rounded down. A frame holds one glyph for
//! each cell of that part, row by row from the top, each row from the left.

use crate::charset::{glyph_of, level_to_glyph};
use crate::config::Config;
use vstd::prelude::*;

verus! {

/// The share of each viewport extent that is drawn, in hundredths.
pub const DRAWN_HUNDREDTHS: u32 = 66;

/// The number of cells that are drawn along an extent of `extent` cells.
pub open spec fn drawn(extent: int) -> int {
    extent * (DRAWN_HUNDREDTHS as int) / 100
}

/// The width and height of the part of the viewport that is drawn.
pub open spec fn drawn_size(config: Config) -> (int, int) {
    (drawn(config.viewport_size().0 as int), drawn(config.viewport_size().1 as int))
}

/// Whether `glyph` may stand in the cell at column `x` of row `y`: it is the
/// glyph of a brightness level that `level_at` may answer for that cell.
pub open spec fn is_cell<F: Fn(u16, u16) -> i64>(
    level_at: F,
    x: u16,
    y: u16,
    use_extended_charset: bool,
    glyph: char,
) -> bool {
    exists|level: i64| #[trigger]
        call_ensures(level_at, (x, y), level) && glyph == glyph_of(
            level as int,
            use_extended_charset,
        )
}

/// The number of cells that are drawn along an extent of `extent` cells.
pub fn drawn_extent(extent: u16) -> (cells: u16)
    ensures
        cells == drawn(extent as int),
        cells <= extent,
{
    let scaled: u32 = extent as u32 * DRAWN_HUNDREDTHS;
    (scaled / 100) as u16
}

/// The glyphs of one row: for each drawn column, the glyph of the level that
/// `level_at` answers for the cell.
pub fn render_row<F: Fn(u16, u16) -> i64>(config: &Config, y: u16, level_at: &F) -> (row: Vec<
    char,
>)
    requires
        forall|x: u16| x < drawn_size(*config).0 ==> call_requires(*level_at, (x, y)),
    ensures
        row.len() == drawn_size(*config).0,
        forall|x: int|
            0 <= x < row.len() ==> is_cell(*level_at, x as u16, y, config.hd(), #[trigger] row[x]),
{
    let width = drawn_extent(config.viewport_size().0);
    let hd = config.hd();
    let mut row: Vec<char> = Vec::new();
    let mut x: u16 = 0;
    while x < width
        invariant
            x <= width,
            width == drawn_size(*config).0,
            hd == config.hd(),
            row.len() == x,
            forall|x: u16| x < width ==> call_requires(*level_at, (x, y)),
            forall|i: int|
                0 <= i < row.len() ==> is_cell(*level_at, i as u16, y, hd, #[trigger] row[i]),
        decreases width - x,
    {
        let level = level_at(x, y);
        let glyph = level_to_glyph(level, hd);
        assert(is_cell(*level_at, x, y, hd, glyph));
        row.push(glyph);
        x += 1;
    }
    row
}

/// The glyphs of one frame: for each cell of the drawn part of the viewport,
/// the glyph of the level that `level_at` answers for it. `level_at` takes
/// the column and the row of a cell, and is asked for drawn cells only.
pub fn render<F: Fn(u16, u16) -> i64>(config: &Config, level_at: F) -> (frame: Vec<Vec<char>>)
    requires
        forall|x: u16, y: u16|
            x < drawn_size(*config).0 && y < drawn_size(*config).1 ==> call_requires(
                level_at,
                (x, y),
            ),
    ensures
        frame.len() == drawn_size(*config).1,
        forall|y: int| 0 <= y < frame.len() ==> (#[trigger] frame[y]).len() == drawn_size(*config).0,
        forall|x: int, y: int|
            0 <= y < frame.len() && 0 <= x < frame[y].len() ==> is_cell(
                level_at,
                x as u16,
                y as u16,
                config.hd(),
                #[trigger] frame[y][x],
            ),
{
    let height = drawn_extent(config.viewport_size().1);
    let mut frame: Vec<Vec<char>> = Vec::new();
    let mut y: u16 = 0;
    while y < height
        invariant
            y <= height,
            height == drawn_size(*config).1,
            frame.len() == y,
            forall|x: u16, y: u16|
                x < drawn_size(*config).0 && y < height ==> call_requires(level_at, (x, y)),
            forall|j: int|
                0 <= j < frame.len() ==> (#[trigger] frame[j]).len() == drawn_size(*config).0,
            forall|i: int, j: int|
                0 <= j < frame.len() && 0 <= i < frame[j].len() ==> is_cell(
                    level_at,
                    i as u16,
                    j as u16,
                    config.hd(),
                    #[trigger] frame[j][i],
                ),
        decreases height - y,
    {
        let row = render_row(config, y, &level_at);
        frame.push(row);
        y += 1;
    }
    frame
}

} // verus!
