use vstd::prelude::*;

use crate::layout::{Cell, EditPosition, JsonText, PosV, rows_model};
use crate::style::spec_reverse;

verus! {

/// The edit position as its mathematical model, where there is one.
pub open spec fn opt_pos_view(cursor: Option<EditPosition>) -> Option<PosV> {
    match cursor {
        Option::Some(p) => Option::Some(p@),
        Option::None => Option::None,
    }
}

/// The cell shown at grid row `r`, column `c`: the rendered cell under the
/// vertical scroll where one exists, the fill cell everywhere else; a cell
/// inside the cursor's span is shown in reverse video.
pub open spec fn sp_grid_cell(
    lines: Seq<Seq<Cell>>,
    cursor: Option<PosV>,
    scroll: nat,
    fill: Cell,
    r: int,
    c: int,
) -> Cell {
    let base = if scroll + r < lines.len() && c < lines[scroll + r].len() {
        lines[scroll + r][c]
    } else {
        fill
    };
    let hit = match cursor {
        Option::Some(p) => scroll + r == p.row && p.col_start <= c < p.col_end,
        Option::None => false,
    };
    if hit {
        Cell { ch: base.ch, style: spec_reverse(base.style) }
    } else {
        base
    }
}

/// A fixed-size rectangular grid of styled cells: one rendered frame.
#[derive(Debug)]
pub struct Grid {
    pub rows: Vec<Vec<Cell>>,
}

/// Render a layout pass into a `width` by `height` grid, scrolled down by
/// `scroll` rows, padded with `fill`, with the cursor's span reversed.
pub(crate) fn render_grid(
    t: &JsonText,
    cursor: Option<EditPosition>,
    width: usize,
    height: usize,
    scroll: usize,
    fill: Cell,
    Ghost(ml): Ghost<Seq<Seq<Cell>>>,
) -> (g: Grid)
    requires
        rows_model(t.lines@, ml),
    ensures
        g.rows@.len() == height,
        forall|r: int| 0 <= r < height ==> (#[trigger] g.rows@[r])@.len() == width,
        forall|r: int, c: int|
            0 <= r < height && 0 <= c < width ==> #[trigger] g.rows@[r]@[c] == sp_grid_cell(
                ml,
                opt_pos_view(cursor),
                scroll as nat,
                fill,
                r,
                c,
            ),
{
    let mut rows: Vec<Vec<Cell>> = Vec::new();
    for r in 0..height
        invariant
            rows_model(t.lines@, ml),
            rows@.len() == r,
            forall|k: int| 0 <= k < r ==> (#[trigger] rows@[k])@.len() == width,
            forall|k: int, c: int|
                0 <= k < r && 0 <= c < width ==> #[trigger] rows@[k]@[c] == sp_grid_cell(
                    ml,
                    opt_pos_view(cursor),
                    scroll as nat,
                    fill,
                    k,
                    c,
                ),
    {
        let mut row: Vec<Cell> = Vec::new();
        for c in 0..width
            invariant
                rows_model(t.lines@, ml),
                row@.len() == c,
                forall|j: int|
                    0 <= j < c ==> #[trigger] row@[j] == sp_grid_cell(
                        ml,
                        opt_pos_view(cursor),
                        scroll as nat,
                        fill,
                        r as int,
                        j,
                    ),
        {
            let visible = scroll < t.lines.len() && r < t.lines.len() - scroll;
            let base: Cell = if visible {
                let sr: usize = scroll + r;
                let line = &t.lines[sr];
                if c < line.len() {
                    line[c]
                } else {
                    fill
                }
            } else {
                fill
            };
            let mut hit = false;
            match &cursor {
                Some(p) => {
                    if p.row >= scroll && p.row - scroll == r && p.col_start <= c && c
                        < p.col_end {
                        hit = true;
                    }
                },
                None => {},
            }
            let cell = if hit {
                Cell {
                    ch: base.ch,
                    style: crate::style::TextStyle { reversed: true, ..base.style },
                }
            } else {
                base
            };
            row.push(cell);
        }
        rows.push(row);
    }
    Grid { rows }
}

} // verus!
