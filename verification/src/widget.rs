use vstd::prelude::*;

use crate::cursor::{scroll_offset, sp_next, sp_prev, sp_scroll};
use crate::grid::{render_grid, sp_grid_cell, Grid};
use crate::layout::{layout, sp_layout, Cell, PosV, TextV};
use crate::style::{spec_default_style, JsonWidgetStyle};
use crate::value::{cap_usize, edit_count, spec_edit_count, Value};

verus! {

/// The cursor's edit position in the model `m`, under the widget's index
/// `idx`: the index is clamped to the positions that exist; an empty index
/// has no cursor.
pub open spec fn sp_cursor(m: TextV, idx: nat) -> Option<PosV> {
    if m.positions.len() == 0 {
        Option::None
    } else if idx < m.positions.len() {
        Option::Some(m.positions[idx as int])
    } else {
        Option::Some(m.positions[m.positions.len() - 1])
    }
}

/// The cell a render pass of `v` shows at `(r, c)` in a viewport of
/// `viewport` rows: the laid-out rows under the scroll offset that keeps the
/// cursor visible, padded with `fill`, with the cursor's span reversed.
pub open spec fn sp_frame_cell(
    v: Value,
    sty: JsonWidgetStyle,
    idx: nat,
    viewport: nat,
    fill: Cell,
    r: int,
    c: int,
) -> Cell {
    let m = sp_layout(v, sty);
    let cur = sp_cursor(m, idx);
    let row = match cur {
        Option::Some(p) => p.row,
        Option::None => 0,
    };
    sp_grid_cell(m.lines, cur, sp_scroll(row, viewport, m.lines.len()), fill, r, c)
}

/// A navigable view of one JSON document: the document, the style bindings,
/// and the cursor over its edit positions.
#[derive(Debug)]
pub struct JsonWidget {
    pub style: JsonWidgetStyle,
    pub json: Value,
    pub edit_index: usize,
    pub edit_total: usize,
}

impl JsonWidget {
    /// The widget's invariant: the stored position total matches the
    /// document, and the cursor is clamped into the positions that exist.
    pub open spec fn wf(&self) -> bool {
        &&& self.edit_total as nat == cap_usize(spec_edit_count(self.json))
        &&& self.edit_index < self.edit_total || (self.edit_total == 0 && self.edit_index == 0)
    }

    /// The document currently loaded.
    pub open spec fn spec_json(&self) -> Value {
        self.json
    }

    /// The cursor's current index.
    pub open spec fn spec_cursor(&self) -> nat {
        self.edit_index as nat
    }

    /// A widget over `value`, with the default styles and the cursor on the
    /// first edit position.
    pub fn new(value: Value) -> (w: Self)
        ensures
            w.wf(),
            w.spec_json() == value,
            w.spec_cursor() == 0,
            w.style == spec_default_style(),
    {
        let edit_total: usize = edit_count(&value);
        JsonWidget { style: JsonWidgetStyle::default(), json: value, edit_index: 0, edit_total }
    }

    /// Replace the document wholesale; the cursor resets to the first
    /// position.
    pub fn load(&mut self, value: Value)
        ensures
            final (self).wf(),
            final (self).spec_json() == value,
            final (self).spec_cursor() == 0,
            final (self).style == old(self).style,
    {
        let edit_total: usize = edit_count(&value);
        self.json = value;
        self.edit_index = 0;
        self.edit_total = edit_total;
    }

    /// Where the cursor stands.
    pub fn cursor(&self) -> (i: usize)
        ensures
            i == self.spec_cursor(),
    {
        self.edit_index
    }

    /// Move the cursor to the next edit position, saturating at the last.
    pub fn next_edit(&mut self)
        requires
            old(self).wf(),
        ensures
            final (self).wf(),
            final (self).spec_cursor() == sp_next(
                old(self).spec_cursor(),
                old(self).edit_total as nat,
            ),
            final (self).spec_json() == old(self).spec_json(),
            final (self).style == old(self).style,
            final (self).edit_total == old(self).edit_total,
    {
        if self.edit_total > 0 {
            if self.edit_index + 1 < self.edit_total {
                self.edit_index = self.edit_index + 1;
            } else {
                self.edit_index = self.edit_total - 1;
            }
        }
    }

    /// Move the cursor to the previous edit position, saturating at the
    /// first.
    pub fn prev_edit(&mut self)
        requires
            old(self).wf(),
        ensures
            final (self).wf(),
            final (self).spec_cursor() == sp_prev(old(self).spec_cursor()),
            final (self).spec_json() == old(self).spec_json(),
            final (self).style == old(self).style,
            final (self).edit_total == old(self).edit_total,
    {
        if self.edit_index > 0 {
            self.edit_index = self.edit_index - 1;
        }
    }

    /// Render one frame: lay the document out, pick the scroll offset that
    /// keeps the cursor's row visible, and fill a `width` by `height` grid,
    /// with the cursor's span in reverse video.  Every cell is pinned by
    /// `sp_frame_cell`: rendering is a pure function of document, styles,
    /// cursor and viewport.
    pub fn render(&self, width: usize, height: usize, fill: Cell) -> (g: Grid)
        requires
            self.wf(),
        ensures
            g.rows@.len() == height,
            forall|r: int| 0 <= r < height ==> (#[trigger] g.rows@[r])@.len() == width,
            forall|r: int, c: int|
                0 <= r < height && 0 <= c < width ==> #[trigger] g.rows@[r]@[c] == sp_frame_cell(
                    self.spec_json(),
                    self.style,
                    self.spec_cursor(),
                    height as nat,
                    fill,
                    r,
                    c,
                ),
    {
        let t = layout(&self.json, &self.style);
        let ghost m = sp_layout(self.json, self.style);
        let n: usize = t.position_count();
        let idx: usize = if n == 0 {
            0
        } else if self.edit_index < n {
            self.edit_index
        } else {
            n - 1
        };
        let cursor = t.resolve(idx);
        proof {
            assert(crate::grid::opt_pos_view(cursor) == sp_cursor(m, self.edit_index as nat));
        }
        let cursor_row: usize = match &cursor {
            Some(p) => p.row,
            None => 0,
        };
        let total: usize = t.line_count();
        let scroll: usize = scroll_offset(cursor_row, height, total);
        render_grid(&t, cursor, width, height, scroll, fill, Ghost(m.lines))
    }
}

} // verus!
