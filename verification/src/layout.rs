use vstd::prelude::*;

use crate::style::{JsonWidgetStyle, TextStyle};
use crate::value::{
    cap_usize, counts_sum, entry_counts_sum, entry_heights_sum, heights_sum, newline_count,
    sat_add, spec_edit_count, spec_height, Value,
};

verus! {

/// One styled character cell of rendered output.
#[derive(Debug, Clone, Copy, PartialEq, Eq, Structural)]
pub struct Cell {
    pub ch: char,
    pub style: TextStyle,
}

/// Whether an edit position selects an object key or a leaf value.
#[derive(Debug, Clone, Copy, PartialEq, Eq, Structural)]
pub enum PositionKind {
    Key,
    Leaf,
}

/// One navigable unit: an object key or a leaf value, with the row it starts
/// on and the half-open column range it occupies on that row.
#[derive(Debug, Clone, Copy, PartialEq, Eq, Structural)]
pub struct EditPosition {
    pub row: usize,
    pub col_start: usize,
    pub col_end: usize,
    pub kind: PositionKind,
}

/// The mathematical model of one edit position, with unbounded coordinates.
#[verifier::ext_equal]
pub struct PosV {
    pub row: nat,
    pub col_start: nat,
    pub col_end: nat,
    pub kind: PositionKind,
}

impl View for EditPosition {
    type V = PosV;

    open spec fn view(&self) -> PosV {
        PosV {
            row: self.row as nat,
            col_start: self.col_start as nat,
            col_end: self.col_end as nat,
            kind: self.kind,
        }
    }
}

/// The mathematical model of a layout pass's output: the rendered rows of
/// cells and the ordered edit positions.
#[verifier::ext_equal]
pub struct TextV {
    pub lines: Seq<Seq<Cell>>,
    pub positions: Seq<PosV>,
}

/// `text` as cells, each styled with `style`.
/// `s` with one more cell holding `c`, styled with `style`.
pub open spec fn cells_push(s: Seq<Cell>, c: char, style: TextStyle) -> Seq<Cell> {
    s.push(Cell { ch: c, style: style })
}

pub open spec fn cells_of(text: Seq<char>, style: TextStyle) -> Seq<Cell>
    decreases text.len(),
{
    if text.len() == 0 {
        Seq::empty()
    } else {
        cells_push(cells_of(text.subrange(0, text.len() - 1), style), text[text.len() - 1], style)
    }
}

proof fn lemma_cells_push_props(s: Seq<Cell>, c: char, style: TextStyle)
    ensures
        cells_push(s, c, style).len() == s.len() + 1,
        forall|i: int| 0 <= i < s.len() ==> #[trigger] cells_push(s, c, style)[i] == s[i],
        cells_push(s, c, style)[s.len() as int] == (Cell { ch: c, style: style }),
{
}

/// The length of a styled text is the length of its text.
pub proof fn lemma_cells_of_len(text: Seq<char>, style: TextStyle)
    ensures
        cells_of(text, style).len() == text.len(),
    decreases text.len(),
{
    reveal_with_fuel(cells_of, 2);
    if text.len() > 0 {
        let front = text.subrange(0, text.len() - 1);
        lemma_cells_of_len(front, style);
        let cell = Cell { ch: text[text.len() - 1], style: style };
        assert(cells_of(text, style) == cells_push(cells_of(front, style), text[text.len() - 1], style));
        lemma_cells_push_props(cells_of(front, style), text[text.len() - 1], style);
    }
}

/// Each cell of a styled text holds the matching character and the style.
pub proof fn lemma_cells_of_index(text: Seq<char>, style: TextStyle, i: int)
    requires
        0 <= i < text.len(),
    ensures
        cells_of(text, style)[i] == (Cell { ch: text[i], style: style }),
    decreases text.len(),
{
    reveal_with_fuel(cells_of, 2);
    let front = text.subrange(0, text.len() - 1);
    let cell = Cell { ch: text[text.len() - 1], style: style };
    lemma_cells_of_len(front, style);
    assert(cells_of(text, style) == cells_push(cells_of(front, style), text[text.len() - 1], style));
    lemma_cells_push_props(cells_of(front, style), text[text.len() - 1], style);
    if i < text.len() - 1 {
        lemma_cells_of_index(front, style, i);
    }
}

/// `n` space cells styled with `style`.
pub open spec fn spaces(n: nat, style: TextStyle) -> Seq<Cell>
    decreases n,
{
    if n == 0 {
        Seq::empty()
    } else {
        spaces((n - 1) as nat, style).push(Cell { ch: ' ', style: style })
    }
}

/// An indent of `n` spaces is `n` cells long.
pub proof fn lemma_spaces_len(n: nat, style: TextStyle)
    ensures
        spaces(n, style).len() == n,
    decreases n,
{
    if n > 0 {
        lemma_spaces_len((n - 1) as nat, style);
    }
}

/// `st` with `text` appended to its current (last) row.
pub open spec fn sp_append(st: TextV, text: Seq<char>, style: TextStyle) -> TextV
    recommends
        st.lines.len() >= 1,
{
    TextV {
        lines: st.lines.update(
            st.lines.len() - 1,
            st.lines.last() + cells_of(text, style),
        ),
        positions: st.positions,
    }
}

/// `st` with a fresh row of `indent` spaces.
pub open spec fn sp_new_line(st: TextV, indent: nat, style: TextStyle) -> TextV {
    TextV { lines: st.lines.push(spaces(indent, style)), positions: st.positions }
}

/// `st` after writing a scalar literal on the current row, recorded as one
/// leaf position spanning exactly the written text.
pub open spec fn sp_leaf(st: TextV, text: Seq<char>, style: TextStyle) -> TextV
    recommends
        st.lines.len() >= 1,
{
    let row = (st.lines.len() - 1) as nat;
    let c0 = st.lines.last().len();
    TextV {
        lines: sp_append(st, text, style).lines,
        positions: st.positions.push(
            PosV { row, col_start: c0, col_end: c0 + text.len(), kind: PositionKind::Leaf },
        ),
    }
}

/// `st` after writing a quoted object key on the current row, recorded as one
/// key position spanning the quoted text.
pub open spec fn sp_key(st: TextV, key: Seq<char>, style: TextStyle) -> TextV
    recommends
        st.lines.len() >= 1,
{
    let row = (st.lines.len() - 1) as nat;
    let c0 = st.lines.last().len();
    let quoted = sp_append(sp_append(sp_append(st, "\""@, style), key, style), "\""@, style);
    TextV {
        lines: quoted.lines,
        positions: st.positions.push(
            PosV { row, col_start: c0, col_end: c0 + key.len() + 2, kind: PositionKind::Key },
        ),
    }
}

/// The rows after writing one character of a string literal's body: a line
/// break opens a fresh row at the given indent, anything else lands on the
/// current row.
pub open spec fn sp_body_char(
    lines: Seq<Seq<Cell>>,
    c: char,
    sty: JsonWidgetStyle,
    indent: nat,
) -> Seq<Seq<Cell>>
    recommends
        lines.len() >= 1,
{
    if c == '\n' {
        lines.push(spaces(indent, sty.punctuation))
    } else {
        lines.update(lines.len() - 1, lines.last().push(Cell { ch: c, style: sty.string }))
    }
}

/// The rows after writing a string literal's body, character by character.
pub open spec fn sp_body(
    lines: Seq<Seq<Cell>>,
    s: Seq<char>,
    sty: JsonWidgetStyle,
    indent: nat,
) -> Seq<Seq<Cell>>
    decreases s.len(),
{
    if s.len() == 0 {
        lines
    } else {
        sp_body_char(sp_body(lines, s.subrange(0, s.len() - 1), sty, indent), s[s.len() - 1], sty, indent)
    }
}

/// `st` after writing a quoted string value: its body breaks to a fresh
/// indented row at each embedded line break, and one leaf position records,
/// on the row where the string starts, the span the string holds there.
pub open spec fn sp_string(st: TextV, s: Seq<char>, sty: JsonWidgetStyle, indent: nat) -> TextV
    recommends
        st.lines.len() >= 1,
{
    let row = (st.lines.len() - 1) as nat;
    let c0 = st.lines.last().len();
    let opened = sp_append(st, "\""@, sty.string);
    let body = TextV { lines: sp_body(opened.lines, s, sty, indent), positions: st.positions };
    let closed = sp_append(body, "\""@, sty.string);
    TextV {
        lines: closed.lines,
        positions: st.positions.push(
            PosV {
                row,
                col_start: c0,
                col_end: closed.lines[row as int].len(),
                kind: PositionKind::Leaf,
            },
        ),
    }
}

/// `st` after writing punctuation on the current row: punctuation is never
/// navigable, so no position is recorded.
pub open spec fn sp_punct(st: TextV, text: Seq<char>, sty: JsonWidgetStyle) -> TextV
    recommends
        st.lines.len() >= 1,
{
    sp_append(st, text, sty.punctuation)
}

/// The literal text of a boolean.
pub open spec fn bool_text(b: bool) -> Seq<char> {
    if b {
        "true"@
    } else {
        "false"@
    }
}

/// The indent of a container's children: two columns past the container's
/// own indent, capped at what a machine word holds.
pub open spec fn indent_step(indent: nat) -> nat {
    cap_usize(indent + 2)
}

/// The layout of `v` appended to `st`: depth-first and pre-order, children
/// indented two columns past their container's brackets, one edit position
/// per leaf and per object key, in visit order.
pub open spec fn sp_value(st: TextV, v: Value, sty: JsonWidgetStyle, indent: nat) -> TextV
    recommends
        st.lines.len() >= 1,
    decreases v, 1int,
{
    match v {
        Value::Null => sp_leaf(st, "null"@, sty.null),
        Value::Bool(b) => sp_leaf(st, bool_text(b), sty.boolean),
        Value::Number(n) => sp_leaf(st, n@, sty.number),
        Value::Text(s) => sp_string(st, s@, sty, indent),
        Value::Array(elems) => {
            let opened = sp_punct(st, "["@, sty);
            if elems@.len() == 0 {
                sp_punct(opened, "]"@, sty)
            } else {
                let inner = sp_elems(opened, elems@, sty, indent_step(indent));
                sp_punct(sp_new_line(inner, indent, sty.punctuation), "]"@, sty)
            }
        },
        Value::Object(entries) => {
            let opened = sp_punct(st, "{"@, sty);
            if entries@.len() == 0 {
                sp_punct(opened, "}"@, sty)
            } else {
                let inner = sp_entries(opened, entries@, sty, indent_step(indent));
                sp_punct(sp_new_line(inner, indent, sty.punctuation), "}"@, sty)
            }
        },
    }
}

/// The layout of an array's elements appended to `st`: each element starts on
/// a fresh row at the given indent.
pub open spec fn sp_elems(st: TextV, elems: Seq<Value>, sty: JsonWidgetStyle, indent: nat) -> TextV
    recommends
        st.lines.len() >= 1,
    decreases elems, 0int,
{
    if elems.len() == 0 {
        st
    } else {
        let prev = sp_elems(st, elems.subrange(0, elems.len() - 1), sty, indent);
        sp_value(sp_new_line(prev, indent, sty.punctuation), elems[elems.len() - 1], sty, indent)
    }
}

/// The layout of an object's entries appended to `st`: each entry starts on a
/// fresh row at the given indent with its quoted key, a `: ` separator, and
/// then the entry's value, which shares the key's first row.
pub open spec fn sp_entries(
    st: TextV,
    entries: Seq<(String, Value)>,
    sty: JsonWidgetStyle,
    indent: nat,
) -> TextV
    recommends
        st.lines.len() >= 1,
    decreases entries, 0int,
{
    if entries.len() == 0 {
        st
    } else {
        let prev = sp_entries(st, entries.subrange(0, entries.len() - 1), sty, indent);
        let e = entries[entries.len() - 1];
        sp_value(
            sp_punct(sp_key(sp_new_line(prev, indent, sty.punctuation), e.0@, sty.key), ": "@, sty),
            e.1,
            sty,
            indent,
        )
    }
}

/// The state a layout pass starts from: one empty row and no positions.
pub open spec fn sp_init() -> TextV {
    TextV { lines: seq![Seq::<Cell>::empty()], positions: Seq::empty() }
}

/// The full layout of `v` with the styles `sty`: a deterministic function of
/// the two.
pub open spec fn sp_layout(v: Value, sty: JsonWidgetStyle) -> TextV {
    sp_value(sp_init(), v, sty, 0)
}

/// A well-formed layout output: at least one row; every position's row lies
/// within the rows and the rows of successive positions never decrease; every
/// position's column range is ordered and lies within its row.
pub open spec fn wf(st: TextV) -> bool {
    &&& st.lines.len() >= 1
    &&& forall|i: int|
        0 <= i < st.positions.len() ==> (#[trigger] st.positions[i]).row < st.lines.len()
    &&& forall|i: int|
        0 <= i < st.positions.len() ==> (#[trigger] st.positions[i]).col_start
            <= st.positions[i].col_end
    &&& forall|i: int|
        0 <= i < st.positions.len() ==> (#[trigger] st.positions[i]).col_end <= st.lines[
            st.positions[i].row as int
        ].len()
    &&& forall|i: int, j: int|
        0 <= i <= j < st.positions.len() ==> (#[trigger] st.positions[i]).row
            <= (#[trigger] st.positions[j]).row
}

/// `next` only grows `prev`'s output: rows are kept (possibly extended in
/// place), positions are kept, and any added position starts no higher than
/// `prev`'s current row.
pub open spec fn extends(prev: TextV, next: TextV) -> bool {
    &&& prev.lines.len() <= next.lines.len()
    &&& forall|r: int|
        0 <= r < prev.lines.len() ==> (#[trigger] prev.lines[r]).len() <= next.lines[r].len()
    &&& prev.positions.len() <= next.positions.len()
    &&& forall|i: int|
        0 <= i < prev.positions.len() ==> #[trigger] next.positions[i] == prev.positions[i]
    &&& forall|i: int|
        prev.positions.len() <= i < next.positions.len() ==> (#[trigger] next.positions[i]).row
            >= prev.lines.len() - 1
}

proof fn lemma_extends_trans(a: TextV, b: TextV, c: TextV)
    requires
        extends(a, b),
        extends(b, c),
    ensures
        extends(a, c),
{
}

proof fn lemma_append_props(st: TextV, text: Seq<char>, style: TextStyle)
    requires
        wf(st),
    ensures
        wf(sp_append(st, text, style)),
        extends(st, sp_append(st, text, style)),
        sp_append(st, text, style).lines.len() == st.lines.len(),
        sp_append(st, text, style).positions == st.positions,
        sp_append(st, text, style).lines.last().len() == st.lines.last().len() + text.len(),
{
    lemma_cells_of_len(text, style);
    let st2 = sp_append(st, text, style);
    assert(st2.lines == st.lines.update(
        st.lines.len() - 1,
        st.lines.last() + cells_of(text, style),
    ));
    assert(st2.lines.last() == st.lines.last() + cells_of(text, style));
    assert(cells_of(text, style).len() == text.len());
}

proof fn lemma_new_line_props(st: TextV, indent: nat, style: TextStyle)
    requires
        wf(st),
    ensures
        wf(sp_new_line(st, indent, style)),
        extends(st, sp_new_line(st, indent, style)),
        sp_new_line(st, indent, style).lines.len() == st.lines.len() + 1,
        sp_new_line(st, indent, style).positions == st.positions,
{
}

proof fn lemma_leaf_props(st: TextV, text: Seq<char>, style: TextStyle)
    requires
        wf(st),
    ensures
        wf(sp_leaf(st, text, style)),
        extends(st, sp_leaf(st, text, style)),
        sp_leaf(st, text, style).lines.len() == st.lines.len(),
        sp_leaf(st, text, style).positions.len() == st.positions.len() + 1,
{
    lemma_append_props(st, text, style);
}

proof fn lemma_key_props(st: TextV, key: Seq<char>, style: TextStyle)
    requires
        wf(st),
    ensures
        wf(sp_key(st, key, style)),
        extends(st, sp_key(st, key, style)),
        sp_key(st, key, style).lines.len() == st.lines.len(),
        sp_key(st, key, style).positions.len() == st.positions.len() + 1,
{
    lemma_append_props(st, "\""@, style);
    let a1 = sp_append(st, "\""@, style);
    lemma_append_props(a1, key, style);
    let a2 = sp_append(a1, key, style);
    lemma_append_props(a2, "\""@, style);
    let a3 = sp_append(a2, "\""@, style);
    lemma_extends_trans(st, a1, a2);
    lemma_extends_trans(st, a2, a3);
    proof_strlit_quote();
}

proof fn proof_strlit_quote()
    ensures
        "\""@.len() == 1,
        "\""@[0] == '"',
{
    reveal_strlit("\"");
}

proof fn lemma_body_char_props(m: Seq<Seq<Cell>>, c: char, sty: JsonWidgetStyle, indent: nat)
    requires
        m.len() >= 1,
    ensures
        sp_body_char(m, c, sty, indent).len() == m.len() + (if c == '\n' {
            1nat
        } else {
            0nat
        }),
        forall|r: int|
            0 <= r < m.len() ==> (#[trigger] m[r]).len() <= sp_body_char(m, c, sty, indent)[r].len(),
{
    let out = sp_body_char(m, c, sty, indent);
    if c == '\n' {
        assert(out == m.push(spaces(indent, sty.punctuation)));
        assert forall|r: int| 0 <= r < m.len() implies (#[trigger] m[r]).len() <= out[r].len() by {
            assert(out[r] == m[r]);
        }
    } else {
        let u = m.update(m.len() - 1, m.last().push(Cell { ch: c, style: sty.string }));
        assert(out == u);
        assert forall|r: int| 0 <= r < m.len() implies (#[trigger] m[r]).len() <= out[r].len() by {
            if r == m.len() - 1 {
                assert(u[r] == m[r].push(Cell { ch: c, style: sty.string }));
            } else {
                assert(u[r] == m[r]);
            }
        }
    }
}

proof fn lemma_body_props(lines: Seq<Seq<Cell>>, s: Seq<char>, sty: JsonWidgetStyle, indent: nat)
    requires
        lines.len() >= 1,
    ensures
        sp_body(lines, s, sty, indent).len() == lines.len() + newline_count(s),
        forall|r: int|
            0 <= r < lines.len() ==> (#[trigger] lines[r]).len() <= sp_body(
                lines,
                s,
                sty,
                indent,
            )[r].len(),
    decreases s.len(),
{
    if s.len() > 0 {
        let front = s.subrange(0, s.len() - 1);
        lemma_body_props(lines, front, sty, indent);
        let mid = sp_body(lines, front, sty, indent);
        let tail_ch = s[s.len() - 1];
        let out = sp_body(lines, s, sty, indent);
        assert(out == sp_body_char(mid, tail_ch, sty, indent));
        assert(mid.len() >= 1);
        lemma_body_char_props(mid, tail_ch, sty, indent);
        assert(newline_count(s) == newline_count(front) + if tail_ch == '\n' {
            1nat
        } else {
            0nat
        });
        assert forall|r: int| 0 <= r < lines.len() implies (#[trigger] lines[r]).len()
            <= sp_body(lines, s, sty, indent)[r].len() by {
            assert(lines[r].len() <= mid[r].len());
            assert(mid[r].len() <= out[r].len());
        }
    }
}

proof fn lemma_string_props(st: TextV, s: Seq<char>, sty: JsonWidgetStyle, indent: nat)
    requires
        wf(st),
    ensures
        wf(sp_string(st, s, sty, indent)),
        extends(st, sp_string(st, s, sty, indent)),
        sp_string(st, s, sty, indent).lines.len() == st.lines.len() + newline_count(s),
        sp_string(st, s, sty, indent).positions.len() == st.positions.len() + 1,
{
    lemma_append_props(st, "\""@, sty.string);
    let opened = sp_append(st, "\""@, sty.string);
    lemma_body_props(opened.lines, s, sty, indent);
    let body = TextV { lines: sp_body(opened.lines, s, sty, indent), positions: st.positions };
    lemma_append_props(TextV { lines: body.lines, positions: st.positions }, "\""@, sty.string);
}

/// The central induction: appending the layout of `v` to a well-formed state
/// keeps it well formed, only grows it, adds exactly `spec_height(v) - 1`
/// rows, and adds exactly `spec_edit_count(v)` positions.
pub proof fn lemma_sp_value(st: TextV, v: Value, sty: JsonWidgetStyle, indent: nat)
    requires
        wf(st),
    ensures
        ({
            let st2 = sp_value(st, v, sty, indent);
            &&& wf(st2)
            &&& extends(st, st2)
            &&& st2.lines.len() == st.lines.len() + spec_height(v) - 1
            &&& st2.positions.len() == st.positions.len() + spec_edit_count(v)
        }),
    decreases v, 1int,
{
    match v {
        Value::Null => lemma_leaf_props(st, "null"@, sty.null),
        Value::Bool(b) => lemma_leaf_props(st, bool_text(b), sty.boolean),
        Value::Number(n) => lemma_leaf_props(st, n@, sty.number),
        Value::Text(s) => lemma_string_props(st, s@, sty, indent),
        Value::Array(elems) => {
            lemma_append_props(st, "["@, sty.punctuation);
            let opened = sp_punct(st, "["@, sty);
            if elems@.len() == 0 {
                lemma_append_props(opened, "]"@, sty.punctuation);
                lemma_extends_trans(st, opened, sp_punct(opened, "]"@, sty));
            } else {
                lemma_sp_elems(opened, elems@, sty, indent_step(indent));
                let inner = sp_elems(opened, elems@, sty, indent_step(indent));
                lemma_new_line_props(inner, indent, sty.punctuation);
                let lined = sp_new_line(inner, indent, sty.punctuation);
                lemma_append_props(lined, "]"@, sty.punctuation);
                lemma_extends_trans(st, opened, inner);
                lemma_extends_trans(st, inner, lined);
                lemma_extends_trans(st, lined, sp_punct(lined, "]"@, sty));
            }
        },
        Value::Object(entries) => {
            lemma_append_props(st, "{"@, sty.punctuation);
            let opened = sp_punct(st, "{"@, sty);
            if entries@.len() == 0 {
                lemma_append_props(opened, "}"@, sty.punctuation);
                lemma_extends_trans(st, opened, sp_punct(opened, "}"@, sty));
            } else {
                lemma_sp_entries(opened, entries@, sty, indent_step(indent));
                let inner = sp_entries(opened, entries@, sty, indent_step(indent));
                lemma_new_line_props(inner, indent, sty.punctuation);
                let lined = sp_new_line(inner, indent, sty.punctuation);
                lemma_append_props(lined, "}"@, sty.punctuation);
                lemma_extends_trans(st, opened, inner);
                lemma_extends_trans(st, inner, lined);
                lemma_extends_trans(st, lined, sp_punct(lined, "}"@, sty));
            }
        },
    }
}

/// As `lemma_sp_value`, over an array's elements: `heights_sum` rows and
/// `counts_sum` positions are added.
pub proof fn lemma_sp_elems(st: TextV, elems: Seq<Value>, sty: JsonWidgetStyle, indent: nat)
    requires
        wf(st),
    ensures
        ({
            let st2 = sp_elems(st, elems, sty, indent);
            &&& wf(st2)
            &&& extends(st, st2)
            &&& st2.lines.len() == st.lines.len() + heights_sum(elems)
            &&& st2.positions.len() == st.positions.len() + counts_sum(elems)
        }),
    decreases elems, 0int,
{
    if elems.len() > 0 {
        let front = elems.subrange(0, elems.len() - 1);
        lemma_sp_elems(st, front, sty, indent);
        let prev = sp_elems(st, front, sty, indent);
        lemma_new_line_props(prev, indent, sty.punctuation);
        let lined = sp_new_line(prev, indent, sty.punctuation);
        lemma_sp_value(lined, elems[elems.len() - 1], sty, indent);
        lemma_extends_trans(st, prev, lined);
        lemma_extends_trans(st, lined, sp_value(lined, elems[elems.len() - 1], sty, indent));
    }
}

/// As `lemma_sp_value`, over an object's entries: `entry_heights_sum` rows
/// and `entry_counts_sum` positions are added.
pub proof fn lemma_sp_entries(
    st: TextV,
    entries: Seq<(String, Value)>,
    sty: JsonWidgetStyle,
    indent: nat,
)
    requires
        wf(st),
    ensures
        ({
            let st2 = sp_entries(st, entries, sty, indent);
            &&& wf(st2)
            &&& extends(st, st2)
            &&& st2.lines.len() == st.lines.len() + entry_heights_sum(entries)
            &&& st2.positions.len() == st.positions.len() + entry_counts_sum(entries)
        }),
    decreases entries, 0int,
{
    if entries.len() > 0 {
        let front = entries.subrange(0, entries.len() - 1);
        lemma_sp_entries(st, front, sty, indent);
        let prev = sp_entries(st, front, sty, indent);
        lemma_new_line_props(prev, indent, sty.punctuation);
        let lined = sp_new_line(prev, indent, sty.punctuation);
        let e = entries[entries.len() - 1];
        lemma_key_props(lined, e.0@, sty.key);
        let keyed = sp_key(lined, e.0@, sty.key);
        lemma_append_props(keyed, ": "@, sty.punctuation);
        let sep = sp_punct(keyed, ": "@, sty);
        lemma_sp_value(sep, e.1, sty, indent);
        lemma_extends_trans(st, prev, lined);
        lemma_extends_trans(st, lined, keyed);
        lemma_extends_trans(st, keyed, sep);
        lemma_extends_trans(st, sep, sp_value(sep, e.1, sty, indent));
    }
}

/// A full layout pass is well formed — in particular its positions' rows are
/// non-decreasing in index order and lie within its rows — it renders exactly
/// `spec_height(v)` rows, and it emits exactly `spec_edit_count(v)` edit
/// positions.
pub proof fn lemma_layout_props(v: Value, sty: JsonWidgetStyle)
    ensures
        wf(sp_layout(v, sty)),
        sp_layout(v, sty).lines.len() == spec_height(v),
        sp_layout(v, sty).positions.len() == spec_edit_count(v),
{
    lemma_sp_value(sp_init(), v, sty, 0);
}

/// Laying the same value out twice with the same styles gives the same rows
/// and the same edit positions.
pub proof fn lemma_layout_deterministic(v: Value, sty: JsonWidgetStyle, a: TextV, b: TextV)
    requires
        a == sp_layout(v, sty),
        b == sp_layout(v, sty),
    ensures
        a == b,
{
}

/// Executable rows holding exactly the mathematical rows `m`.
pub open spec fn rows_model(rows: Seq<Vec<Cell>>, m: Seq<Seq<Cell>>) -> bool {
    &&& rows.len() == m.len()
    &&& forall|r: int| 0 <= r < m.len() ==> (#[trigger] rows[r])@ == m[r]
}

/// The executable layout output `t` holds exactly the model `m`.
pub open spec fn models(t: JsonText, m: TextV) -> bool {
    &&& rows_model(t.lines@, m.lines)
    &&& t.positions@.len() == m.positions.len()
    &&& forall|i: int|
        0 <= i < m.positions.len() ==> (#[trigger] t.positions@[i])@ == m.positions[i]
}

proof fn lemma_append_shape(m: TextV, text: Seq<char>, style: TextStyle)
    requires
        m.lines.len() >= 1,
    ensures
        sp_append(m, text, style).positions == m.positions,
        sp_append(m, text, style).lines.len() == m.lines.len(),
        forall|r: int|
            0 <= r < m.lines.len() - 1 ==> #[trigger] sp_append(m, text, style).lines[r]
                == m.lines[r],
        sp_append(m, text, style).lines[m.lines.len() - 1] == m.lines.last() + cells_of(
            text,
            style,
        ),
{
}

proof fn lemma_new_line_shape(m: TextV, indent: nat, style: TextStyle)
    ensures
        sp_new_line(m, indent, style).positions == m.positions,
        sp_new_line(m, indent, style).lines.len() == m.lines.len() + 1,
        forall|r: int|
            0 <= r < m.lines.len() ==> #[trigger] sp_new_line(m, indent, style).lines[r]
                == m.lines[r],
        sp_new_line(m, indent, style).lines[m.lines.len() as int] == spaces(indent, style),
{
}

proof fn lemma_concat_cells(a: Seq<Cell>, text: Seq<char>, style: TextStyle)
    ensures
        (a + cells_of(text, style)).len() == a.len() + text.len(),
        forall|k: int| 0 <= k < a.len() ==> #[trigger] (a + cells_of(text, style))[k] == a[k],
        forall|k: int|
            a.len() <= k < a.len() + text.len() ==> #[trigger] (a + cells_of(text, style))[k]
                == (Cell { ch: text[k - a.len()], style: style }),
{
    lemma_cells_of_len(text, style);
    assert forall|k: int|
        a.len() <= k < a.len() + text.len() implies #[trigger] (a + cells_of(text, style))[k]
        == (Cell { ch: text[k - a.len()], style: style }) by {
        lemma_cells_of_index(text, style, k - a.len());
    }
}

proof fn lemma_spaces_props(n: nat, style: TextStyle)
    ensures
        spaces(n, style).len() == n,
        forall|k: int| 0 <= k < n ==> #[trigger] spaces(n, style)[k] == (Cell {
            ch: ' ',
            style: style,
        }),
    decreases n,
{
    lemma_spaces_len(n, style);
    if n > 0 {
        lemma_spaces_props((n - 1) as nat, style);
        lemma_push_cell_props(spaces((n - 1) as nat, style), ' ', style);
        assert(spaces(n, style) == spaces((n - 1) as nat, style).push(
            Cell { ch: ' ', style: style },
        ));
    }
}

proof fn lemma_push_cell_props(s: Seq<Cell>, c: char, style: TextStyle)
    ensures
        s.push(Cell { ch: c, style: style }).len() == s.len() + 1,
        forall|i: int|
            0 <= i < s.len() ==> #[trigger] s.push(Cell { ch: c, style: style })[i] == s[i],
        s.push(Cell { ch: c, style: style })[s.len() as int] == (Cell { ch: c, style: style }),
{
}

proof fn lemma_rows_pop_push(before: Seq<Vec<Cell>>, after: Seq<Vec<Cell>>, row: Vec<Cell>)
    requires
        before.len() >= 1,
        after == before.drop_last().push(row),
    ensures
        after.len() == before.len(),
        forall|r: int| 0 <= r < before.len() - 1 ==> #[trigger] after[r] == before[r],
        after[before.len() - 1] == row,
{
    assert forall|r: int| 0 <= r < before.len() - 1 implies #[trigger] after[r] == before[r] by {
        assert(before.drop_last()[r] == before[r]);
    }
}

proof fn lemma_rows_push(before: Seq<Vec<Cell>>, after: Seq<Vec<Cell>>, row: Vec<Cell>)
    requires
        after == before.push(row),
    ensures
        after.len() == before.len() + 1,
        forall|r: int| 0 <= r < before.len() ==> #[trigger] after[r] == before[r],
        after[before.len() as int] == row,
{
}

/// The output of one layout pass: the rendered rows of styled cells and the
/// ordered edit positions.
#[derive(Debug)]
pub struct JsonText {
    pub lines: Vec<Vec<Cell>>,
    pub positions: Vec<EditPosition>,
}

impl JsonText {
    fn append_cells(&mut self, s: &str, style: TextStyle, Ghost(m): Ghost<TextV>)
        requires
            models(*old(self), m),
            m.lines.len() >= 1,
        ensures
            models(*final(self), sp_append(m, s@, style)),
    {
        proof {
            assert(self.lines@.len() >= 1);
        }
        let ghost before = self.lines@;
        let ghost base: Seq<Cell> = m.lines.last();
        let mut row: Vec<Cell> = self.lines.pop().unwrap();
        proof {
            assert(row@ == before[before.len() - 1]@);
            assert(row@ == base);
        }
        let n: usize = s.unicode_len();
        for i in 0..n
            invariant
                n == s@.len(),
                row@.len() == base.len() + i,
                forall|k: int| 0 <= k < base.len() ==> #[trigger] row@[k] == base[k],
                forall|k: int|
                    base.len() <= k < base.len() + i ==> #[trigger] row@[k] == (Cell {
                        ch: s@[k - base.len()],
                        style: style,
                    }),
        {
            let c = s.get_char(i);
            row.push(Cell { ch: c, style: style });
        }
        self.lines.push(row);
        proof {
            lemma_append_shape(m, s@, style);
            lemma_concat_cells(base, s@, style);
            assert(row@ =~= base + cells_of(s@, style));
            lemma_rows_pop_push(before, self.lines@, row);
            assert forall|r: int|
                0 <= r < sp_append(m, s@, style).lines.len() implies (#[trigger] self.lines@[r])@
                == sp_append(m, s@, style).lines[r] by {
                if r < m.lines.len() - 1 {
                    assert(self.lines@[r] == before[r]);
                } else {
                    assert(self.lines@[r]@ == row@);
                }
            }
        }
    }

    fn append_one(&mut self, c: char, style: TextStyle, Ghost(m): Ghost<TextV>)
        requires
            models(*old(self), m),
            m.lines.len() >= 1,
        ensures
            models(
                *final(self),
                TextV {
                    lines: m.lines.update(
                        m.lines.len() - 1,
                        m.lines.last().push(Cell { ch: c, style: style }),
                    ),
                    positions: m.positions,
                },
            ),
    {
        proof {
            assert(self.lines@.len() >= 1);
        }
        let ghost before = self.lines@;
        let ghost base: Seq<Cell> = m.lines.last();
        let mut row: Vec<Cell> = self.lines.pop().unwrap();
        proof {
            assert(row@ == base);
        }
        row.push(Cell { ch: c, style: style });
        self.lines.push(row);
        proof {
            lemma_push_cell_props(base, c, style);
            lemma_rows_pop_push(before, self.lines@, row);
            let target = m.lines.update(
                m.lines.len() - 1,
                m.lines.last().push(Cell { ch: c, style: style }),
            );
            assert forall|r: int|
                0 <= r < target.len() implies (#[trigger] self.lines@[r])@ == target[r] by {
                if r < m.lines.len() - 1 {
                    assert(self.lines@[r] == before[r]);
                    assert(target[r] == m.lines[r]);
                } else {
                    assert(self.lines@[r]@ == row@);
                    assert(target[r] == m.lines.last().push(Cell { ch: c, style: style }));
                }
            }
        }
    }

    fn push_row(&mut self, indent: usize, style: TextStyle, Ghost(m): Ghost<TextV>)
        requires
            models(*old(self), m),
        ensures
            models(*final(self), sp_new_line(m, indent as nat, style)),
    {
        let ghost before = self.lines@;
        let mut row: Vec<Cell> = Vec::new();
        for j in 0..indent
            invariant
                row@.len() == j,
                forall|k: int| 0 <= k < j ==> #[trigger] row@[k] == (Cell {
                    ch: ' ',
                    style: style,
                }),
        {
            row.push(Cell { ch: ' ', style: style });
        }
        self.lines.push(row);
        proof {
            lemma_spaces_props(indent as nat, style);
            assert(row@ =~= spaces(indent as nat, style));
            lemma_new_line_shape(m, indent as nat, style);
            lemma_rows_push(before, self.lines@, row);
            assert forall|r: int|
                0 <= r < sp_new_line(m, indent as nat, style).lines.len() implies (
            #[trigger] self.lines@[r])@ == sp_new_line(m, indent as nat, style).lines[r] by {
                if r < m.lines.len() {
                    assert(self.lines@[r] == before[r]);
                } else {
                    assert(self.lines@[r]@ == row@);
                }
            }
        }
    }

    fn push_leaf(&mut self, s: &str, style: TextStyle, Ghost(m): Ghost<TextV>)
        requires
            models(*old(self), m),
            m.lines.len() >= 1,
        ensures
            models(*final(self), sp_leaf(m, s@, style)),
    {
        proof {
            assert(self.lines@.len() >= 1);
        }
        let row: usize = self.lines.len() - 1;
        let c0: usize = self.lines[row].len();
        self.append_cells(s, style, Ghost(m));
        let c1: usize = self.lines[row].len();
        self.positions.push(
            EditPosition { row, col_start: c0, col_end: c1, kind: PositionKind::Leaf },
        );
        proof {
            lemma_append_shape(m, s@, style);
            lemma_cells_of_len(s@, style);
            assert(c1 as nat == m.lines.last().len() + s@.len());
            assert forall|i: int|
                0 <= i < sp_leaf(m, s@, style).positions.len() implies (
            #[trigger] self.positions@[i])@ == sp_leaf(m, s@, style).positions[i] by {
            }
        }
    }

    fn push_key(&mut self, key: &str, style: TextStyle, Ghost(m): Ghost<TextV>)
        requires
            models(*old(self), m),
            m.lines.len() >= 1,
        ensures
            models(*final(self), sp_key(m, key@, style)),
    {
        proof {
            assert(self.lines@.len() >= 1);
            proof_strlit_quote();
        }
        let row: usize = self.lines.len() - 1;
        let c0: usize = self.lines[row].len();
        self.append_cells("\"", style, Ghost(m));
        let ghost m1 = sp_append(m, "\""@, style);
        proof {
            lemma_append_shape(m, "\""@, style);
            lemma_cells_of_len("\""@, style);
        }
        self.append_cells(key, style, Ghost(m1));
        let ghost m2 = sp_append(m1, key@, style);
        proof {
            lemma_append_shape(m1, key@, style);
            lemma_cells_of_len(key@, style);
        }
        self.append_cells("\"", style, Ghost(m2));
        proof {
            lemma_append_shape(m2, "\""@, style);
            lemma_cells_of_len("\""@, style);
        }
        let c1: usize = self.lines[row].len();
        self.positions.push(
            EditPosition { row, col_start: c0, col_end: c1, kind: PositionKind::Key },
        );
        proof {
            assert(c1 as nat == m.lines.last().len() + key@.len() + 2);
            assert forall|i: int|
                0 <= i < sp_key(m, key@, style).positions.len() implies (
            #[trigger] self.positions@[i])@ == sp_key(m, key@, style).positions[i] by {
            }
        }
    }

    fn push_string(&mut self, s: &str, sty: &JsonWidgetStyle, indent: usize, Ghost(m): Ghost<
        TextV,
    >)
        requires
            models(*old(self), m),
            m.lines.len() >= 1,
        ensures
            models(*final(self), sp_string(m, s@, *sty, indent as nat)),
    {
        proof {
            assert(self.lines@.len() >= 1);
            proof_strlit_quote();
        }
        let row: usize = self.lines.len() - 1;
        let c0: usize = self.lines[row].len();
        self.append_cells("\"", sty.string, Ghost(m));
        let ghost opened = sp_append(m, "\""@, sty.string);
        proof {
            lemma_append_shape(m, "\""@, sty.string);
        }
        let n: usize = s.unicode_len();
        for i in 0..n
            invariant
                n == s@.len(),
                opened == sp_append(m, "\""@, sty.string),
                opened.lines.len() >= 1,
                models(
                    *self,
                    TextV {
                        lines: sp_body(opened.lines, s@.subrange(0, i as int), *sty, indent as nat),
                        positions: m.positions,
                    },
                ),
                sp_body(opened.lines, s@.subrange(0, i as int), *sty, indent as nat).len() >= 1,
        {
            let ghost cur = sp_body(opened.lines, s@.subrange(0, i as int), *sty, indent as nat);
            let c = s.get_char(i);
            proof {
                assert(s@.subrange(0, i + 1).subrange(0, i as int) =~= s@.subrange(0, i as int));
                assert(s@.subrange(0, i + 1)[i as int] == s@[i as int]);
                assert(sp_body(opened.lines, s@.subrange(0, i + 1), *sty, indent as nat)
                    == sp_body_char(cur, s@[i as int], *sty, indent as nat));
            }
            if c == '\n' {
                self.push_row(indent, sty.punctuation, Ghost(
                    TextV { lines: cur, positions: m.positions },
                ));
                proof {
                    assert(sp_body_char(cur, c, *sty, indent as nat) == cur.push(
                        spaces(indent as nat, sty.punctuation),
                    ));
                    lemma_body_char_props(cur, c, *sty, indent as nat);
                }
            } else {
                self.append_one(c, sty.string, Ghost(
                    TextV { lines: cur, positions: m.positions },
                ));
                proof {
                    assert(sp_body_char(cur, c, *sty, indent as nat) == cur.update(
                        cur.len() - 1,
                        cur.last().push(Cell { ch: c, style: sty.string }),
                    ));
                    lemma_body_char_props(cur, c, *sty, indent as nat);
                }
            }
        }
        proof {
            assert(s@.subrange(0, n as int) =~= s@);
        }
        let ghost body = TextV {
            lines: sp_body(opened.lines, s@, *sty, indent as nat),
            positions: m.positions,
        };
        self.append_cells("\"", sty.string, Ghost(body));
        proof {
            lemma_body_props(opened.lines, s@, *sty, indent as nat);
            lemma_append_shape(body, "\""@, sty.string);
        }
        let c1: usize = self.lines[row].len();
        self.positions.push(
            EditPosition { row, col_start: c0, col_end: c1, kind: PositionKind::Leaf },
        );
        proof {
            let target = sp_string(m, s@, *sty, indent as nat);
            assert(row < sp_append(body, "\""@, sty.string).lines.len());
            assert(c1 as nat == sp_append(body, "\""@, sty.string).lines[row as int].len());
            assert forall|i: int|
                0 <= i < target.positions.len() implies (#[trigger] self.positions@[i])@
                == target.positions[i] by {
            }
        }
    }

    /// Lay `v` out after what this pass already holds, as the model does.
    fn visit_value(&mut self, v: &Value, sty: &JsonWidgetStyle, indent: usize, Ghost(m): Ghost<
        TextV,
    >)
        requires
            models(*old(self), m),
            wf(m),
        ensures
            models(*final(self), sp_value(m, *v, *sty, indent as nat)),
        decreases v,
    {
        match v {
            Value::Null => {
                self.push_leaf("null", sty.null, Ghost(m));
            },
            Value::Bool(b) => {
                if *b {
                    self.push_leaf("true", sty.boolean, Ghost(m));
                } else {
                    self.push_leaf("false", sty.boolean, Ghost(m));
                }
            },
            Value::Number(text) => {
                self.push_leaf(text.as_str(), sty.number, Ghost(m));
            },
            Value::Text(text) => {
                self.push_string(text.as_str(), sty, indent, Ghost(m));
            },
            Value::Array(elems) => {
                self.append_cells("[", sty.punctuation, Ghost(m));
                let ghost m1 = sp_punct(m, "["@, *sty);
                proof {
                    lemma_append_props(m, "["@, sty.punctuation);
                }
                if elems.len() == 0 {
                    self.append_cells("]", sty.punctuation, Ghost(m1));
                } else {
                    let child_indent = sat_add(indent, 2);
                    for i in 0..elems.len()
                        invariant
                            decreases_to!(*v => elems@),
                            child_indent as nat == indent_step(indent as nat),
                            wf(m1),
                            m1 == sp_punct(m, "["@, *sty),
                            models(
                                *self,
                                sp_elems(
                                    m1,
                                    elems@.subrange(0, i as int),
                                    *sty,
                                    child_indent as nat,
                                ),
                            ),
                            wf(sp_elems(m1, elems@.subrange(0, i as int), *sty, child_indent as nat)),
                    {
                        let ghost mcur = sp_elems(
                            m1,
                            elems@.subrange(0, i as int),
                            *sty,
                            child_indent as nat,
                        );
                        proof {
                            assert(decreases_to!(*v => elems@[i as int]));
                            lemma_new_line_props(mcur, child_indent as nat, sty.punctuation);
                        }
                        self.push_row(child_indent, sty.punctuation, Ghost(mcur));
                        let ghost mlined = sp_new_line(mcur, child_indent as nat, sty.punctuation);
                        self.visit_value(&elems[i], sty, child_indent, Ghost(mlined));
                        proof {
                            assert(elems@.subrange(0, i + 1).subrange(0, i as int) =~= elems@
                                .subrange(0, i as int));
                            assert(elems@.subrange(0, i + 1)[i as int] == elems@[i as int]);
                            assert(sp_elems(m1, elems@.subrange(0, i + 1), *sty, child_indent as nat)
                                == sp_value(mlined, elems@[i as int], *sty, child_indent as nat));
                            lemma_sp_value(mlined, elems@[i as int], *sty, child_indent as nat);
                        }
                    }
                    proof {
                        assert(elems@.subrange(0, elems@.len() as int) =~= elems@);
                    }
                    let ghost minner = sp_elems(m1, elems@, *sty, child_indent as nat);
                    self.push_row(indent, sty.punctuation, Ghost(minner));
                    self.append_cells("]", sty.punctuation, Ghost(
                        sp_new_line(minner, indent as nat, sty.punctuation),
                    ));
                }
            },
            Value::Object(entries) => {
                self.append_cells("{", sty.punctuation, Ghost(m));
                let ghost m1 = sp_punct(m, "{"@, *sty);
                proof {
                    lemma_append_props(m, "{"@, sty.punctuation);
                }
                if entries.len() == 0 {
                    self.append_cells("}", sty.punctuation, Ghost(m1));
                } else {
                    let child_indent = sat_add(indent, 2);
                    for i in 0..entries.len()
                        invariant
                            decreases_to!(*v => entries@),
                            child_indent as nat == indent_step(indent as nat),
                            wf(m1),
                            m1 == sp_punct(m, "{"@, *sty),
                            models(
                                *self,
                                sp_entries(
                                    m1,
                                    entries@.subrange(0, i as int),
                                    *sty,
                                    child_indent as nat,
                                ),
                            ),
                            wf(sp_entries(
                                m1,
                                entries@.subrange(0, i as int),
                                *sty,
                                child_indent as nat,
                            )),
                    {
                        let ghost mcur = sp_entries(
                            m1,
                            entries@.subrange(0, i as int),
                            *sty,
                            child_indent as nat,
                        );
                        proof {
                            assert(decreases_to!(*v => entries@[i as int].1));
                            lemma_new_line_props(mcur, child_indent as nat, sty.punctuation);
                        }
                        self.push_row(child_indent, sty.punctuation, Ghost(mcur));
                        let ghost mlined = sp_new_line(mcur, child_indent as nat, sty.punctuation);
                        proof {
                            lemma_key_props(mlined, entries@[i as int].0@, sty.key);
                        }
                        self.push_key(entries[i].0.as_str(), sty.key, Ghost(mlined));
                        let ghost mkeyed = sp_key(mlined, entries@[i as int].0@, sty.key);
                        proof {
                            lemma_append_props(mkeyed, ": "@, sty.punctuation);
                        }
                        self.append_cells(": ", sty.punctuation, Ghost(mkeyed));
                        let ghost msep = sp_punct(mkeyed, ": "@, *sty);
                        self.visit_value(&entries[i].1, sty, child_indent, Ghost(msep));
                        proof {
                            assert(entries@.subrange(0, i + 1).subrange(0, i as int) =~= entries@
                                .subrange(0, i as int));
                            assert(entries@.subrange(0, i + 1)[i as int] == entries@[i as int]);
                            assert(sp_entries(
                                m1,
                                entries@.subrange(0, i + 1),
                                *sty,
                                child_indent as nat,
                            ) == sp_value(msep, entries@[i as int].1, *sty, child_indent as nat));
                            lemma_sp_value(msep, entries@[i as int].1, *sty, child_indent as nat);
                        }
                    }
                    proof {
                        assert(entries@.subrange(0, entries@.len() as int) =~= entries@);
                    }
                    let ghost minner = sp_entries(m1, entries@, *sty, child_indent as nat);
                    self.push_row(indent, sty.punctuation, Ghost(minner));
                    self.append_cells("}", sty.punctuation, Ghost(
                        sp_new_line(minner, indent as nat, sty.punctuation),
                    ));
                }
            },
        }
    }

    /// How many rows this pass rendered.
    pub fn line_count(&self) -> (n: usize)
        ensures
            n == self.lines@.len(),
    {
        self.lines.len()
    }

    /// How many edit positions this pass emitted.
    pub fn position_count(&self) -> (n: usize)
        ensures
            n == self.positions@.len(),
    {
        self.positions.len()
    }

    /// Look an edit position up by its index: the caller clamps, this call
    /// does not.
    pub fn resolve(&self, index: usize) -> (r: Option<EditPosition>)
        ensures
            index < self.positions@.len() ==> r == Some(self.positions@[index as int]),
            index >= self.positions@.len() ==> r is None,
    {
        if index < self.positions.len() {
            Some(self.positions[index])
        } else {
            None
        }
    }
}

/// One full layout pass over `v` with the styles `sty`: the result holds
/// exactly the model `sp_layout(v, sty)` — rows, and one edit position per
/// leaf and per object key, in visit order.
pub fn layout(v: &Value, sty: &JsonWidgetStyle) -> (t: JsonText)
    ensures
        models(t, sp_layout(*v, *sty)),
        wf(sp_layout(*v, *sty)),
        sp_layout(*v, *sty).lines.len() == spec_height(*v),
        sp_layout(*v, *sty).positions.len() == spec_edit_count(*v),
{
    let mut t = JsonText { lines: Vec::new(), positions: Vec::new() };
    let row: Vec<Cell> = Vec::new();
    t.lines.push(row);
    proof {
        assert(t.lines@.len() == 1);
        assert(t.lines@[0]@ =~= sp_init().lines[0]);
        assert(models(t, sp_init()));
        lemma_layout_props(*v, *sty);
    }
    t.visit_value(v, sty, 0, Ghost(sp_init()));
    t
}

} // verus!
