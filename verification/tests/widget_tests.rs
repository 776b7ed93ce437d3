use json_widget::grid::Grid;
use json_widget::layout::{layout, Cell, PositionKind};
use json_widget::cursor::scroll_offset;
use json_widget::value::{edit_count, height};
use json_widget::{Color, JsonWidget, JsonWidgetStyle, TextStyle, Value};

fn fill() -> Cell {
    Cell {
        ch: '.',
        style: TextStyle { color: Color::White, bold: false, dim: false, reversed: false },
    }
}

fn row_text(g: &Grid, r: usize) -> String {
    g.rows[r].iter().map(|c| c.ch).collect()
}

fn line_text(t: &json_widget::JsonText, r: usize) -> String {
    t.lines[r].iter().map(|c| c.ch).collect()
}

fn sample_object() -> Value {
    Value::Object(vec![
        ("key1".to_string(), Value::Number("42".to_string())),
        ("key2".to_string(), Value::Array(vec![Value::Number("42".to_string())])),
    ])
}

#[test]
fn height_of_scalars_is_one() {
    assert_eq!(height(&Value::Null), 1);
    assert_eq!(height(&Value::Bool(true)), 1);
    assert_eq!(height(&Value::Number("3".to_string())), 1);
    assert_eq!(height(&Value::Text("hello".to_string())), 1);
}

#[test]
fn height_of_string_counts_line_breaks() {
    assert_eq!(height(&Value::Text("a\nb".to_string())), 2);
    assert_eq!(height(&Value::Text("a\nb\nc".to_string())), 3);
}

#[test]
fn height_of_containers_follows_sum_formula() {
    assert_eq!(height(&Value::Array(vec![])), 1);
    assert_eq!(height(&Value::Object(vec![])), 1);
    let arr = Value::Array(vec![Value::Null, Value::Bool(true), Value::Number("42".to_string())]);
    assert_eq!(height(&arr), 1 + 1 + 1 + 2);
    assert_eq!(height(&sample_object()), 1 + (1 + 2) + 2);
}

#[test]
fn edit_count_of_containers_follows_sum_formula() {
    assert_eq!(edit_count(&Value::Null), 1);
    assert_eq!(edit_count(&Value::Array(vec![])), 0);
    assert_eq!(edit_count(&Value::Object(vec![])), 0);
    let arr = Value::Array(vec![Value::Null, Value::Bool(true), Value::Number("42".to_string())]);
    assert_eq!(edit_count(&arr), 3);
    assert_eq!(edit_count(&sample_object()), 4);
}

#[test]
fn empty_array_renders_as_single_padded_row() {
    let w = JsonWidget::new(Value::Array(vec![]));
    let g = w.render(10, 1, fill());
    assert_eq!(row_text(&g, 0), "[]........");
    let t = layout(&Value::Array(vec![]), &JsonWidgetStyle::default());
    assert_eq!(t.position_count(), 0);
}

#[test]
fn small_array_renders_five_rows_with_three_positions() {
    let v = Value::Array(vec![Value::Null, Value::Bool(true), Value::Number("42".to_string())]);
    let w = JsonWidget::new(v);
    let g = w.render(20, 5, fill());
    assert_eq!(row_text(&g, 0), "[...................");
    assert_eq!(row_text(&g, 1), "  null..............");
    assert_eq!(row_text(&g, 2), "  true..............");
    assert_eq!(row_text(&g, 3), "  42................");
    assert_eq!(row_text(&g, 4), "]...................");
    let v = Value::Array(vec![Value::Null, Value::Bool(true), Value::Number("42".to_string())]);
    let t = layout(&v, &JsonWidgetStyle::default());
    assert_eq!(t.position_count(), 3);
    assert_eq!(t.resolve(0).unwrap().row, 1);
    assert_eq!(t.resolve(1).unwrap().row, 2);
    assert_eq!(t.resolve(2).unwrap().row, 3);
    assert!(t.resolve(3).is_none());
}

#[test]
fn array_rows_use_indent_spaces_not_fill() {
    let v = Value::Array(vec![Value::Null]);
    let t = layout(&v, &JsonWidgetStyle::default());
    assert_eq!(t.lines.len(), 3);
    assert_eq!(line_text(&t, 0), "[");
    assert_eq!(line_text(&t, 1), "  null");
    assert_eq!(line_text(&t, 2), "]");
}

#[test]
fn object_renders_keys_and_values_in_order() {
    let v = sample_object();
    let t = layout(&v, &JsonWidgetStyle::default());
    assert_eq!(t.lines.len(), 6);
    assert_eq!(line_text(&t, 0), "{");
    assert_eq!(line_text(&t, 1), "  \"key1\": 42");
    assert_eq!(line_text(&t, 2), "  \"key2\": [");
    assert_eq!(line_text(&t, 3), "    42");
    assert_eq!(line_text(&t, 4), "  ]");
    assert_eq!(line_text(&t, 5), "}");
    assert_eq!(t.position_count(), 4);
    let p0 = t.resolve(0).unwrap();
    let p1 = t.resolve(1).unwrap();
    let p2 = t.resolve(2).unwrap();
    let p3 = t.resolve(3).unwrap();
    assert_eq!(p0.kind, PositionKind::Key);
    assert_eq!(p0.row, 1);
    assert_eq!(p1.kind, PositionKind::Leaf);
    assert_eq!(p1.row, 1);
    assert_eq!(p2.kind, PositionKind::Key);
    assert_eq!(p2.row, 2);
    assert_eq!(p3.kind, PositionKind::Leaf);
    assert_eq!(p3.row, 3);
}

#[test]
fn string_value_renders_quoted_and_breaks_rows() {
    let t = layout(&Value::Text("hi".to_string()), &JsonWidgetStyle::default());
    assert_eq!(t.lines.len(), 1);
    assert_eq!(line_text(&t, 0), "\"hi\"");
    let t = layout(&Value::Text("a\nb".to_string()), &JsonWidgetStyle::default());
    assert_eq!(t.lines.len(), 2);
    assert_eq!(line_text(&t, 0), "\"a");
    assert_eq!(line_text(&t, 1), "b\"");
    assert_eq!(t.position_count(), 1);
    assert_eq!(t.resolve(0).unwrap().row, 0);
}

#[test]
fn empty_object_renders_as_single_row() {
    let t = layout(&Value::Object(vec![]), &JsonWidgetStyle::default());
    assert_eq!(t.lines.len(), 1);
    assert_eq!(line_text(&t, 0), "{}");
    assert_eq!(t.position_count(), 0);
}

#[test]
fn rendering_twice_gives_identical_output() {
    let w = JsonWidget::new(sample_object());
    let g1 = w.render(15, 8, fill());
    let g2 = w.render(15, 8, fill());
    assert_eq!(g1.rows.len(), g2.rows.len());
    for r in 0..g1.rows.len() {
        assert_eq!(g1.rows[r], g2.rows[r]);
    }
    let t1 = layout(&sample_object(), &JsonWidgetStyle::default());
    let t2 = layout(&sample_object(), &JsonWidgetStyle::default());
    assert_eq!(t1.lines, t2.lines);
    assert_eq!(t1.positions, t2.positions);
}

#[test]
fn cursor_saturates_at_both_ends() {
    let mut w = JsonWidget::new(Value::Array(vec![
        Value::Null,
        Value::Bool(false),
        Value::Number("7".to_string()),
    ]));
    assert_eq!(w.cursor(), 0);
    w.prev_edit();
    assert_eq!(w.cursor(), 0);
    w.next_edit();
    assert_eq!(w.cursor(), 1);
    w.next_edit();
    assert_eq!(w.cursor(), 2);
    w.next_edit();
    assert_eq!(w.cursor(), 2);
    w.prev_edit();
    assert_eq!(w.cursor(), 1);
}

#[test]
fn next_then_prev_returns_to_interior_index() {
    let mut w = JsonWidget::new(Value::Array(vec![
        Value::Null,
        Value::Bool(false),
        Value::Number("7".to_string()),
    ]));
    w.next_edit();
    let before = w.cursor();
    w.next_edit();
    w.prev_edit();
    assert_eq!(w.cursor(), before);
    w.prev_edit();
    w.next_edit();
    assert_eq!(w.cursor(), before);
}

#[test]
fn cursor_commands_are_no_ops_on_empty_document() {
    let mut w = JsonWidget::new(Value::Array(vec![]));
    w.next_edit();
    assert_eq!(w.cursor(), 0);
    w.prev_edit();
    assert_eq!(w.cursor(), 0);
}

#[test]
fn scroll_offset_follows_last_visible_row_rule() {
    assert_eq!(scroll_offset(7, 3, 20), 5);
    assert_eq!(scroll_offset(7, 3, 8), 5);
    assert_eq!(scroll_offset(7, 3, 6), 3);
    assert_eq!(scroll_offset(2, 3, 10), 0);
    assert_eq!(scroll_offset(0, 5, 1), 0);
}

#[test]
fn render_scrolls_so_cursor_row_is_last_visible() {
    let elems: Vec<Value> = (0..10).map(|i| Value::Number(format!("{}", i))).collect();
    let mut w = JsonWidget::new(Value::Array(elems));
    for _ in 0..9 {
        w.next_edit();
    }
    assert_eq!(w.cursor(), 9);
    let g = w.render(6, 3, fill());
    assert_eq!(row_text(&g, 0), "  7...");
    assert_eq!(row_text(&g, 1), "  8...");
    assert_eq!(row_text(&g, 2), "  9...");
}

#[test]
fn cursor_span_is_reversed_in_the_grid() {
    let w = JsonWidget::new(Value::Array(vec![Value::Null]));
    let g = w.render(8, 3, fill());
    assert_eq!(row_text(&g, 1), "  null..");
    assert!(!g.rows[1][1].style.reversed);
    assert!(g.rows[1][2].style.reversed);
    assert!(g.rows[1][5].style.reversed);
    assert!(!g.rows[1][6].style.reversed);
    assert!(!g.rows[0][0].style.reversed);
}

#[test]
fn load_replaces_document_and_resets_cursor() {
    let mut w = JsonWidget::new(sample_object());
    w.next_edit();
    w.next_edit();
    assert_eq!(w.cursor(), 2);
    w.load(Value::Null);
    assert_eq!(w.cursor(), 0);
    let g = w.render(6, 1, fill());
    assert_eq!(row_text(&g, 0), "null..");
}

#[test]
fn grid_clips_rows_wider_than_the_viewport() {
    let w = JsonWidget::new(Value::Text("abcdefgh".to_string()));
    let g = w.render(4, 1, fill());
    assert_eq!(row_text(&g, 0), "\"abc");
}
