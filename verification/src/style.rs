use vstd::prelude::*;

verus! {

/// A display colour for one style role.
#[derive(Debug, Clone, Copy, PartialEq, Eq, Structural)]
pub enum Color {
    White,
    Blue,
    Green,
    Yellow,
    Cyan,
}

/// The styling of one rendered cell: a colour and emphasis flags.
#[derive(Debug, Clone, Copy, PartialEq, Eq, Structural)]
pub struct TextStyle {
    pub color: Color,
    pub bold: bool,
    pub dim: bool,
    pub reversed: bool,
}

/// `style` with the reverse-video flag set: how the cursor's current edit
/// position is shown.
pub open spec fn spec_reverse(style: TextStyle) -> TextStyle {
    TextStyle { reversed: true, ..style }
}

/// The style bindings of the renderer, one per recognized role.
#[derive(Debug, Clone, Copy, PartialEq, Eq, Structural)]
pub struct JsonWidgetStyle {
    pub punctuation: TextStyle,
    pub key: TextStyle,
    pub string: TextStyle,
    pub number: TextStyle,
    pub boolean: TextStyle,
    pub null: TextStyle,
}

/// The default style bindings.
pub open spec fn spec_default_style() -> JsonWidgetStyle {
    JsonWidgetStyle {
        punctuation: TextStyle { color: Color::White, bold: true, dim: false, reversed: false },
        key: TextStyle { color: Color::Blue, bold: true, dim: false, reversed: false },
        string: TextStyle { color: Color::Green, bold: false, dim: false, reversed: false },
        number: TextStyle { color: Color::Yellow, bold: false, dim: false, reversed: false },
        boolean: TextStyle { color: Color::Cyan, bold: false, dim: false, reversed: false },
        null: TextStyle { color: Color::White, bold: false, dim: true, reversed: false },
    }
}

impl Default for JsonWidgetStyle {
    /// The role bindings the widget starts with.
    fn default() -> (s: Self)
        ensures
            s == spec_default_style(),
    {
        JsonWidgetStyle {
            punctuation: TextStyle { color: Color::White, bold: true, dim: false, reversed: false },
            key: TextStyle { color: Color::Blue, bold: true, dim: false, reversed: false },
            string: TextStyle { color: Color::Green, bold: false, dim: false, reversed: false },
            number: TextStyle { color: Color::Yellow, bold: false, dim: false, reversed: false },
            boolean: TextStyle { color: Color::Cyan, bold: false, dim: false, reversed: false },
            null: TextStyle { color: Color::White, bold: false, dim: true, reversed: false },
        }
    }
}

} // verus!
