pub mod cursor;
pub mod grid;
pub mod layout;
pub mod style;
pub mod value;
pub mod widget;

pub use layout::{Cell, EditPosition, JsonText, PositionKind};
pub use style::{Color, JsonWidgetStyle, TextStyle};
pub use value::Value;
pub use widget::JsonWidget;
