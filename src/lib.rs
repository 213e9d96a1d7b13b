//! Lays out tabular text as a bordered grid of aligned, decorated cells.

pub mod align;
pub mod ansi;
pub mod border;
pub mod cell;
pub mod color;
pub mod error;
pub mod format;
pub mod grid;
pub mod style;
pub mod text;

pub use align::{Align, Alignment, HAlign, VAlign};
pub use border::Border;
pub use cell::{Cell, CellView};
pub use color::Color;
pub use error::{ErrorMessage, GridError};
pub use format::apply_ansi_formatting;
pub use grid::{Grid, GridView};
pub use style::{FontStyle, FontStyleFlag, FontStyleIter, Style};
pub use text::{repeat_str, split_lines, str_eq};
