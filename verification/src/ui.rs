//! The screen's widgets as lists of shapes: what to draw where, in which
//! colour. Rendering the shapes is the firmware's part.

pub mod bounding_box;
pub mod icons;
pub mod screen;
pub mod shape;
pub mod theme;
pub mod widgets;

pub use bounding_box::BoundingBox;
pub use icons::PixelIcon;
pub use screen::Screen;
pub use shape::{Color, Shape};
pub use theme::{GrayTheme, LightBlueTheme};
pub use widgets::{Button, HistoryBar, Label, PressureCard, ProgressBar, TempHumidCard, Widget};
