//! The widgets: buttons, labels, progress bars, sensor cards, history bars.

pub mod button;
pub mod card;
pub mod history;
pub mod label;
pub mod pressure_card;
pub mod progress;

pub use button::Button;
pub use card::TempHumidCard;
pub use history::HistoryBar;
pub use label::Label;
pub use pressure_card::PressureCard;
pub use progress::ProgressBar;

use vstd::prelude::*;
use crate::ui::bounding_box::BoundingBox;

verus! {

/// Any widget.
#[derive(Debug, Clone, Copy, PartialEq, Eq)]
pub enum Widget {
    Button(Button),
    Label(Label),
    ProgressBar(ProgressBar),
    TempHumidCard(TempHumidCard),
    PressureCard(PressureCard),
    HistoryBar(HistoryBar),
}

/// Whether a widget's box can be computed: a label's arithmetic stays in
/// `i32`.
pub open spec fn widget_box_ok(w: Widget) -> bool {
    match w {
        Widget::Label(l) => l.fits(),
        _ => true,
    }
}

/// A widget's box.
pub open spec fn widget_box(w: Widget) -> BoundingBox {
    match w {
        Widget::Button(b) => BoundingBox { x: b.x, y: b.y, width: b.width, height: b.height },
        Widget::Label(l) => BoundingBox {
            x: if l.centered {
                (l.x - label::text_len(l.text) * 6) as i32
            } else {
                l.x
            },
            y: l.y,
            width: (label::text_len(l.text) * 12) as u32,
            height: 20,
        },
        Widget::ProgressBar(p) => BoundingBox { x: p.x, y: p.y, width: p.width, height: p.height },
        Widget::TempHumidCard(c) => BoundingBox { x: c.x, y: c.y, width: c.width, height: c.height },
        Widget::PressureCard(c) => BoundingBox { x: c.x, y: c.y, width: c.width, height: c.height },
        Widget::HistoryBar(h) => BoundingBox { x: h.x, y: h.y, width: h.width, height: h.height },
    }
}

impl Widget {
    /// The widget's box.
    pub fn bounding_box(&self) -> (b: BoundingBox)
        requires
            widget_box_ok(*self),
        ensures
            b == widget_box(*self),
    {
        match self {
            Widget::Button(b) => b.bounding_box(),
            Widget::Label(l) => l.bounding_box(),
            Widget::ProgressBar(p) => p.bounding_box(),
            Widget::TempHumidCard(c) => c.bounding_box(),
            Widget::PressureCard(c) => c.bounding_box(),
            Widget::HistoryBar(h) => h.bounding_box(),
        }
    }
}

} // verus!
