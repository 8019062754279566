//! The display, also reachable at the crate's top level.

pub use crate::drivers::display::{
    DisplayOrientation, FlushPlan, FrameBuffer, LcdOp, address_window, init_sequence,
};
