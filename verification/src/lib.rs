//! Verified core of a terminal user interface: rectangles, the rule that
//! partitions a rectangle among sizing constraints, and the small state
//! machines that drive a screen between two frames.
//!
//! Everything here is a plain value. Drawing, the terminal and the event
//! source live with the caller, who hands events in and gets rectangles and
//! decisions back.

pub mod buttons;
pub mod constraint;
pub mod error;
pub mod event;
pub mod layout;
pub mod layout_laws;
pub mod length_laws;
pub mod placement;
pub mod placement_laws;
pub mod popup;
pub mod rect;
pub mod run_loop;
pub mod screen;
pub mod selected_tab;
pub mod sizing;
pub mod sums;
pub mod tabs;
