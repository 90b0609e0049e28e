//! The frame pipeline of an immediate-mode GUI toolkit: identifier allocation,
//! document trees, hit-test tag assignment, style matching, timers and the
//! bounds check behind stack-checked pointers.

pub mod ids;
pub mod timer;
pub mod css;
pub mod dom;
pub mod button;
pub mod ui_state;
pub mod style;
pub mod ui_description;
pub mod stack_checked_pointer;
pub mod layout_style;
pub mod app;
pub mod task;
