//! Pictures of the screen and of the view.

pub mod screen_capture;
pub mod screenshot;
