//! The logic of the ClearXR space: input dispatch, the shell's state, panel
//! pixels, and the choices made around the graphics and XR runtimes.
//!
//! Everything here works on plain values; numbers are the bit patterns of singles.
//! Devices, windows, files and angles live in the application around this crate.

pub mod app;
pub mod audio;
pub mod capture;
pub mod config;
pub mod desktop_session;
pub mod geometry;
pub mod input;
pub mod launcher_panel;
pub mod mirror_window;
pub mod panel;
pub mod pixels;
pub mod renderer;
pub mod root;
pub mod rounding;
pub mod scalar;
pub mod screen_capture;
pub mod seconds;
pub mod shell;
pub mod text;
pub mod ui;
pub mod vk_backend;
pub mod xr_session;
