//! Panel interfaces: their input events and the pixels they are drawn with.

pub mod egui_gpu_renderer;
pub mod egui_panel_renderer;
pub mod egui_renderer;
pub mod texture_table;
pub mod ui_renderer;
