pub mod api;
pub mod camera;
pub mod gpio;
