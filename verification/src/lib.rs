pub mod bluetooth;
pub mod devices;
pub mod media_controller;
pub mod ui;
