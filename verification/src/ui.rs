pub mod messages;
pub mod tray;
pub mod window;
