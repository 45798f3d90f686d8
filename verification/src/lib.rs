pub mod protocol;
pub mod text;
pub mod transaction;
pub mod usb;
pub mod device;
pub mod hidraw;
pub mod lcd;
pub mod commands;
pub mod gui;
pub mod stats;
