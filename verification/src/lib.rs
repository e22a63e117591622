//! Verified core of a local agent that forwards raw ESC/POS print jobs to a
//! USB HID thermal printer or to the operating system's print spooler.
pub mod text;
pub mod numfmt;
pub mod config;
pub mod platform;
pub mod hid;
pub mod printer;
pub mod system_printer;
pub mod tray;
pub mod server;
