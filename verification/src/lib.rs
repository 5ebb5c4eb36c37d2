//! Verified protocol, encoding and decision logic for driving a Corsair
//! Elite LCD cooler screen as a 480x480 second display.

pub mod admin;
pub mod device;
pub mod frame;
pub mod launch;
pub mod media;
pub mod playback;
pub mod pe;
pub mod probe;
pub mod restore;
pub mod settings;
pub mod stream;
pub mod text;
pub mod tray;
pub mod virtual_display;

