//! Drives a small USB-serial display panel: the packet framer, the serial
//! link protocol, the device session, the frame pipeline and the scheduler
//! that rotates the info screens.
//!
//! Nothing here performs input or output. The session and the pipeline are
//! state machines: they hand out the next link action and take back what
//! came of it, so the caller owns the port, the clock and the threads.

pub mod checksum;
pub mod packet;
pub mod transport;
pub mod sensor;
pub mod link;
pub mod device;
pub mod convert_image;
pub mod codec;
pub mod pipeline;
pub mod screen;
pub mod rotation;
pub mod screen_manager;
pub mod config;
pub mod hotkeys;
