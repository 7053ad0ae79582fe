//! NFC Controller Interface (NCI) host stack and NFCC emulator core.
//!
//! The library holds the protocol logic: packet framing, segmentation and
//! reassembly, the command dispatcher, the logical-connection registry with
//! credit-based flow control, and the emulated controller's command handlers.
//! Transports, timers and task plumbing live outside and drive these types.
pub mod packet;
pub mod segment;
pub mod connections;
pub mod dispatcher;
pub mod controller;
pub mod messages;
pub mod scene;
pub mod hal;
pub mod api;
pub mod rf;

pub use hal::on_event;
pub use packet::is_control_packet;
