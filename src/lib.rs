//! Host-side driver for the PN532 NFC controller: frame codec, readiness
//! polling and zero-copy enumeration of detected tags.
pub mod bus;
pub mod error;
pub mod proto;
pub mod tags;
mod device;

pub use device::{check_sam_reply, copy_reply_data, SAMMode, PN532};
