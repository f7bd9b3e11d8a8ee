//! Board-support drivers for the mlogv32 soft core: the memory-mapped serial
//! ports, the machine timer with its wake dispatcher, and the text printer of
//! the display.
//!
//! The drivers reach their devices through small traits, so that the same
//! verified logic drives the hardware and the in-memory stand-ins that this
//! crate brings along. A driver never waits: where the device is not ready it
//! says so, and the caller decides whether to spin, to yield or to give up.

pub mod uart;
pub mod port;
pub mod ring;
pub mod buffered;
pub mod timer;
pub mod time_driver;
pub mod graphics;
pub mod display;
pub mod report;
