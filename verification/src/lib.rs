//! Frame-buffer logic for a 2.13" tri-colour (black, white, red) e-paper
//! panel, together with the command sequences that drive it.
//!
//! The hardware side (SPI bus, GPIO lines, delays, the busy line and the
//! timer) is kept outside this library: the library describes what is to be
//! sent and in which order, and the caller carries it out.

pub mod busy_wait;
pub mod display_driver;
pub mod frame_laws;
pub mod panel;
