//! In-memory substrate for a simulated network stack: a registry of network
//! devices with an enforced Up/Down state machine, and an interrupt registry
//! that turns raised interrupt lines into handler dispatches through a
//! portable pending-notification queue.

pub mod dummy;
pub mod error;
pub mod intr;
pub mod net;
pub mod util;
