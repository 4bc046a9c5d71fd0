//! Bring-up diagnostics for a freestanding kernel image: a text-mode display
//! writer over a fixed cell grid, a serial transmitter with an ordered
//! transmit log, a diagnostic exit device, and a test harness that reports
//! progress over the serial path.

pub mod exit;
pub mod facade;
pub mod harness;
pub mod panic_router;
pub mod serial;
pub mod vga;
