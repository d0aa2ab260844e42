//! Driver for an I2C-attached module that combines a 4x4 capacitive keypad
//! with a 16-pixel RGB LED array behind a register-oriented firmware
//! interface.
//!
//! The driver turns typed operations (set a pixel color, read a key event,
//! configure event detection) into byte-exact register transactions over a
//! caller-supplied bus, and decodes raw device responses back into typed
//! values.  Every bus transfer a driver function makes, and every settling
//! pause the protocol mandates between transfers, is pinned down in its
//! contract as a sequence of [`Step`](protocol::Step) values, in order.

pub mod bus;
pub mod codec;
pub mod color;
pub mod device;
pub mod error;
pub mod grid;
pub mod protocol;

pub use bus::Delay;
pub use bus::Transport;
pub use codec::Event;
pub use codec::Key;
pub use codec::KeypadEvent;
pub use codec::decode_fifo_byte;
pub use color::Color;
pub use device::NeoTrellis;
pub use protocol::Step;
pub use error::Error;
pub use grid::MultiEvent;
pub use grid::MultiTrellis;
