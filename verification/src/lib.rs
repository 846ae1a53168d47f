//! Protocol logic for a single-wire temperature sensor and the display
//! cycle around it: the CRC-8 scratchpad check, temperature decoding,
//! fixed-capacity text formatting, and the cycle controller's state
//! machine.

pub mod controller;
pub mod crc;
pub mod sensor;
pub mod text;
