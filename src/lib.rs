//! An emulated GPIO port pair (a data register and a data-direction
//! register) and a bit-banged serial transmitter that shifts bytes out over
//! a CLOCK pin and a DATA pin.
//!
//! Every register change goes through the bit accessors of [`register`], so
//! the state of the lines can always be rebuilt from register snapshots.

pub mod error;
pub mod register;
pub mod port;
pub mod encoder;
pub mod report;
pub mod transmitter;
