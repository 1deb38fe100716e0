use vstd::prelude::*;

verus! {

/// Why a register or pin operation was refused.
#[derive(Debug, Clone, Copy, PartialEq, Eq, Structural)]
pub enum GpioError {
    /// A pin index outside `0..=7`.
    InvalidPin,
    /// A value to write that is neither 0 nor 1.
    InvalidValue,
    /// A write on a pin whose direction bit does not say "output".
    PinNotConfigured,
    /// A pin read back a value that is neither 0 nor 1.
    InternalConsistencyFault,
}

} // verus!
