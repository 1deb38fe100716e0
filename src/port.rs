use vstd::prelude::*;

use crate::error::GpioError;
use crate::register::{bit_at, lemma_bit_at_is_bit, lemma_write_then_read, with_bit, Register};

verus! {

/// `byte` with bit `pin` flipped.
pub open spec fn toggled(byte: u8, pin: u8) -> u8 {
    with_bit(byte, pin, (1 - bit_at(byte, pin)) as u8)
}

/// Whether the direction byte `direction` marks `pin` as an output.
pub open spec fn is_output_in(direction: u8, pin: u8) -> bool {
    bit_at(direction, pin) == 1
}

/// What a pin write returns, given the direction byte: pin range first,
/// then direction, then the value.
pub open spec fn write_pin_result(direction: u8, pin: u8, value: u8) -> Result<(), GpioError> {
    if pin >= 8 {
        Err(GpioError::InvalidPin)
    } else if !is_output_in(direction, pin) {
        Err(GpioError::PinNotConfigured)
    } else if value > 1 {
        Err(GpioError::InvalidValue)
    } else {
        Ok(())
    }
}

/// What a toggle returns, given the direction byte.
pub open spec fn toggle_pin_result(direction: u8, pin: u8) -> Result<(), GpioError> {
    write_pin_result(direction, pin, 0)
}

/// Flipping a bit twice gives back the byte, and leaves the other bits alone.
pub proof fn lemma_toggle_twice(byte: u8, pin: u8)
    requires
        pin < 8,
    ensures
        toggled(toggled(byte, pin), pin) == byte,
        bit_at(toggled(byte, pin), pin) == 1 - bit_at(byte, pin),
{
    lemma_bit_at_is_bit(byte, pin);
    let once = toggled(byte, pin);
    lemma_write_then_read(byte, pin, (1 - bit_at(byte, pin)) as u8, pin);
    if bit_at(byte, pin) == 0 {
        assert(((byte | (1u8 << pin)) & !(1u8 << pin)) == byte) by (bit_vector)
            requires
                pin < 8,
                (byte >> pin) & 1u8 == 0,
        ;
    } else {
        assert(((byte & !(1u8 << pin)) | (1u8 << pin)) == byte) by (bit_vector)
            requires
                pin < 8,
                (byte >> pin) & 1u8 == 1,
        ;
    }
}

/// A write on a valid pin that is not an output is refused; once its
/// direction bit is set, a write of 0 or 1 on it goes through.
pub proof fn lemma_configure_enables_write(direction: u8, pin: u8, value: u8)
    requires
        pin < 8,
    ensures
        !is_output_in(direction, pin) ==> write_pin_result(direction, pin, value) == Err::<
            (),
            GpioError,
        >(GpioError::PinNotConfigured),
        value <= 1 ==> write_pin_result(with_bit(direction, pin, 1), pin, value) == Ok::<
            (),
            GpioError,
        >(()),
{
    lemma_write_then_read(direction, pin, 1, pin);
}

/// A data register and a direction register coupled into one port.
pub struct Port {
    /// The pins' levels.
    pub data: Register,
    /// One bit per pin: 1 for output, 0 for input.
    pub direction: Register,
}

impl Port {
    /// A port whose registers start at the given bytes.
    pub fn new(data: u8, direction: u8) -> (r: Port)
        ensures
            r.data@ == data,
            r.direction@ == direction,
    {
        Port { data: Register::new(data), direction: Register::new(direction) }
    }

    /// Marks `pin` as an output (`is_output`) or an input.
    pub fn configure_direction(&mut self, pin: u8, is_output: bool) -> (r: Result<(), GpioError>)
        ensures
            pin >= 8 ==> r == Err::<(), GpioError>(GpioError::InvalidPin),
            pin < 8 ==> r == Ok::<(), GpioError>(()),
            final(self).data@ == old(self).data@,
            pin < 8 ==> final(self).direction@ == with_bit(
                old(self).direction@,
                pin,
                if is_output {
                    1
                } else {
                    0
                },
            ),
            pin >= 8 ==> final(self).direction@ == old(self).direction@,
    {
        let bit: u8 = if is_output {
            1
        } else {
            0
        };
        self.direction.write_bit(pin, bit)
    }

    /// Reads the level of `pin` back from the data register, whatever its
    /// direction.
    pub fn read_pin(&self, pin: u8) -> (r: Result<u8, GpioError>)
        ensures
            pin < 8 ==> r == Ok::<u8, GpioError>(bit_at(self.data@, pin)),
            pin >= 8 ==> r == Err::<u8, GpioError>(GpioError::InvalidPin),
    {
        self.data.read_bit(pin)
    }

    /// Drives `pin` to `value`; the pin must be configured as an output.
    pub fn write_pin(&mut self, pin: u8, value: u8) -> (r: Result<(), GpioError>)
        ensures
            r == write_pin_result(old(self).direction@, pin, value),
            final(self).direction@ == old(self).direction@,
            r is Ok ==> final(self).data@ == with_bit(old(self).data@, pin, value),
            r is Err ==> final(self).data@ == old(self).data@,
    {
        if pin >= 8 {
            return Err(GpioError::InvalidPin);
        }
        let dir: u8 = match self.direction.read_bit(pin) {
            Ok(d) => d,
            Err(e) => {
                return Err(e);
            },
        };
        if dir != 1 {
            return Err(GpioError::PinNotConfigured);
        }
        self.data.write_bit(pin, value)
    }

    /// Drives `pin` to the complement of its current level.
    pub fn toggle_pin(&mut self, pin: u8) -> (r: Result<(), GpioError>)
        ensures
            r == toggle_pin_result(old(self).direction@, pin),
            final(self).direction@ == old(self).direction@,
            r is Ok ==> final(self).data@ == toggled(old(self).data@, pin),
            r is Ok ==> bit_at(final(self).data@, pin) == 1 - bit_at(old(self).data@, pin),
            r is Err ==> final(self).data@ == old(self).data@,
    {
        let current: u8 = match self.read_pin(pin) {
            Ok(v) => v,
            Err(e) => {
                return Err(e);
            },
        };
        proof {
            lemma_bit_at_is_bit(old(self).data@, pin);
            lemma_toggle_twice(old(self).data@, pin);
        }
        let next: u8 = match current {
            0 => 1,
            1 => 0,
            _ => {
                return Err(GpioError::InternalConsistencyFault);
            },
        };
        self.write_pin(pin, next)
    }
}

} // verus!
