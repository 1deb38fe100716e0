use vstd::prelude::*;

use crate::error::GpioError;

verus! {

/// Number of bits in a register; valid pin indices are `0..REGISTER_WIDTH`.
pub const REGISTER_WIDTH: u8 = 8;

/// Bit `pos` of `byte`, as 0 or 1.
pub open spec fn bit_at(byte: u8, pos: u8) -> u8 {
    (byte >> pos) & 1u8
}

/// `byte` with bit `pos` cleared when `value` is 0 and set otherwise.
pub open spec fn with_bit(byte: u8, pos: u8, value: u8) -> u8 {
    if value == 0 {
        byte & !(1u8 << pos)
    } else {
        byte | (1u8 << pos)
    }
}

/// Every bit of a byte is 0 or 1.
pub proof fn lemma_bit_at_is_bit(byte: u8, pos: u8)
    ensures
        bit_at(byte, pos) <= 1,
{
    assert((byte >> pos) & 1u8 <= 1) by (bit_vector);
}

/// Writing a bit and reading it back gives the value written, and every
/// other bit keeps the value it had.
pub proof fn lemma_write_then_read(byte: u8, p: u8, v: u8, q: u8)
    requires
        p < 8,
        q < 8,
        v <= 1,
    ensures
        bit_at(with_bit(byte, p, v), p) == v,
        q != p ==> bit_at(with_bit(byte, p, v), q) == bit_at(byte, q),
{
    if v == 0 {
        assert(((byte & !(1u8 << p)) >> p) & 1u8 == 0) by (bit_vector)
            requires
                p < 8,
        ;
        assert(q != p ==> ((byte & !(1u8 << p)) >> q) & 1u8 == (byte >> q) & 1u8) by (bit_vector)
            requires
                p < 8,
                q < 8,
        ;
    } else {
        assert(((byte | (1u8 << p)) >> p) & 1u8 == 1) by (bit_vector)
            requires
                p < 8,
        ;
        assert(q != p ==> ((byte | (1u8 << p)) >> q) & 1u8 == (byte >> q) & 1u8) by (bit_vector)
            requires
                p < 8,
                q < 8,
        ;
    }
}

/// Reads bit `position` of `byte`.
pub fn read_bit(byte: u8, position: u8) -> (r: Result<u8, GpioError>)
    ensures
        position < 8 ==> r == Ok::<u8, GpioError>(bit_at(byte, position)),
        position >= 8 ==> r == Err::<u8, GpioError>(GpioError::InvalidPin),
{
    if position >= REGISTER_WIDTH {
        return Err(GpioError::InvalidPin);
    }
    let mask: u8 = 1u8 << position;
    let r: u8 = (byte & mask) >> position;
    assert(r == bit_at(byte, position)) by (bit_vector)
        requires
            position < 8,
            mask == 1u8 << position,
            r == (byte & mask) >> position,
    ;
    Ok(r)
}

/// One byte-wide hardware register. Its byte is reached only through
/// [`Register::read_bit`] and [`Register::write_bit`].
pub struct Register {
    value: u8,
}

impl View for Register {
    type V = u8;

    closed spec fn view(&self) -> u8 {
        self.value
    }
}

impl Register {
    /// A register holding `initial`.
    pub fn new(initial: u8) -> (r: Register)
        ensures
            r@ == initial,
    {
        Register { value: initial }
    }

    /// The whole byte, for observers that render the register.
    pub fn value(&self) -> (r: u8)
        ensures
            r == self@,
    {
        self.value
    }

    /// Reads bit `pin` of the register.
    pub fn read_bit(&self, pin: u8) -> (r: Result<u8, GpioError>)
        ensures
            pin < 8 ==> r == Ok::<u8, GpioError>(bit_at(self@, pin)),
            pin >= 8 ==> r == Err::<u8, GpioError>(GpioError::InvalidPin),
    {
        read_bit(self.value, pin)
    }

    /// Sets bit `pin` to `value`, leaving the other bits as they were.
    /// The register is left unchanged when the call fails.
    pub fn write_bit(&mut self, pin: u8, value: u8) -> (r: Result<(), GpioError>)
        ensures
            pin >= 8 ==> r == Err::<(), GpioError>(GpioError::InvalidPin),
            pin < 8 && value > 1 ==> r == Err::<(), GpioError>(GpioError::InvalidValue),
            pin < 8 && value <= 1 ==> r == Ok::<(), GpioError>(()),
            r is Ok ==> final(self)@ == with_bit(old(self)@, pin, value),
            r is Ok ==> forall|q: u8|
                #![trigger bit_at(final(self)@, q)]
                q < 8 ==> bit_at(final(self)@, q) == if q == pin {
                    value
                } else {
                    bit_at(old(self)@, q)
                },
            r is Err ==> final(self)@ == old(self)@,
    {
        if pin >= REGISTER_WIDTH {
            return Err(GpioError::InvalidPin);
        }
        if value > 1 {
            return Err(GpioError::InvalidValue);
        }
        let mask: u8 = 1u8 << pin;
        let state: u8 = self.value;
        let next: u8 = if value == 0 {
            state & !mask
        } else {
            state | mask
        };
        self.value = next;
        assert forall|q: u8| q < 8 implies #[trigger] bit_at(next, q) == if q == pin {
            value
        } else {
            bit_at(state, q)
        } by {
            lemma_write_then_read(state, pin, value, q);
        }
        Ok(())
    }
}

} // verus!
