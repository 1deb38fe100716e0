use vstd::prelude::*;

use crate::port::Port;
use crate::register::{bit_at, read_bit};

verus! {

/// The digit for one bit: `'1'` for 1, `'0'` otherwise.
pub open spec fn bit_char(bit: u8) -> char {
    if bit == 1 {
        '1'
    } else {
        '0'
    }
}

/// The eight digits of `byte`, most significant bit first.
pub open spec fn bit_digits(byte: u8) -> Seq<char> {
    Seq::new(8, |i: int| bit_char(bit_at(byte, (7 - i) as u8)))
}

/// Renders `byte` as eight `'0'`/`'1'` digits, most significant bit first.
pub fn render_bits(byte: u8) -> (r: Vec<char>)
    ensures
        r@ == bit_digits(byte),
{
    let mut out: Vec<char> = Vec::new();
    let mut i: u8 = 8;
    while i > 0
        invariant
            i <= 8,
            out@ == bit_digits(byte).take(8 - i),
        decreases i,
    {
        i = i - 1;
        let bit: u8 = match read_bit(byte, i) {
            Ok(b) => b,
            Err(_) => 0,
        };
        let c: char = if bit == 1 {
            '1'
        } else {
            '0'
        };
        out.push(c);
        assert(bit_digits(byte).take(8 - i) =~= bit_digits(byte).take(8 - (i + 1)).push(c));
    }
    assert(bit_digits(byte).take(8) =~= bit_digits(byte));
    out
}

/// Renders a port as its data register's digits and its direction
/// register's digits.
pub fn render_port(port: &Port) -> (r: (Vec<char>, Vec<char>))
    ensures
        r.0@ == bit_digits(port.data@),
        r.1@ == bit_digits(port.direction@),
{
    (render_bits(port.data.value()), render_bits(port.direction.value()))
}

} // verus!
