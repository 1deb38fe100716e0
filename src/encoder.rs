use vstd::prelude::*;

use crate::register::{bit_at, read_bit};

verus! {

/// The eight bits of `byte`, most significant first.
pub open spec fn byte_bits(byte: u8) -> Seq<u8> {
    Seq::new(8, |i: int| bit_at(byte, (7 - i) as u8))
}

/// The bits of every byte of `bytes` in turn, each byte most significant
/// bit first.
pub open spec fn bytes_bits(bytes: Seq<u8>) -> Seq<u8>
    decreases bytes.len(),
{
    if bytes.len() == 0 {
        Seq::empty()
    } else {
        bytes_bits(bytes.drop_last()) + byte_bits(bytes.last())
    }
}

/// Appends the eight bits of `byte` to `buffer`, most significant first.
pub fn add_data_to_buffer(byte: u8, buffer: &mut Vec<u8>)
    ensures
        final(buffer)@ == old(buffer)@ + byte_bits(byte),
{
    let ghost start = buffer@;
    let mut i: u8 = 8;
    while i > 0
        invariant
            i <= 8,
            buffer@ == start + byte_bits(byte).take(8 - i),
        decreases i,
    {
        i = i - 1;
        let bit: u8 = match read_bit(byte, i) {
            Ok(b) => b,
            Err(_) => 0,
        };
        buffer.push(bit);
        assert(byte_bits(byte).take(8 - i) =~= byte_bits(byte).take(8 - (i + 1)).push(bit));
    }
    assert(byte_bits(byte).take(8) =~= byte_bits(byte));
}

/// Encodes every byte of `bytes`, in order, into one bit sequence.
pub fn encode_bytes(bytes: &Vec<u8>) -> (r: Vec<u8>)
    ensures
        r@ == bytes_bits(bytes@),
{
    let mut buffer: Vec<u8> = Vec::new();
    let mut k: usize = 0;
    while k < bytes.len()
        invariant
            k <= bytes@.len(),
            buffer@ == bytes_bits(bytes@.take(k as int)),
        decreases bytes@.len() - k,
    {
        add_data_to_buffer(bytes[k], &mut buffer);
        assert(bytes@.take(k as int + 1).drop_last() =~= bytes@.take(k as int));
        k = k + 1;
    }
    assert(bytes@.take(bytes@.len() as int) =~= bytes@);
    buffer
}

/// A buffer built from `n` whole bytes holds `8 * n` bits, and every entry
/// is 0 or 1.
pub proof fn lemma_bytes_bits_shape(bytes: Seq<u8>)
    ensures
        bytes_bits(bytes).len() == 8 * bytes.len(),
        forall|i: int| 0 <= i < bytes_bits(bytes).len() ==> #[trigger] bytes_bits(bytes)[i] <= 1,
    decreases bytes.len(),
{
    if bytes.len() > 0 {
        lemma_bytes_bits_shape(bytes.drop_last());
        let last = bytes.last();
        assert forall|j: int| 0 <= j < 8 implies #[trigger] byte_bits(last)[j] <= 1 by {
            crate::register::lemma_bit_at_is_bit(last, (7 - j) as u8);
        }
    }
}

} // verus!
