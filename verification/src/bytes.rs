//! Little-endian integers inside byte buffers.
//!
//! Every integer of the FUSE wire format is stored with its least significant
//! byte first. `le_bytes` and `le_value` are the two directions of that
//! encoding for any width; the executable functions read and write it.
use vstd::prelude::*;

verus! {

/// The `width` least significant bytes of `value`, least significant first.
pub open spec fn le_bytes(value: nat, width: nat) -> Seq<u8>
    decreases width,
{
    if width == 0 {
        Seq::empty()
    } else {
        seq![(value % 256) as u8] + le_bytes(value / 256, (width - 1) as nat)
    }
}

/// The number that `bytes` spells, least significant byte first.
pub open spec fn le_value(bytes: Seq<u8>) -> nat
    decreases bytes.len(),
{
    if bytes.len() == 0 {
        0
    } else {
        bytes[0] as nat + 256 * le_value(bytes.drop_first())
    }
}

/// `256` to the power `width`: one more than the largest number of that many bytes.
pub open spec fn le_limit(width: nat) -> nat
    decreases width,
{
    if width == 0 {
        1
    } else {
        256 * le_limit((width - 1) as nat)
    }
}

/// An encoding is as long as its width says.
pub broadcast proof fn lemma_le_bytes_len(value: nat, width: nat)
    ensures
        (#[trigger] le_bytes(value, width)).len() == width,
    decreases width,
{
    if width > 0 {
        lemma_le_bytes_len(value / 256, (width - 1) as nat);
    }
}

/// Decoding gives back what was encoded, for every value that fits the width.
pub broadcast proof fn law_le_value_of_bytes(value: nat, width: nat)
    requires
        value < le_limit(width),
    ensures
        le_value(#[trigger] le_bytes(value, width)) == value,
    decreases width,
{
    if width > 0 {
        let rest = le_bytes(value / 256, (width - 1) as nat);
        law_le_value_of_bytes(value / 256, (width - 1) as nat);
        assert(le_bytes(value, width).drop_first() =~= rest);
    }
}

/// Encoding gives back what was decoded, for every byte string.
pub proof fn law_le_bytes_of_value(bytes: Seq<u8>)
    ensures
        le_bytes(le_value(bytes), bytes.len()) == bytes,
        le_value(bytes) < le_limit(bytes.len()),
    decreases bytes.len(),
{
    if bytes.len() > 0 {
        let rest = bytes.drop_first();
        law_le_bytes_of_value(rest);
        assert(le_value(bytes) / 256 == le_value(rest));
        assert(le_value(bytes) % 256 == bytes[0]);
        assert(seq![bytes[0]] + rest =~= bytes);
    } else {
        assert(le_bytes(0, 0) =~= bytes);
    }
}

/// The limits of the widths that the wire format uses.
pub proof fn lemma_le_limits()
    ensures
        le_limit(1) == 0x100,
        le_limit(2) == 0x1_0000,
        le_limit(4) == 0x1_0000_0000,
        le_limit(8) == 0x1_0000_0000_0000_0000,
{
    reveal_with_fuel(le_limit, 9);
}

/// A decoded number is below the limit of its width.
pub broadcast proof fn lemma_le_value_bound(bytes: Seq<u8>)
    ensures
        (#[trigger] le_value(bytes)) < le_limit(bytes.len()),
{
    law_le_bytes_of_value(bytes);
}

/// Appends the `width` low bytes of `value`.
pub fn put_le(buf: &mut Vec<u8>, value: u64, width: usize)
    ensures
        final(buf)@ == old(buf)@ + le_bytes(value as nat, width as nat),
{
    let mut rest: u64 = value;
    let mut left: usize = width;
    let ghost start = buf@;
    assert(start + le_bytes(value as nat, width as nat) =~= buf@ + le_bytes(
        rest as nat,
        left as nat,
    ));
    while left > 0
        invariant
            start + le_bytes(value as nat, width as nat) == buf@ + le_bytes(
                rest as nat,
                left as nat,
            ),
        decreases left,
    {
        let ghost before = buf@;
        let low: u8 = (rest % 256) as u8;
        buf.push(low);
        proof {
            let tail = le_bytes((rest / 256) as nat, (left - 1) as nat);
            assert(before + (seq![low] + tail) =~= buf@ + tail);
        }
        rest = rest / 256;
        left = left - 1;
    }
    assert(buf@ + le_bytes(rest as nat, 0) =~= buf@);
}

/// Reads the `width`-byte number at offset `off` of the record that starts at `at`.
pub fn get_le(data: &[u8], at: usize, off: usize, width: usize) -> (value: u64)
    requires
        at + off + width <= data@.len(),
        width <= 8,
    ensures
        value == le_value(data@.skip(at as int).subrange(off as int, off + width)),
        value < le_limit(width as nat),
{
    let ghost field = data@.skip(at as int).subrange(off as int, off + width);
    let len: usize = data.len();
    let mut value: u64 = 0;
    let mut left: usize = width;
    assert(field.skip(width as int) =~= Seq::<u8>::empty());
    while left > 0
        invariant
            left <= width <= 8,
            len == data@.len(),
            at + off + width <= len,
            field == data@.skip(at as int).subrange(off as int, off + width),
            value == le_value(field.skip(left as int)),
        decreases left,
    {
        left = left - 1;
        let byte: u8 = data[at + off + left];
        proof {
            let rest = field.skip(left + 1);
            let now = field.skip(left as int);
            assert(now.drop_first() =~= rest);
            assert(now[0] == byte);
            lemma_le_value_bound(now);
            reveal_with_fuel(le_limit, 9);
        }
        value = value * 256 + byte as u64;
    }
    proof {
        assert(field.skip(0) =~= field);
        lemma_le_value_bound(field);
    }
    value
}

/// What two, four and eight bytes spell: each byte counts 256 times as much as
/// the one before it.
pub proof fn law_lowest_byte_first(bytes: Seq<u8>)
    ensures
        bytes.len() == 2 ==> le_value(bytes) == bytes[0] + 0x100 * bytes[1],
        bytes.len() == 4 ==> le_value(bytes) == bytes[0] + 0x100 * bytes[1] + 0x1_0000 * bytes[2]
            + 0x100_0000 * bytes[3],
        bytes.len() == 8 ==> le_value(bytes) == bytes[0] + 0x100 * bytes[1] + 0x1_0000 * bytes[2]
            + 0x100_0000 * bytes[3] + 0x1_0000_0000 * bytes[4] + 0x100_0000_0000 * bytes[5]
            + 0x1_0000_0000_0000 * bytes[6] + 0x100_0000_0000_0000 * bytes[7],
{
    reveal_with_fuel(le_value, 9);
}

} // verus!
