//! Little-endian assembly of byte windows into unsigned values.
use vstd::prelude::*;

use vstd::arithmetic::div_mod::{lemma_fundamental_div_mod, lemma_fundamental_div_mod_converse};

use crate::error::ReadError;
use crate::BITS_IN_BYTE;

verus! {

/// Weight of the byte at offset `i` of a window: 256 to the power `i`.
pub open spec fn place(i: nat) -> nat
    decreases i,
{
    if i == 0 {
        1
    } else {
        256 * place((i - 1) as nat)
    }
}

/// The number that a window of bytes stands for when the byte at the lowest
/// offset is the least significant: the sum of `window[i] * 256^i`.
pub open spec fn le_value(window: Seq<u8>) -> nat
    decreases window.len(),
{
    if window.len() == 0 {
        0
    } else {
        le_value(window.drop_last()) + window.last() as nat * place((window.len() - 1) as nat)
    }
}

/// The window of `width` bytes that starts at offset `index`.
pub open spec fn window_at(bytes: Seq<u8>, index: int, width: int) -> Seq<u8> {
    bytes.subrange(index, index + width)
}

/// The 32-bit value of a window. It is the window's number itself for a
/// window of at most four bytes, which is all that a 32-bit value can hold.
pub open spec fn word_of(window: Seq<u8>) -> u32 {
    #[verifier::truncate]
    (le_value(window) as u32)
}

/// The values that `bytes` decode to at `width` bytes per value: one for each
/// complete window, in the order of the bytes.
pub open spec fn assembled(bytes: Seq<u8>, width: nat) -> Seq<u32> {
    Seq::new(
        bytes.len() / width,
        |k: int| word_of(window_at(bytes, k * width, width as int)),
    )
}

/// A window of `n` bytes stands for a number below `256^n`.
pub proof fn lemma_le_value_bound(window: Seq<u8>)
    ensures
        le_value(window) < place(window.len()),
    decreases window.len(),
{
    if window.len() > 0 {
        lemma_le_value_bound(window.drop_last());
        let below = place((window.len() - 1) as nat);
        assert(window.last() as nat * below <= 255 * below) by (nonlinear_arith)
            requires
                window.last() <= 255,
        ;
    }
}

/// The 32-bit value of a window of at most four bytes is the window's number.
pub proof fn lemma_word_is_value(window: Seq<u8>)
    requires
        window.len() <= 4,
    ensures
        word_of(window) as nat == le_value(window),
        le_value(window) <= u32::MAX,
{
    lemma_le_value_bound(window);
    lemma_place_values();
}

/// Each decoded value is the number of its window, for the widths that a
/// 32-bit value can hold; and the windows lie within the bytes.
pub proof fn lemma_assembled_values(bytes: Seq<u8>, width: nat, k: int)
    requires
        1 <= width <= 4,
        0 <= k < assembled(bytes, width).len(),
    ensures
        0 <= k * width,
        k * width + width <= bytes.len(),
        assembled(bytes, width)[k] == le_value(window_at(bytes, k * width, width as int)),
{
    let count = bytes.len() / width;
    lemma_fundamental_div_mod(bytes.len() as int, width as int);
    assert(0 <= k * width && k * width + width <= width * count) by (nonlinear_arith)
        requires
            0 <= k < count,
            0 < width,
    ;
    lemma_word_is_value(window_at(bytes, k * width, width as int));
}

/// The weights of the four offsets of a 32-bit value, and the first weight
/// beyond them.
pub proof fn lemma_place_values()
    ensures
        place(0) == 1,
        place(1) == 0x100,
        place(2) == 0x1_0000,
        place(3) == 0x100_0000,
        place(4) == 0x1_0000_0000,
{
    reveal_with_fuel(place, 5);
}

/// The number of a window of one to four bytes, written out: the first byte,
/// 256 times the second, 65536 times the third, 16777216 times the fourth.
pub proof fn lemma_le_value_written_out(window: Seq<u8>)
    requires
        1 <= window.len() <= 4,
    ensures
        window.len() == 1 ==> le_value(window) == window[0],
        window.len() == 2 ==> le_value(window) == window[0] + 0x100 * window[1],
        window.len() == 3 ==> le_value(window) == window[0] + 0x100 * window[1] + 0x1_0000
            * window[2],
        window.len() == 4 ==> le_value(window) == window[0] + 0x100 * window[1] + 0x1_0000
            * window[2] + 0x100_0000 * window[3],
    decreases window.len(),
{
    lemma_place_values();
    let shorter = window.drop_last();
    if shorter.len() > 0 {
        lemma_le_value_written_out(shorter);
    } else {
        assert(le_value(shorter) == 0);
    }
}

/// The weight at offset `a + b` is the product of those at `a` and at `b`.
pub proof fn lemma_place_add(a: nat, b: nat)
    ensures
        place(a + b) == place(a) * place(b),
    decreases b,
{
    if b > 0 {
        lemma_place_add(a, (b - 1) as nat);
        assert(256 * (place(a) * place((b - 1) as nat)) == place(a) * (256 * place(
            (b - 1) as nat,
        ))) by (nonlinear_arith);
    } else {
        assert(place(a) * 1 == place(a)) by (nonlinear_arith);
    }
}

/// The number of two windows laid end to end: the first window's number,
/// and the second's raised by the length of the first.
pub proof fn lemma_le_value_concat(low: Seq<u8>, high: Seq<u8>)
    ensures
        le_value(low + high) == le_value(low) + place(low.len()) * le_value(high),
    decreases high.len(),
{
    if high.len() == 0 {
        assert(low + high == low);
        assert(place(low.len()) * 0 == 0) by (nonlinear_arith);
    } else {
        let whole = low + high;
        let shorter = high.drop_last();
        assert(whole.drop_last() == low + shorter);
        assert(whole.last() == high.last());
        lemma_le_value_concat(low, shorter);
        lemma_place_add(low.len(), shorter.len());
        let p = place(low.len());
        let q = place(shorter.len());
        let v = le_value(shorter);
        let b = high.last() as nat;
        assert(p * v + b * (p * q) == p * (v + b * q)) by (nonlinear_arith);
    }
}

/// A 32-bit value and the two 16-bit values decoded from the same four
/// bytes agree: the low half of the wide value is the first narrow value,
/// and its high half is the second.
pub proof fn lemma_halves_of_words(bytes: Seq<u8>, k: int)
    requires
        0 <= k < bytes.len() / 4,
    ensures
        2 * k + 1 < bytes.len() / 2,
        assembled(bytes, 4)[k] & 0xFFFF == assembled(bytes, 2)[2 * k],
        assembled(bytes, 4)[k] >> 16 == assembled(bytes, 2)[2 * k + 1],
{
    let whole = window_at(bytes, k * 4, 4);
    let low = window_at(bytes, (2 * k) * 2, 2);
    let high = window_at(bytes, (2 * k + 1) * 2, 2);
    assert(whole == low + high);
    lemma_le_value_concat(low, high);
    lemma_word_is_value(whole);
    lemma_word_is_value(low);
    lemma_word_is_value(high);
    lemma_le_value_bound(low);
    lemma_le_value_bound(high);
    lemma_place_values();
    let w: u32 = word_of(whole);
    let l: u32 = word_of(low);
    let h: u32 = word_of(high);
    assert(w & 0xFFFF == l && w >> 16 == h) by (bit_vector)
        requires
            l < 0x1_0000,
            h < 0x1_0000,
            w == l + 0x1_0000 * h,
    ;
}

/// Shifting a byte left by `8 * i` bits multiplies it by `256^i`, for the
/// offsets that fit a 32-bit value.
proof fn lemma_shift_is_scale(byte: u8, i: usize)
    requires
        i < 4,
    ensures
        ((byte as u32) << ((i * 8) as usize)) == byte as nat * place(i as nat),
{
    lemma_place_values();
    let wide: u32 = byte as u32;
    if i == 0 {
        assert(wide << 0usize == wide) by (bit_vector);
    } else if i == 1 {
        assert(wide << 8usize == wide * 0x100) by (bit_vector)
            requires
                wide < 0x100,
        ;
    } else if i == 2 {
        assert(wide << 16usize == wide * 0x1_0000) by (bit_vector)
            requires
                wide < 0x100,
        ;
    } else {
        assert(wide << 24usize == wide * 0x100_0000) by (bit_vector)
            requires
                wide < 0x100,
        ;
    }
}

/// Assembles the `length` bytes of `vector` that start at `index` into one
/// value, the first byte least significant. There is no value where the
/// window reaches past the end of `vector`.
pub fn bytes_to_num(vector: &[u8], index: usize, length: usize) -> (num: Option<u32>)
    requires
        length <= 4,
    ensures
        index + length <= vector@.len() ==> num == Some(
            word_of(window_at(vector@, index as int, length as int)),
        ) && num->Some_0 == le_value(window_at(vector@, index as int, length as int)),
        index + length > vector@.len() ==> num is None,
{
    if length > vector.len() || index > vector.len() - length {
        return None;
    }
    let ghost window = window_at(vector@, index as int, length as int);
    let mut acc: u32 = 0;
    let mut i: usize = 0;
    while i < length
        invariant
            i <= length <= 4,
            index + length <= vector@.len() <= usize::MAX,
            window == window_at(vector@, index as int, length as int),
            acc == le_value(window.take(i as int)),
        decreases length - i,
    {
        let shift_size: usize = i * BITS_IN_BYTE;
        let shifted_byte: u32 = (vector[index + i] as u32) << shift_size;
        proof {
            let next = window.take(i + 1);
            assert(next.drop_last() == window.take(i as int));
            assert(next.last() == vector@[index + i]);
            lemma_shift_is_scale(vector@[index + i], i);
            lemma_le_value_bound(next);
            assert(place(next.len()) <= 0x1_0000_0000) by {
                reveal_with_fuel(place, 5);
            }
        }
        acc = acc + shifted_byte;
        i += 1;
    }
    proof {
        assert(window.take(length as int) == window);
    }
    Some(acc)
}

/// Decodes `vector` into one value for each window of `bytes_per_value`
/// bytes. Bytes left over after the last complete window fail the whole
/// decode: none is dropped and none is padded.
pub fn byte_vec_to_value_vec(vector: &[u8], bytes_per_value: usize) -> (values: Result<
    Vec<u32>,
    ReadError,
>)
    requires
        1 <= bytes_per_value <= 4,
    ensures
        vector@.len() % (bytes_per_value as nat) == 0 ==> values is Ok && values->Ok_0@
            == assembled(vector@, bytes_per_value as nat),
        vector@.len() % (bytes_per_value as nat) != 0 ==> values == Err::<Vec<u32>, ReadError>(
            ReadError::IncompleteWord,
        ),
{
    let mut values: Vec<u32> = Vec::new();
    let mut i: usize = 0;
    assert(0 == values@.len() * bytes_per_value) by (nonlinear_arith)
        requires
            values@.len() == 0,
    ;
    while i < vector.len()
        invariant
            1 <= bytes_per_value <= 4,
            i <= vector@.len(),
            i == values@.len() * bytes_per_value,
            forall|k: int|
                0 <= k < values@.len() ==> values@[k] == word_of(
                    window_at(vector@, k * bytes_per_value, bytes_per_value as int),
                ),
        decreases vector@.len() - i,
    {
        match bytes_to_num(vector, i, bytes_per_value) {
            Some(number) => {
                values.push(number);
            },
            None => {
                proof {
                    lemma_fundamental_div_mod_converse(
                        vector@.len() as int,
                        bytes_per_value as int,
                        values@.len() as int,
                        vector@.len() - i,
                    );
                }
                return Err(ReadError::IncompleteWord);
            },
        }
        proof {
            assert((values@.len() - 1) * bytes_per_value + bytes_per_value == values@.len()
                * bytes_per_value) by (nonlinear_arith);
        }
        i += bytes_per_value;
    }
    proof {
        lemma_fundamental_div_mod_converse(
            vector@.len() as int,
            bytes_per_value as int,
            values@.len() as int,
            0,
        );
        assert(values@ =~= assembled(vector@, bytes_per_value as nat));
    }
    Ok(values)
}

} // verus!
