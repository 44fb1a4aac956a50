//! V.22bis self-synchronizing scrambler: a 17-bit shift register with
//! taps 14 and 17 (q_i = d_i xor q_{i-14} xor q_{i-17}).

use vstd::prelude::*;
use crate::bits::{byte_bits, byte_of_bits, bits_value, pow2, lemma_pow2_small,
    lemma_bits_value_bound};

verus! {

/// One bit of a 17-bit shift register, counted from the last inserted bit.
pub open spec fn reg_bit(reg: u32, j: u32) -> bool {
    ((reg >> j) & 1) == 1
}

/// Output bit of one scrambler step: input xor tap 14 xor tap 17.
pub open spec fn scr_out(reg: u32, input: bool) -> bool {
    (input != reg_bit(reg, 13)) != reg_bit(reg, 16)
}

/// Register after one scrambler step: shift left, insert the output bit,
/// keep 17 bits.
pub open spec fn scr_next(reg: u32, input: bool) -> u32 {
    ((reg << 1) | (if scr_out(reg, input) { 1u32 } else { 0u32 })) & 0x1FFFF
}

/// Register after feeding the first `n` bits of `s`, starting from `reg0`.
pub open spec fn scr_reg_at(reg0: u32, s: Seq<bool>, n: int) -> u32
    decreases n,
{
    if n <= 0 {
        reg0
    } else {
        scr_next(scr_reg_at(reg0, s, n - 1), s[n - 1])
    }
}

/// Output bit produced for position `i` of the input stream `s`.
pub open spec fn scr_out_at(reg0: u32, s: Seq<bool>, i: int) -> bool {
    scr_out(scr_reg_at(reg0, s, i), s[i])
}

/// The whole output stream for input stream `s` from register `reg0`.
pub open spec fn scr_stream(reg0: u32, s: Seq<bool>) -> Seq<bool> {
    Seq::new(s.len(), |i: int| scr_out_at(reg0, s, i))
}

/// V.22bis scrambler; the identical object descrambles, fed the
/// scrambled stream.
pub struct Scrambler {
    shift_register: u32,
}

impl View for Scrambler {
    type V = u32;

    closed spec fn view(&self) -> u32 {
        self.shift_register
    }
}

impl Scrambler {
    pub fn new() -> (s: Self)
        ensures
            s@ == 0u32,
    {
        Scrambler { shift_register: 0 }
    }

    /// Scramble a single bit and shift it into the register.
    pub fn scramble_bit(&mut self, input_bit: bool) -> (r: bool)
        ensures
            r == scr_out(old(self)@, input_bit),
            final(self)@ == scr_next(old(self)@, input_bit),
    {
        let reg = self.shift_register;
        let bit14 = (reg >> 13) & 1;
        let bit17 = (reg >> 16) & 1;
        let inp: u32 = if input_bit { 1 } else { 0 };
        let output_bit = inp ^ bit14 ^ bit17;
        self.shift_register = ((reg << 1) | output_bit) & 0x1FFFF;
        proof {
            assert((inp ^ ((reg >> 13) & 1) ^ ((reg >> 16) & 1)) == (if (
            (inp == 1) != (((reg >> 13) & 1) == 1)) != (((reg >> 16) & 1) == 1) {
                1u32
            } else {
                0u32
            })) by (bit_vector)
                requires
                    inp == 1 || inp == 0,
            ;
        }
        output_bit != 0
    }

    /// Scramble one byte, LSB first.
    pub fn scramble_byte(&mut self, byte: u8) -> (r: u8)
        ensures
            r == byte_of_bits(scr_stream(old(self)@, byte_bits(byte))),
            final(self)@ == scr_reg_at(old(self)@, byte_bits(byte), 8),
    {
        let ghost reg0 = self@;
        let ghost inbits = byte_bits(byte);
        let ghost outbits = scr_stream(reg0, inbits);
        let mut acc: u32 = 0;
        let mut weight: u32 = 1;
        let mut i: usize = 0;
        while i < 8
            invariant
                i <= 8,
                self@ == scr_reg_at(reg0, inbits, i as int),
                inbits == byte_bits(byte),
                outbits == scr_stream(reg0, inbits),
                weight == pow2(i as nat),
                acc == bits_value(outbits, i as int),
                acc < weight,
            decreases 8 - i,
        {
            proof {
                lemma_pow2_small(i as nat);
                lemma_pow2_small((i + 1) as nat);
            }
            let input_bit = (((byte as u32) >> (i as u32)) & 1) == 1;
            proof {
                assert(input_bit == inbits[i as int]);
            }
            let out = self.scramble_bit(input_bit);
            proof {
                assert(out == outbits[i as int]);
            }
            if out {
                acc = acc + weight;
            }
            weight = weight * 2;
            i = i + 1;
        }
        proof {
            lemma_bits_value_bound(outbits, 8);
            lemma_pow2_small(8);
            assert(byte_of_bits(outbits) == acc as u8);
        }
        acc as u8
    }

    pub fn reset(&mut self)
        ensures
            final(self)@ == 0u32,
    {
        self.shift_register = 0;
    }
}

/// Bit `j` of the register after `n` steps: outputs shift through the
/// register youngest first; older positions still show the initial
/// register contents.
proof fn lemma_reg_bit_at(reg0: u32, s: Seq<bool>, n: int, j: u32)
    requires
        0 <= n <= s.len(),
        j < 17,
    ensures
        reg_bit(scr_reg_at(reg0, s, n), j) == if (j as int) < n {
            scr_out_at(reg0, s, n - 1 - j)
        } else {
            reg_bit(reg0, (j - n) as u32)
        },
    decreases n,
{
    if n > 0 {
        let prev = scr_reg_at(reg0, s, n - 1);
        let o: u32 = if scr_out(prev, s[n - 1]) {
            1u32
        } else {
            0u32
        };
        let cur = scr_reg_at(reg0, s, n);
        assert(cur == ((prev << 1) | o) & 0x1FFFF);
        assert((((((prev << 1) | o) & 0x1FFFF) >> j) & 1) == (if j == 0 {
            o
        } else {
            ((prev >> ((j - 1) as u32)) & 1)
        })) by (bit_vector)
            requires
                j < 17,
                o <= 1,
        ;
        if j == 0 {
            assert(reg_bit(cur, 0) == scr_out_at(reg0, s, n - 1));
        } else {
            lemma_reg_bit_at(reg0, s, n - 1, (j - 1) as u32);
        }
    }
}

/// The output stream recurrence: each output bit is the input bit xor
/// the outputs 14 and 17 steps back (or the initial register bits while
/// the register has not yet filled).
proof fn lemma_scr_out_rec(reg0: u32, s: Seq<bool>, i: int)
    requires
        0 <= i < s.len(),
    ensures
        scr_out_at(reg0, s, i) == ((s[i] != (if i >= 14 {
            scr_out_at(reg0, s, i - 14)
        } else {
            reg_bit(reg0, (13 - i) as u32)
        })) != (if i >= 17 {
            scr_out_at(reg0, s, i - 17)
        } else {
            reg_bit(reg0, (16 - i) as u32)
        })),
{
    lemma_reg_bit_at(reg0, s, i, 13);
    lemma_reg_bit_at(reg0, s, i, 16);
}

proof fn lemma_zero_reg_bit(j: u32)
    ensures
        !reg_bit(0u32, j),
{
    assert(((0u32 >> j) & 1) == 0) by (bit_vector);
}

/// Feeding a stream through two fresh scrambler instances in sequence
/// reproduces the stream at every position below 28: until there, the
/// taps of both registers still agree bit for bit.
proof fn lemma_double_scramble_at(b: Seq<bool>, i: int)
    requires
        0 <= i < b.len(),
        i < 28,
    ensures
        scr_stream(0, scr_stream(0, b))[i] == b[i],
    decreases i,
{
    let c = scr_stream(0, b);
    lemma_scr_out_rec(0, b, i);
    lemma_scr_out_rec(0, c, i);
    if i < 14 {
        lemma_zero_reg_bit((13 - i) as u32);
        lemma_zero_reg_bit((16 - i) as u32);
    } else if i < 17 {
        lemma_zero_reg_bit((16 - i) as u32);
        lemma_double_scramble_at(b, i - 14);
        lemma_scr_out_rec(0, b, i - 14);
        lemma_zero_reg_bit((13 - (i - 14)) as u32);
        lemma_zero_reg_bit((16 - (i - 14)) as u32);
    } else {
        lemma_double_scramble_at(b, i - 14);
        lemma_double_scramble_at(b, i - 17);
        lemma_scr_out_rec(0, b, i - 14);
        lemma_zero_reg_bit((13 - (i - 14)) as u32);
        lemma_zero_reg_bit((16 - (i - 14)) as u32);
        lemma_scr_out_rec(0, b, i - 17);
        lemma_zero_reg_bit((13 - (i - 17)) as u32);
        lemma_zero_reg_bit((16 - (i - 17)) as u32);
    }
}

/// Scrambling a bit stream with a fresh scrambler and feeding the
/// result through a fresh instance of the same recurrence reproduces
/// the original stream on the first 28 bits. (From bit 28 on, the
/// descrambler side's feedback taps pick up scrambled rather than
/// plain bits, and the two streams may differ.)
pub proof fn lemma_scramble_twice_prefix(b: Seq<bool>)
    ensures
        forall|i: int|
            0 <= i < b.len() && i < 28 ==> scr_stream(0, scr_stream(0, b))[i] == b[i],
{
    assert forall|i: int| 0 <= i < b.len() && i < 28 implies scr_stream(
        0,
        scr_stream(0, b),
    )[i] == b[i] by {
        lemma_double_scramble_at(b, i);
    }
}

} // verus!
