//! LSB-first packing between bytes and bit streams, shared by the FSK
//! and QAM/DPSK modem paths.

use vstd::prelude::*;

verus! {

/// 2^n.
pub open spec fn pow2(n: nat) -> nat
    decreases n,
{
    if n == 0 {
        1
    } else {
        2 * pow2((n - 1) as nat)
    }
}

/// Bit `i` of a byte, LSB first.
pub open spec fn bit_of_byte(b: u8, i: int) -> bool {
    (((b as u32) >> (i as u32)) & 1) == 1
}

/// The eight bits of a byte, LSB first.
pub open spec fn byte_bits(b: u8) -> Seq<bool> {
    Seq::new(8, |i: int| bit_of_byte(b, i))
}

/// Value of the first `n` bits of `s`, read LSB first.
pub open spec fn bits_value(s: Seq<bool>, n: int) -> nat
    decreases n,
{
    if n <= 0 {
        0
    } else {
        bits_value(s, n - 1) + (if s[n - 1] {
            pow2((n - 1) as nat)
        } else {
            0
        })
    }
}

/// The byte with the eight given bits, LSB first.
pub open spec fn byte_of_bits(s: Seq<bool>) -> u8 {
    bits_value(s, 8) as u8
}

/// A byte stream unpacked to bits, LSB first within each byte.
pub open spec fn bytes_to_bits_spec(bs: Seq<u8>) -> Seq<bool> {
    Seq::new(bs.len() * 8, |i: int| bit_of_byte(bs[i / 8], i % 8))
}

/// A bit stream packed to bytes, eight bits per byte LSB first; a
/// trailing incomplete byte is dropped.
pub open spec fn bits_to_bytes_spec(s: Seq<bool>) -> Seq<u8> {
    Seq::new(s.len() / 8, |k: int| byte_of_bits(s.subrange(8 * k, 8 * k + 8)))
}

pub(crate) proof fn lemma_pow2_small(n: nat)
    requires
        n <= 8,
    ensures
        pow2(n) <= 256,
{
    reveal_with_fuel(pow2, 9);
    if n == 0 {
        assert(pow2(0) == 1);
    } else if n == 1 {
        assert(pow2(1) == 2);
    } else if n == 2 {
        assert(pow2(2) == 4);
    } else if n == 3 {
        assert(pow2(3) == 8);
    } else if n == 4 {
        assert(pow2(4) == 16);
    } else if n == 5 {
        assert(pow2(5) == 32);
    } else if n == 6 {
        assert(pow2(6) == 64);
    } else if n == 7 {
        assert(pow2(7) == 128);
    } else {
        assert(pow2(8) == 256);
    }
}

pub(crate) proof fn lemma_bits_value_bound(s: Seq<bool>, n: int)
    requires
        0 <= n,
    ensures
        bits_value(s, n) < pow2(n as nat),
    decreases n,
{
    if n > 0 {
        lemma_bits_value_bound(s, n - 1);
    }
}

proof fn lemma_bits_value_of_byte(b: u8)
    ensures
        bits_value(byte_bits(b), 8) == b,
{
    let s = byte_bits(b);
    reveal_with_fuel(bits_value, 9);
    reveal_with_fuel(pow2, 9);
    let bu = b as u32;
    assert(((bu >> 0) & 1) <= 1 && ((bu >> 1) & 1) <= 1 && ((bu >> 2) & 1) <= 1 && ((bu >> 3) & 1)
        <= 1 && ((bu >> 4) & 1) <= 1 && ((bu >> 5) & 1) <= 1 && ((bu >> 6) & 1) <= 1 && ((bu >> 7)
        & 1) <= 1) by (bit_vector);
    assert(((bu >> 0) & 1) + 2 * ((bu >> 1) & 1) + 4 * ((bu >> 2) & 1) + 8 * ((bu >> 3) & 1) + 16
        * ((bu >> 4) & 1) + 32 * ((bu >> 5) & 1) + 64 * ((bu >> 6) & 1) + 128 * ((bu >> 7) & 1)
        == bu) by (bit_vector)
        requires
            bu < 256,
    ;
    assert(bits_value(s, 8) == b);
}

proof fn lemma_byte_of_bits_extract(s: Seq<bool>, j: int)
    requires
        0 <= j < 8,
        s.len() == 8,
    ensures
        bit_of_byte(byte_of_bits(s), j) == s[j],
{
    reveal_with_fuel(bits_value, 9);
    reveal_with_fuel(pow2, 9);
    let t0: u32 = if s[0] { 1 } else { 0 };
    let t1: u32 = if s[1] { 1 } else { 0 };
    let t2: u32 = if s[2] { 1 } else { 0 };
    let t3: u32 = if s[3] { 1 } else { 0 };
    let t4: u32 = if s[4] { 1 } else { 0 };
    let t5: u32 = if s[5] { 1 } else { 0 };
    let t6: u32 = if s[6] { 1 } else { 0 };
    let t7: u32 = if s[7] { 1 } else { 0 };
    let v: u32 = (t0 + 2 * t1 + 4 * t2 + 8 * t3 + 16 * t4 + 32 * t5 + 64 * t6 + 128 * t7) as u32;
    assert(bits_value(s, 8) == v);
    lemma_bits_value_bound(s, 8);
    let b = byte_of_bits(s);
    assert(b as u32 == v);
    let bv = b as u32;
    let ju = j as u32;
    assert((((bv >> ju) & 1) == 1) == (if ju == 0 {
        t0 == 1
    } else if ju == 1 {
        t1 == 1
    } else if ju == 2 {
        t2 == 1
    } else if ju == 3 {
        t3 == 1
    } else if ju == 4 {
        t4 == 1
    } else if ju == 5 {
        t5 == 1
    } else {
        if ju == 6 {
            t6 == 1
        } else {
            t7 == 1
        }
    })) by (bit_vector)
        requires
            ju < 8,
            t0 <= 1 && t1 <= 1 && t2 <= 1 && t3 <= 1 && t4 <= 1 && t5 <= 1 && t6 <= 1 && t7 <= 1,
            bv == t0 + 2 * t1 + 4 * t2 + 8 * t3 + 16 * t4 + 32 * t5 + 64 * t6 + 128 * t7,
    ;
}

/// Unpacking a byte and packing the bits again restores the byte.
pub proof fn lemma_byte_bits_roundtrip(b: u8)
    ensures
        byte_of_bits(byte_bits(b)) == b,
{
    lemma_bits_value_of_byte(b);
}

/// Packing bytes to a bit stream and back is the identity: byte
/// reassembly after modulation loses nothing on whole bytes.
pub proof fn lemma_bytes_to_bits_roundtrip(bs: Seq<u8>)
    ensures
        bits_to_bytes_spec(bytes_to_bits_spec(bs)) == bs,
{
    let flat = bytes_to_bits_spec(bs);
    assert(flat.len() == bs.len() * 8);
    assert(flat.len() / 8 == bs.len()) by (nonlinear_arith)
        requires
            flat.len() == bs.len() * 8,
    ;
    let packed = bits_to_bytes_spec(flat);
    assert forall|k: int| 0 <= k < bs.len() implies packed[k] == bs[k] by {
        let chunk = flat.subrange(8 * k, 8 * k + 8);
        assert forall|i: int| 0 <= i < 8 implies chunk[i] == bit_of_byte(bs[k], i) by {
            assert(chunk[i] == flat[8 * k + i]);
            assert((8 * k + i) / 8 == k && (8 * k + i) % 8 == i) by (nonlinear_arith)
                requires
                    0 <= i < 8,
                    0 <= k,
            ;
        }
        assert(chunk =~= byte_bits(bs[k]));
        lemma_byte_bits_roundtrip(bs[k]);
    }
    assert(packed =~= bs);
}

/// A bit stream of whole bytes survives packing and unpacking.
pub proof fn lemma_bits_to_bytes_roundtrip(s: Seq<bool>)
    requires
        s.len() % 8 == 0,
    ensures
        bytes_to_bits_spec(bits_to_bytes_spec(s)) == s,
{
    let packed = bits_to_bytes_spec(s);
    let back = bytes_to_bits_spec(packed);
    assert(packed.len() == s.len() / 8);
    assert(packed.len() * 8 == s.len()) by (nonlinear_arith)
        requires
            packed.len() == s.len() / 8,
            s.len() % 8 == 0,
    ;
    assert forall|i: int| 0 <= i < s.len() implies back[i] == s[i] by {
        let k = i / 8;
        let j = i % 8;
        assert(0 <= j < 8 && 0 <= k < packed.len() && i == 8 * k + j) by (nonlinear_arith)
            requires
                0 <= i < s.len(),
                k == i / 8,
                j == i % 8,
                packed.len() * 8 == s.len(),
        ;
        let chunk = s.subrange(8 * k, 8 * k + 8);
        lemma_byte_of_bits_extract(chunk, j);
        assert(chunk[j] == s[8 * k + j]);
    }
    assert(back =~= s);
}

/// Unpack bytes to a bit stream, LSB first.
pub fn bytes_to_bits(data: &[u8]) -> (r: Vec<bool>)
    ensures
        r@ == bytes_to_bits_spec(data@),
{
    let mut r: Vec<bool> = Vec::new();
    let mut k: usize = 0;
    while k < data.len()
        invariant
            k <= data.len(),
            r@.len() == k * 8,
            forall|i: int| 0 <= i < r@.len() ==> r@[i] == bit_of_byte(data@[i / 8], i % 8),
        decreases data.len() - k,
    {
        let b = data[k];
        let mut i: usize = 0;
        while i < 8
            invariant
                i <= 8,
                k < data.len(),
                b == data@[k as int],
                r@.len() == k * 8 + i,
                forall|j: int| 0 <= j < r@.len() ==> r@[j] == bit_of_byte(data@[j / 8], j % 8),
            decreases 8 - i,
        {
            let bit = (((b as u32) >> (i as u32)) & 1) == 1;
            r.push(bit);
            proof {
                let idx = r@.len() - 1;
                assert(idx == k * 8 + i);
                assert(idx / 8 == k && idx % 8 == i) by (nonlinear_arith)
                    requires
                        idx == k * 8 + i,
                        0 <= i < 8,
                        0 <= k,
                ;
            }
            i = i + 1;
        }
        k = k + 1;
    }
    proof {
        assert(r@ =~= bytes_to_bits_spec(data@));
    }
    r
}

/// Pack a bit stream to bytes, eight bits per byte LSB first; trailing
/// incomplete bytes are dropped.
pub fn bits_to_bytes(bits: &[bool]) -> (r: Vec<u8>)
    ensures
        r@ == bits_to_bytes_spec(bits@),
{
    let mut r: Vec<u8> = Vec::new();
    let n: usize = bits.len() / 8;
    let mut k: usize = 0;
    while k < n
        invariant
            k <= n,
            n == bits@.len() / 8,
            bits@.len() <= usize::MAX,
            r@.len() == k,
            forall|m: int|
                0 <= m < k ==> r@[m] == byte_of_bits(bits@.subrange(8 * m, 8 * m + 8)),
        decreases n - k,
    {
        proof {
            assert(k * 8 + 8 <= bits@.len()) by (nonlinear_arith)
                requires
                    k < n,
                    n == bits@.len() / 8,
            ;
        }
        let ghost chunk = bits@.subrange(8 * k, 8 * k + 8);
        let mut acc: u32 = 0;
        let mut weight: u32 = 1;
        let mut i: usize = 0;
        while i < 8
            invariant
                i <= 8,
                k * 8 + 8 <= bits@.len(),
                bits@.len() <= usize::MAX,
                chunk == bits@.subrange(8 * k as int, 8 * k as int + 8),
                weight == pow2(i as nat),
                acc == bits_value(chunk, i as int),
                acc < weight,
            decreases 8 - i,
        {
            proof {
                lemma_pow2_small(i as nat);
                lemma_pow2_small((i + 1) as nat);
                assert(chunk[i as int] == bits@[8 * k + i]);
            }
            if bits[k * 8 + i] {
                acc = acc + weight;
            }
            weight = weight * 2;
            i = i + 1;
        }
        proof {
            lemma_bits_value_bound(chunk, 8);
            lemma_pow2_small(8);
            assert(byte_of_bits(chunk) == acc as u8);
        }
        r.push(acc as u8);
        k = k + 1;
    }
    proof {
        assert(r@ =~= bits_to_bytes_spec(bits@));
    }
    r
}

} // verus!
