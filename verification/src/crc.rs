//! The scratchpad checksum: a table-free CRC-8 with reflected polynomial
//! 0x8C and initial value 0, processing each byte least-significant-bit
//! first. A scratchpad is intact exactly when the CRC-8 of all of its
//! bytes, trailing checksum byte included, is zero.

use vstd::prelude::*;

verus! {

/// One bit iteration: fold the low bit of remainder-xor-data into the
/// shifted remainder.
pub open spec fn crc8_bit(crc: u8, data: u8) -> u8 {
    if (crc ^ data) & 1 == 1 {
        (crc >> 1) ^ 0x8C
    } else {
        crc >> 1
    }
}

/// `n` bit iterations over one data byte, the data shifting right each time.
pub open spec fn crc8_bits(crc: u8, data: u8, n: nat) -> u8
    decreases n,
{
    if n == 0 {
        crc
    } else {
        crc8_bits(crc8_bit(crc, data), data >> 1, (n - 1) as nat)
    }
}

/// Fold one whole byte (8 bit iterations) into the remainder.
pub open spec fn crc8_byte(crc: u8, b: u8) -> u8 {
    crc8_bits(crc, b, 8)
}

/// Fold a byte sequence into the remainder, front to back.
pub open spec fn crc8_from(crc: u8, s: Seq<u8>) -> u8
    decreases s.len(),
{
    if s.len() == 0 {
        crc
    } else {
        crc8_from(crc8_byte(crc, s[0]), s.subrange(1, s.len() as int))
    }
}

/// The CRC-8 of a byte sequence, starting from remainder 0.
pub open spec fn crc8_spec(s: Seq<u8>) -> u8 {
    crc8_from(0, s)
}

/// Compute the CRC-8 of `data`.
pub fn crc8(data: &[u8]) -> (crc: u8)
    ensures
        crc == crc8_spec(data@),
{
    let mut crc: u8 = 0;
    let mut i: usize = 0;
    while i < data.len()
        invariant
            i <= data@.len(),
            crc == crc8_from(0, data@.subrange(0, i as int)),
        decreases data@.len() - i,
    {
        let ghost crc_in = crc;
        let mut data_byte: u8 = data[i];
        let mut j: usize = 0;
        while j < 8
            invariant
                j <= 8,
                crc8_bits(crc, data_byte, (8 - j) as nat) == crc8_byte(crc_in, data@[i as int]),
            decreases 8 - j,
        {
            let temp: u8 = (crc ^ data_byte) & 0x01;
            proof {
                assert(temp == 0 || temp == 1) by (bit_vector)
                    requires
                        temp == (crc ^ data_byte) & 0x01,
                ;
            }
            crc >>= 1;
            if temp != 0 {
                crc ^= 0x8C;
            }
            data_byte >>= 1;
            j += 1;
        }
        proof {
            assert(data@.subrange(0, i + 1) =~= data@.subrange(0, i as int).push(data@[i as int]));
            lemma_crc8_from_snoc(0, data@.subrange(0, i as int), data@[i as int]);
        }
        i += 1;
    }
    proof {
        assert(data@.subrange(0, data@.len() as int) =~= data@);
    }
    crc
}

/// Folding a sequence extended by one byte is folding the sequence, then
/// the byte.
pub proof fn lemma_crc8_from_snoc(crc: u8, s: Seq<u8>, b: u8)
    ensures
        crc8_from(crc, s.push(b)) == crc8_byte(crc8_from(crc, s), b),
    decreases s.len(),
{
    if s.len() == 0 {
        assert(s.push(b)[0] == b);
        assert(s.push(b).subrange(1, 1) =~= Seq::<u8>::empty());
        assert(crc8_from(crc, s.push(b)) == crc8_from(crc8_byte(crc, b), Seq::<u8>::empty()));
        assert(crc8_from(crc, s) == crc);
    } else {
        assert(s.push(b)[0] == s[0]);
        assert(s.push(b).subrange(1, s.push(b).len() as int) =~= s.subrange(
            1,
            s.len() as int,
        ).push(b));
        lemma_crc8_from_snoc(crc8_byte(crc, s[0]), s.subrange(1, s.len() as int), b);
    }
}

/// Running `n` bit iterations of a byte over itself only shifts the
/// remainder: the feedback taps never fire.
proof fn lemma_crc8_bits_self(c: u8, n: nat)
    requires
        n <= 8,
    ensures
        crc8_bits(c, c, n) == c >> (n as u8),
    decreases n,
{
    if n == 0 {
        assert(c >> 0u8 == c) by (bit_vector);
    } else {
        assert((c ^ c) & 1 == 0) by (bit_vector);
        lemma_crc8_bits_self(c >> 1, (n - 1) as nat);
        let m = (n - 1) as u8;
        assert(m < 8 ==> (c >> 1) >> m == c >> ((m + 1) as u8)) by (bit_vector);
    }
}

/// Appending the running checksum to any data gives checksum zero: the
/// self-check of an intact scratchpad.
pub proof fn lemma_crc8_self_check(data: Seq<u8>)
    ensures
        crc8_spec(data.push(crc8_spec(data))) == 0,
{
    let c = crc8_spec(data);
    lemma_crc8_from_snoc(0, data, c);
    lemma_crc8_bits_self(c, 8);
    assert(c >> 8u8 == 0) by (bit_vector);
}

/// One bit iteration is linear over xor, in the remainder and the data
/// together.
proof fn lemma_crc8_bit_linear(c1: u8, d1: u8, c2: u8, d2: u8)
    by (bit_vector)
    ensures
        crc8_bit(c1 ^ c2, d1 ^ d2) == crc8_bit(c1, d1) ^ crc8_bit(c2, d2),
{
}

/// `n` bit iterations are linear over xor.
proof fn lemma_crc8_bits_linear(c1: u8, d1: u8, c2: u8, d2: u8, n: nat)
    ensures
        crc8_bits(c1 ^ c2, d1 ^ d2, n) == crc8_bits(c1, d1, n) ^ crc8_bits(c2, d2, n),
    decreases n,
{
    if n > 0 {
        lemma_crc8_bit_linear(c1, d1, c2, d2);
        assert((d1 ^ d2) >> 1 == (d1 >> 1) ^ (d2 >> 1)) by (bit_vector);
        lemma_crc8_bits_linear(
            crc8_bit(c1, d1),
            d1 >> 1,
            crc8_bit(c2, d2),
            d2 >> 1,
            (n - 1) as nat,
        );
    }
}

/// The xor of two byte sequences of one length, element by element.
pub open spec fn xor_seq(s1: Seq<u8>, s2: Seq<u8>) -> Seq<u8> {
    Seq::new(s1.len(), |i: int| s1[i] ^ s2[i])
}

/// Folding is linear over xor of the remainders and the sequences.
proof fn lemma_crc8_from_linear(c1: u8, s1: Seq<u8>, c2: u8, s2: Seq<u8>)
    requires
        s1.len() == s2.len(),
    ensures
        crc8_from(c1 ^ c2, xor_seq(s1, s2)) == crc8_from(c1, s1) ^ crc8_from(c2, s2),
    decreases s1.len(),
{
    if s1.len() == 0 {
        assert(xor_seq(s1, s2).len() == 0);
    } else {
        let x = xor_seq(s1, s2);
        assert(x[0] == s1[0] ^ s2[0]);
        lemma_crc8_bits_linear(c1, s1[0], c2, s2[0], 8);
        assert(x.subrange(1, x.len() as int) =~= xor_seq(
            s1.subrange(1, s1.len() as int),
            s2.subrange(1, s2.len() as int),
        ));
        lemma_crc8_from_linear(
            crc8_byte(c1, s1[0]),
            s1.subrange(1, s1.len() as int),
            crc8_byte(c2, s2[0]),
            s2.subrange(1, s2.len() as int),
        );
    }
}

/// A sequence with a single one-bit byte at position `j`, zero elsewhere.
pub open spec fn single_bit_seq(len: nat, j: int, k: int) -> Seq<u8> {
    Seq::new(len, |i: int| if i == j { 1u8 << (k as u8) } else { 0u8 })
}

/// A remainder that is nonzero stays nonzero while zero data is folded in.
proof fn lemma_crc8_bits_zero_data(c: u8, n: nat)
    requires
        c != 0,
    ensures
        crc8_bits(c, 0, n) != 0,
    decreases n,
{
    if n > 0 {
        assert(crc8_bit(c, 0) != 0) by (bit_vector)
            requires
                c != 0,
        ;
        assert(0u8 >> 1 == 0) by (bit_vector);
        lemma_crc8_bits_zero_data(crc8_bit(c, 0), (n - 1) as nat);
    }
}

/// Folding zero bytes keeps a zero remainder at zero.
proof fn lemma_crc8_from_zero_prefix(s: Seq<u8>)
    requires
        forall|i: int| 0 <= i < s.len() ==> s[i] == 0,
    ensures
        crc8_from(0, s) == 0,
    decreases s.len(),
{
    if s.len() > 0 {
        lemma_crc8_bits_self(0, 8);
        assert(0u8 >> 8u8 == 0) by (bit_vector);
        lemma_crc8_from_zero_prefix(s.subrange(1, s.len() as int));
    }
}

/// Folding zero bytes keeps a nonzero remainder nonzero.
proof fn lemma_crc8_from_zero_suffix(c: u8, s: Seq<u8>)
    requires
        c != 0,
        forall|i: int| 0 <= i < s.len() ==> s[i] == 0,
    ensures
        crc8_from(c, s) != 0,
    decreases s.len(),
{
    if s.len() > 0 {
        lemma_crc8_bits_zero_data(c, 8);
        lemma_crc8_from_zero_suffix(crc8_byte(c, 0), s.subrange(1, s.len() as int));
    }
}

/// Running bit iterations over a byte with one bit set: the remainder
/// stays zero until the set bit arrives, turns nonzero there, and stays
/// nonzero while the remaining zero bits are folded in.
proof fn lemma_crc8_bits_single(k: u8, n: nat)
    requires
        k < n <= 8,
    ensures
        crc8_bits(0, 1u8 << k, n) != 0,
    decreases n,
{
    if k == 0 {
        assert((0u8 ^ (1u8 << 0u8)) & 1 == 1) by (bit_vector);
        assert(crc8_bit(0, 1u8 << 0u8) == (0u8 >> 1) ^ 0x8C);
        assert((0u8 >> 1) ^ 0x8C != 0) by (bit_vector);
        assert((1u8 << 0u8) >> 1 == 0) by (bit_vector);
        lemma_crc8_bits_zero_data((0u8 >> 1) ^ 0x8C, (n - 1) as nat);
    } else {
        assert((0u8 ^ (1u8 << k)) & 1 == 0) by (bit_vector)
            requires
                0 < k < 8,
        ;
        assert(0u8 >> 1 == 0) by (bit_vector);
        assert((1u8 << k) >> 1 == 1u8 << ((k - 1) as u8)) by (bit_vector)
            requires
                0 < k < 8,
        ;
        lemma_crc8_bits_single((k - 1) as u8, (n - 1) as nat);
    }
}

/// A byte with one bit set folds from a zero remainder to a nonzero one.
proof fn lemma_crc8_byte_single_bit(k: int)
    requires
        0 <= k < 8,
    ensures
        crc8_byte(0, 1u8 << (k as u8)) != 0,
{
    lemma_crc8_bits_single(k as u8, 8);
}

/// The checksum of a sequence with exactly one bit set is nonzero.
proof fn lemma_crc8_single_bit_nonzero(len: nat, j: int, k: int)
    requires
        0 <= j < len,
        0 <= k < 8,
    ensures
        crc8_spec(single_bit_seq(len, j, k)) != 0,
{
    let e = single_bit_seq(len, j, k);
    let pre = e.subrange(0, j);
    lemma_crc8_from_zero_prefix(pre);
    lemma_crc8_prefix_zero(e, j);
    lemma_crc8_byte_single_bit(k);
    let c = crc8_byte(0, 1u8 << (k as u8));
    let suf = e.subrange(j + 1, e.len() as int);
    lemma_crc8_from_zero_suffix(c, suf);
    assert(crc8_from(0, e.subrange(j, e.len() as int)) == crc8_from(c, suf)) by {
        assert(e.subrange(j, e.len() as int)[0] == e[j]);
        assert(e[j] == 1u8 << (k as u8));
        assert(e.subrange(j, e.len() as int).subrange(
            1,
            e.subrange(j, e.len() as int).len() as int,
        ) =~= suf);
    }
}

/// Folding a sequence whose first `j` bytes are zero starts, in effect,
/// at position `j`.
proof fn lemma_crc8_prefix_zero(s: Seq<u8>, j: int)
    requires
        0 <= j <= s.len(),
        forall|i: int| 0 <= i < j ==> s[i] == 0,
    ensures
        crc8_from(0, s) == crc8_from(0, s.subrange(j, s.len() as int)),
    decreases j,
{
    if j > 0 {
        lemma_crc8_bits_self(0, 8);
        assert(0u8 >> 8u8 == 0) by (bit_vector);
        assert(s[0] == 0);
        assert(crc8_byte(0, s[0]) == 0);
        let tail = s.subrange(1, s.len() as int);
        assert(forall|i: int| 0 <= i < j - 1 ==> tail[i] == 0);
        assert(tail.subrange(j - 1, tail.len() as int) =~= s.subrange(j, s.len() as int));
        lemma_crc8_prefix_zero(tail, j - 1);
        assert(crc8_from(0, s) == crc8_from(0, tail));
    } else {
        assert(s.subrange(0, s.len() as int) =~= s);
    }
}

/// `s` with bit `k` of byte `j` flipped.
pub open spec fn flip_bit(s: Seq<u8>, j: int, k: int) -> Seq<u8> {
    s.update(j, s[j] ^ (1u8 << (k as u8)))
}

/// Flipping any single bit of a sequence whose checksum is zero makes the
/// checksum nonzero: every one-bit corruption of an intact scratchpad is
/// detected.
pub proof fn lemma_crc8_detects_bit_flip(s: Seq<u8>, j: int, k: int)
    requires
        crc8_spec(s) == 0,
        0 <= j < s.len(),
        0 <= k < 8,
    ensures
        crc8_spec(flip_bit(s, j, k)) != 0,
{
    let e = single_bit_seq(s.len(), j, k);
    assert(flip_bit(s, j, k) =~= xor_seq(s, e)) by {
        assert(forall|x: u8| #![auto] x ^ 0 == x) by (bit_vector);
    }
    assert(0u8 ^ 0u8 == 0) by (bit_vector);
    lemma_crc8_from_linear(0, s, 0, e);
    lemma_crc8_single_bit_nonzero(s.len(), j, k);
    assert(forall|x: u8| #![auto] 0 ^ x == x) by (bit_vector);
    assert(crc8_spec(xor_seq(s, e)) == crc8_from(0, e));
}

} // verus!

