use vstd::prelude::*;

verus! {

// The board writes its envelope fields in host byte order.  The target
// hardware is little-endian, so this library fixes every "native" field of
// the envelope to little-endian, as the design notes require.

/// Unsigned 16-bit value stored little-endian at `i`.
pub open spec fn u16_le_at(s: Seq<u8>, i: int) -> int {
    s[i] + 256 * s[i + 1]
}

/// Unsigned 32-bit value stored little-endian at `i`.
pub open spec fn u32_le_at(s: Seq<u8>, i: int) -> int {
    s[i] + 256 * s[i + 1] + 65536 * s[i + 2] + 16777216 * s[i + 3]
}

/// Unsigned 64-bit value stored little-endian at `i`.
pub open spec fn u64_le_at(s: Seq<u8>, i: int) -> int {
    u32_le_at(s, i) + 0x1_0000_0000 * u32_le_at(s, i + 4)
}

/// Unsigned 16-bit value stored big-endian at `i`.
pub open spec fn u16_be_at(s: Seq<u8>, i: int) -> int {
    256 * s[i] + s[i + 1]
}

/// Unsigned 32-bit value stored big-endian at `i`.
pub open spec fn u32_be_at(s: Seq<u8>, i: int) -> int {
    16777216 * s[i] + 65536 * s[i + 1] + 256 * s[i + 2] + s[i + 3]
}

/// Two's-complement 16-bit value stored little-endian at `i`.
pub open spec fn i16_le_at(s: Seq<u8>, i: int) -> int {
    if u16_le_at(s, i) >= 0x8000 {
        u16_le_at(s, i) - 0x1_0000
    } else {
        u16_le_at(s, i)
    }
}

/// Two's-complement 32-bit value stored little-endian at `i`.
pub open spec fn i32_le_at(s: Seq<u8>, i: int) -> int {
    if u32_le_at(s, i) >= 0x8000_0000 {
        u32_le_at(s, i) - 0x1_0000_0000
    } else {
        u32_le_at(s, i)
    }
}

pub fn get_u16_from_byte_array(data: &[u8], index: usize) -> (r: u16)
    requires
        index + 2 <= data@.len(),
    ensures
        r == u16_le_at(data@, index as int),
{
    data[index] as u16 + 256 * data[index + 1] as u16
}

pub fn get_u16_from_le_byte_array(data: &[u8], index: usize) -> (r: u16)
    requires
        index + 2 <= data@.len(),
    ensures
        r == u16_le_at(data@, index as int),
{
    get_u16_from_byte_array(data, index)
}

pub fn get_u32_from_byte_array(data: &[u8], index: usize) -> (r: u32)
    requires
        index + 4 <= data@.len(),
    ensures
        r == u32_le_at(data@, index as int),
{
    data[index] as u32 + 256 * data[index + 1] as u32 + 65536 * data[index + 2] as u32
        + 16777216 * data[index + 3] as u32
}

pub fn get_u32_from_le_byte_array(data: &[u8], index: usize) -> (r: u32)
    requires
        index + 4 <= data@.len(),
    ensures
        r == u32_le_at(data@, index as int),
{
    get_u32_from_byte_array(data, index)
}

pub fn get_u64_from_byte_array(data: &[u8], index: usize) -> (r: u64)
    requires
        index + 8 <= data@.len(),
    ensures
        r == u64_le_at(data@, index as int),
{
    let n = data.len();
    assert(index + 4 <= n);
    let lo = get_u32_from_byte_array(data, index);
    let hi = get_u32_from_byte_array(data, index + 4);
    lo as u64 + 0x1_0000_0000u64 * hi as u64
}

pub fn get_u16_from_be_byte_array(data: &[u8], index: usize) -> (r: u16)
    requires
        index + 2 <= data@.len(),
    ensures
        r == u16_be_at(data@, index as int),
{
    256 * data[index] as u16 + data[index + 1] as u16
}

pub fn get_u32_from_be_byte_array(data: &[u8], index: usize) -> (r: u32)
    requires
        index + 4 <= data@.len(),
    ensures
        r == u32_be_at(data@, index as int),
{
    16777216 * data[index] as u32 + 65536 * data[index + 1] as u32 + 256 * data[index + 2] as u32
        + data[index + 3] as u32
}

pub fn get_i16_from_le_byte_array(data: &[u8], index: usize) -> (r: i16)
    requires
        index + 2 <= data@.len(),
    ensures
        r == i16_le_at(data@, index as int),
{
    let u = get_u16_from_byte_array(data, index);
    if u >= 0x8000 {
        (-((0x1_0000u32 - u as u32) as i32)) as i16
    } else {
        u as i16
    }
}

pub fn get_i32_from_le_byte_array(data: &[u8], index: usize) -> (r: i32)
    requires
        index + 4 <= data@.len(),
    ensures
        r == i32_le_at(data@, index as int),
{
    let u = get_u32_from_byte_array(data, index);
    if u >= 0x8000_0000 {
        (-((0x1_0000_0000u64 - u as u64) as i64)) as i32
    } else {
        u as i32
    }
}

/// Bit `k` of a flags byte, as a boolean.
pub open spec fn bit8(b: u8, k: u8) -> bool {
    (b >> k) & 1 == 1
}

/// Bit `k` of a 16-bit flags word, as a boolean.
pub open spec fn bit16(b: u16, k: u16) -> bool {
    (b >> k) & 1 == 1
}

/// The two's-complement reading of one byte.
pub open spec fn i8_at(s: Seq<u8>, i: int) -> int {
    if s[i] >= 128 {
        s[i] - 256
    } else {
        s[i] as int
    }
}

/// Fletcher-16 running sums over a byte sequence, as the board computes them:
/// both sums are taken modulo 256, and the result packs `sum2` into the high
/// byte and `sum1` into the low byte.
pub open spec fn fletcher16_spec(data: Seq<u8>) -> int
    decreases data.len(),
{
    if data.len() == 0 {
        0
    } else {
        let prev = fletcher16_spec(data.drop_last());
        let s1 = ((prev % 256) + data.last()) % 256;
        let s2 = ((prev / 256) + s1) % 256;
        s2 * 256 + s1
    }
}

/// Fletcher-16 checksum of a byte slice: two 8-bit running sums, the result
/// packing the second sum into the high byte.  Integrity only, no
/// cryptographic claim.  Used for the board frame header and body checksums.
pub fn fletcher16(data: &[u8]) -> (r: u16)
    ensures
        r == fletcher16_spec(data@),
{
    let mut sum1: u16 = 0;
    let mut sum2: u16 = 0;
    let mut i: usize = 0;
    while i < data.len()
        invariant
            0 <= i <= data@.len(),
            sum1 < 256,
            sum2 < 256,
            sum2 * 256 + sum1 == fletcher16_spec(data@.take(i as int)),
        decreases data@.len() - i,
    {
        proof {
            assert(data@.take(i + 1).drop_last() =~= data@.take(i as int));
            assert(data@.take(i + 1).last() == data@[i as int]);
        }
        sum1 = (sum1 + data[i] as u16) % 256;
        sum2 = (sum2 + sum1) % 256;
        i = i + 1;
    }
    proof {
        assert(data@.take(data@.len() as int) =~= data@);
    }
    sum2 * 256 + sum1
}

/// The plain sum of the bytes of a sequence.
pub open spec fn byte_sum(data: Seq<u8>) -> int
    decreases data.len(),
{
    if data.len() == 0 {
        0
    } else {
        byte_sum(data.drop_last()) + data.last()
    }
}

/// The low byte of a Fletcher-16 checksum is the byte sum modulo 256.
pub proof fn lemma_fletcher16_low_byte(data: Seq<u8>)
    ensures
        fletcher16_spec(data) % 256 == byte_sum(data) % 256,
        0 <= fletcher16_spec(data) < 0x1_0000,
    decreases data.len(),
{
    if data.len() == 0 {
    } else {
        lemma_fletcher16_low_byte(data.drop_last());
        let prev = fletcher16_spec(data.drop_last());
        let bs = byte_sum(data.drop_last());
        let b = data.last() as int;
        let s1 = ((prev % 256) + b) % 256;
        let s2 = ((prev / 256) + s1) % 256;
        vstd::arithmetic::div_mod::lemma_mod_pos_bound(prev, 256);
        vstd::arithmetic::div_mod::lemma_mod_pos_bound((prev % 256) + b, 256);
        vstd::arithmetic::div_mod::lemma_mod_pos_bound((prev / 256) + s1, 256);
        assert(fletcher16_spec(data) == s2 * 256 + s1);
        assert((s2 * 256 + s1) % 256 == s1) by {
            vstd::arithmetic::div_mod::lemma_mod_multiples_vanish(s2, s1, 256);
            vstd::arithmetic::div_mod::lemma_small_mod(s1 as nat, 256);
        }
        assert(s1 == (prev + b) % 256) by {
            vstd::arithmetic::div_mod::lemma_add_mod_noop(prev, b, 256);
            vstd::arithmetic::div_mod::lemma_small_mod(b as nat, 256);
        }
        assert((prev + b) % 256 == (bs + b) % 256) by {
            vstd::arithmetic::div_mod::lemma_add_mod_noop(prev, b, 256);
            vstd::arithmetic::div_mod::lemma_add_mod_noop(bs, b, 256);
        }
        assert(byte_sum(data) == bs + b);
    }
}

/// Fletcher-16 of the empty sequence is zero.
pub proof fn lemma_fletcher16_empty()
    ensures
        fletcher16_spec(Seq::<u8>::empty()) == 0,
{
}

/// Changing a single byte of a sequence changes its byte sum by the
/// difference of the two bytes.
proof fn lemma_byte_sum_single_flip(a: Seq<u8>, b: Seq<u8>, i: int)
    requires
        a.len() == b.len(),
        0 <= i < a.len(),
        forall|j: int| 0 <= j < a.len() && j != i ==> a[j] == b[j],
    ensures
        byte_sum(a) - byte_sum(b) == a[i] - b[i],
    decreases a.len(),
{
    if i == a.len() - 1 {
        assert(a.drop_last() =~= b.drop_last());
    } else {
        lemma_byte_sum_single_flip(a.drop_last(), b.drop_last(), i);
    }
}

/// Fletcher-16 detects every single-byte error: two equal-length sequences
/// that differ in exactly one position have different checksums.
pub proof fn lemma_fletcher16_detects_single_flip(a: Seq<u8>, b: Seq<u8>, i: int)
    requires
        a.len() == b.len(),
        0 <= i < a.len(),
        a[i] != b[i],
        forall|j: int| 0 <= j < a.len() && j != i ==> a[j] == b[j],
    ensures
        fletcher16_spec(a) != fletcher16_spec(b),
{
    lemma_byte_sum_single_flip(a, b, i);
    lemma_fletcher16_low_byte(a);
    lemma_fletcher16_low_byte(b);
    let sa = byte_sum(a);
    let sb = byte_sum(b);
    let d = a[i] - b[i];
    assert(-255 <= d <= 255 && d != 0);
    if fletcher16_spec(a) == fletcher16_spec(b) {
        assert(sa % 256 == sb % 256);
        vstd::arithmetic::div_mod::lemma_mod_equivalence(sa, sb, 256);
        assert(d % 256 == 0);
        if d > 0 {
            vstd::arithmetic::div_mod::lemma_small_mod(d as nat, 256);
        } else {
            vstd::arithmetic::div_mod::lemma_mod_add_multiples_vanish(d, 256);
            vstd::arithmetic::div_mod::lemma_small_mod((d + 256) as nat, 256);
        }
        assert(false);
    }
}

} // verus!
