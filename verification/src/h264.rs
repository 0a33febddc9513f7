//! H.264 bitstream parsing: a big-endian bit reader with Exp-Golomb
//! decoding, and SPS parsing down to the picture dimensions.
//!
//! Every read is specified over the reader's bytes and its bit position by
//! the spec functions below; a read that runs out of data reports `None`.

use vstd::prelude::*;
use vstd::arithmetic::power2::{pow2, lemma_pow2_unfold, lemma_pow2_pos, lemma_pow2_strictly_increases};
use vstd::bits::lemma_u32_shl_is_mul;

verus! {

/// Bit `p` of `d`, most significant bit of each byte first.
pub open spec fn bit_at(d: Seq<u8>, p: int) -> u8 {
    (d[p / 8] >> ((7 - p % 8) as u8)) & 1u8
}

/// The unsigned big-endian value of the `n` bits of `d` starting at bit `p`.
pub open spec fn bits_val(d: Seq<u8>, p: int, n: nat) -> nat
    decreases n,
{
    if n == 0 {
        0
    } else {
        bits_val(d, p, (n - 1) as nat) * 2 + bit_at(d, p + n - 1) as nat
    }
}

/// Reading one bit at `p`: the bit, and the position after the read.
pub open spec fn spec_read_bit(d: Seq<u8>, p: int) -> (Option<u32>, int) {
    if p < 8 * d.len() {
        (Some(bit_at(d, p) as u32), p + 1)
    } else {
        (None, p)
    }
}

/// Reading `n` bits at `p`: their value, and the position after the read
/// (the end of the data when it runs out).
pub open spec fn spec_read_bits(d: Seq<u8>, p: int, n: nat) -> (Option<u32>, int) {
    if p + n <= 8 * d.len() {
        (Some(bits_val(d, p, n) as u32), p + n)
    } else {
        (None, 8 * d.len() as int)
    }
}

/// Skipping `n` bits at `p`.
pub open spec fn spec_skip_bits(d: Seq<u8>, p: int, n: nat) -> (Option<()>, int) {
    if p + n <= 8 * d.len() {
        (Some(()), p + n)
    } else {
        (None, 8 * d.len() as int)
    }
}

/// The zero-bit prefix of an Exp-Golomb code at `p`, given `z` zeros already
/// read: the number of zeros before the terminating one-bit, and the position
/// after it. More than 31 zeros, or the end of the data, gives `None`.
pub open spec fn spec_ue_zeros(d: Seq<u8>, p: int, z: nat) -> (Option<nat>, int)
    decreases 8 * d.len() - p,
{
    if p >= 8 * d.len() {
        (None, p)
    } else if bit_at(d, p) == 1 {
        (Some(z), p + 1)
    } else if z + 1 > 31 {
        (None, p + 1)
    } else {
        spec_ue_zeros(d, p + 1, z + 1)
    }
}

/// Reading an unsigned Exp-Golomb value ue(v) at `p`.
pub open spec fn spec_read_ue(d: Seq<u8>, p: int) -> (Option<u32>, int) {
    let (zr, q) = spec_ue_zeros(d, p, 0);
    match zr {
        None => (None, q),
        Some(z) => if z == 0 {
            (Some(0u32), q)
        } else {
            let (b, q2) = spec_read_bits(d, q, z);
            match b {
                None => (None, q2),
                Some(v) => (Some((pow2(z) - 1 + v) as u32), q2),
            }
        },
    }
}

/// The signed value se(v) coded by the Exp-Golomb code number `c`:
/// 0, 1, -1, 2, -2, ...
pub open spec fn se_of_code(c: u32) -> i32 {
    let v = c / 2 + c % 2;
    if c % 2 == 0 {
        (-v) as i32
    } else {
        v as i32
    }
}

/// Reading a signed Exp-Golomb value se(v) at `p`.
pub open spec fn spec_read_se(d: Seq<u8>, p: int) -> (Option<i32>, int) {
    let (c, q) = spec_read_ue(d, p);
    match c {
        None => (None, q),
        Some(c) => (Some(se_of_code(c)), q),
    }
}

proof fn lemma_bits_val_bound(d: Seq<u8>, p: int, n: nat)
    requires
        forall|i: int| p <= i < p + n ==> bit_at(d, i) <= 1,
    ensures
        bits_val(d, p, n) < pow2(n),
    decreases n,
{
    lemma_pow2_pos(n);
    if n > 0 {
        lemma_bits_val_bound(d, p, (n - 1) as nat);
        lemma_pow2_unfold(n);
    }
}

proof fn lemma_bit_at_le1(d: Seq<u8>, p: int)
    ensures
        bit_at(d, p) <= 1,
{
    let b = d[p / 8];
    let s = (7 - p % 8) as u8;
    assert((b >> s) & 1u8 <= 1u8) by (bit_vector);
}

proof fn lemma_ue_zeros_pos(d: Seq<u8>, p: int, z: nat)
    requires
        0 <= p <= 8 * d.len(),
        z <= 31,
    ensures
        p <= spec_ue_zeros(d, p, z).1 <= 8 * d.len(),
        spec_ue_zeros(d, p, z).0 matches Some(k) ==> k <= 31 && z <= k,
    decreases 8 * d.len() - p,
{
    if p < 8 * d.len() && bit_at(d, p) != 1 && z + 1 <= 31 {
        lemma_ue_zeros_pos(d, p + 1, z + 1);
    }
}

proof fn lemma_ue_zeros_run(d: Seq<u8>, p: int, z: nat, k: nat)
    requires
        0 <= p,
        z + k <= 31,
        p + k < 8 * d.len(),
        forall|i: int| p <= i < p + k ==> bit_at(d, i) == 0,
        bit_at(d, p + k) == 1,
    ensures
        spec_ue_zeros(d, p, z) == (Some(z + k), p + k + 1),
    decreases k,
{
    if k > 0 {
        assert(bit_at(d, p) == 0);
        lemma_ue_zeros_run(d, p + 1, z + 1, (k - 1) as nat);
    }
}

proof fn lemma_ue_zeros_overlong(d: Seq<u8>, p: int, z: nat)
    requires
        0 <= p,
        z <= 31,
        p + (32 - z) <= 8 * d.len(),
        forall|i: int| p <= i < p + (32 - z) ==> bit_at(d, i) == 0,
    ensures
        spec_ue_zeros(d, p, z).0 is None,
    decreases 32 - z,
{
    assert(bit_at(d, p) == 0);
    if z + 1 <= 31 {
        lemma_ue_zeros_overlong(d, p + 1, z + 1);
    }
}

proof fn lemma_ue_zeros_to_end(d: Seq<u8>, p: int, z: nat)
    requires
        0 <= p <= 8 * d.len(),
        z <= 31,
        forall|i: int| p <= i < 8 * d.len() ==> bit_at(d, i) == 0,
    ensures
        spec_ue_zeros(d, p, z).0 is None,
    decreases 8 * d.len() - p,
{
    if p < 8 * d.len() {
        assert(bit_at(d, p) == 0);
        if z + 1 <= 31 {
            lemma_ue_zeros_to_end(d, p + 1, z + 1);
        }
    }
}

/// Exp-Golomb decoding in closed form: `k` zero bits, a one bit, then `k`
/// bits of value `x` read as `2^k - 1 + x` (which fits in 32 bits) and
/// consume exactly `2k + 1` bits. More than 31 leading zero bits, or data
/// that ends before the code is complete, read as nothing.
pub proof fn lemma_read_ue_closed_form(d: Seq<u8>, p: int, k: nat)
    requires
        0 <= p,
        k <= 31,
        p + k < 8 * d.len(),
        forall|i: int| p <= i < p + k ==> bit_at(d, i) == 0,
        bit_at(d, p + k) == 1,
    ensures
        p + 2 * k + 1 <= 8 * d.len() ==> {
            &&& pow2(k) - 1 + bits_val(d, p + k + 1, k) <= u32::MAX
            &&& spec_read_ue(d, p) == (Some((pow2(k) - 1 + bits_val(d, p + k + 1, k)) as u32), p + 2 * k + 1)
        },
        p + 2 * k + 1 > 8 * d.len() ==> spec_read_ue(d, p).0 is None,
{
    lemma_ue_zeros_run(d, p, 0, k);
    if k > 0 {
        assert forall|i: int| p + k + 1 <= i < p + k + 1 + k implies bit_at(d, i) <= 1 by {
            lemma_bit_at_le1(d, i);
        }
        lemma_bits_val_bound(d, p + k + 1, k);
        lemma_pow2_strictly_increases(k, 32);
        lemma_pow2_unfold(32);
        assert(pow2(32) == 2 * pow2(31)) by { lemma_pow2_unfold(32); }
        vstd::arithmetic::power2::lemma2_to64();
        if k < 31 {
            lemma_pow2_strictly_increases(k, 31);
        }
    } else {
        vstd::arithmetic::power2::lemma2_to64();
    }
}

/// Leading zero bits that run past 31, or to the end of the data, never
/// read as an Exp-Golomb value.
pub proof fn lemma_read_ue_no_code(d: Seq<u8>, p: int)
    requires
        0 <= p <= 8 * d.len(),
        (p + 32 <= 8 * d.len() && forall|i: int| p <= i < p + 32 ==> bit_at(d, i) == 0)
            || (8 * d.len() - p <= 31 && forall|i: int| p <= i < 8 * d.len() ==> bit_at(d, i) == 0),
    ensures
        spec_read_ue(d, p).0 is None,
{
    if p + 32 <= 8 * d.len() && forall|i: int| p <= i < p + 32 ==> bit_at(d, i) == 0 {
        lemma_ue_zeros_overlong(d, p, 0);
    } else {
        lemma_ue_zeros_to_end(d, p, 0);
    }
}

/// A big-endian bit reader over a byte slice.
pub struct BitReader<'a> {
    data: &'a [u8],
    byte_offset: usize,
    bit_offset: u8,
}

impl<'a> BitReader<'a> {
    /// The bytes being read.
    pub closed spec fn bytes(&self) -> Seq<u8> {
        self.data@
    }

    /// The number of bits consumed so far.
    pub closed spec fn pos(&self) -> int {
        self.byte_offset * 8 + self.bit_offset
    }

    /// The offsets address a bit of the data, or its end.
    pub closed spec fn wf(&self) -> bool {
        &&& self.bit_offset < 8
        &&& self.byte_offset <= self.data@.len()
        &&& self.byte_offset == self.data@.len() ==> self.bit_offset == 0
    }

    /// A well-formed reader's position lies within its data.
    pub proof fn lemma_pos_bounds(&self)
        requires
            self.wf(),
        ensures
            0 <= self.pos() <= 8 * self.bytes().len(),
    {
    }

    /// A reader at the first bit of `data`.
    pub fn new(data: &'a [u8]) -> (r: Self)
        ensures
            r.wf(),
            r.bytes() == data@,
            r.pos() == 0,
    {
        BitReader { data, byte_offset: 0, bit_offset: 0 }
    }

    /// Read a single bit, returning 0 or 1.
    pub fn read_bit(&mut self) -> (r: Option<u32>)
        requires
            old(self).wf(),
        ensures
            final(self).wf(),
            final(self).bytes() == old(self).bytes(),
            (r, final(self).pos()) == spec_read_bit(old(self).bytes(), old(self).pos()),
            r matches Some(b) ==> b <= 1,
    {
        if self.byte_offset >= self.data.len() {
            return None;
        }
        let byte = self.data[self.byte_offset];
        let shift = 7 - self.bit_offset;
        let bit = (byte >> shift) & 1;
        proof {
            let p = self.pos();
            assert(p / 8 == self.byte_offset as int);
            assert(p % 8 == self.bit_offset as int);
            assert((byte >> shift) & 1u8 <= 1u8) by (bit_vector);
        }
        if self.bit_offset == 7 {
            self.bit_offset = 0;
            self.byte_offset += 1;
        } else {
            self.bit_offset += 1;
        }
        Some(bit as u32)
    }

    /// Read `n` bits (up to 32) as an unsigned integer.
    pub fn read_bits(&mut self, n: u8) -> (r: Option<u32>)
        requires
            old(self).wf(),
            n <= 32,
        ensures
            final(self).wf(),
            final(self).bytes() == old(self).bytes(),
            (r, final(self).pos()) == spec_read_bits(old(self).bytes(), old(self).pos(), n as nat),
            r matches Some(v) ==> v < pow2(n as nat),
    {
        let ghost d = self.bytes();
        let ghost p0 = self.pos();
        let mut value: u32 = 0;
        let mut k: u8 = 0;
        proof {
            self.lemma_pos_bounds();
            lemma_pow2_pos(0);
        }
        while k < n
            invariant
                self.wf(),
                self.bytes() == d,
                d == old(self).bytes(),
                p0 == old(self).pos(),
                k <= n <= 32,
                self.pos() == p0 + k,
                value as nat == bits_val(d, p0, k as nat),
                value < pow2(k as nat),
            decreases n - k,
        {
            let ghost before = self.pos();
            let b = match self.read_bit() {
                Some(b) => b,
                None => {
                    proof {
                        self.lemma_pos_bounds();
                    }
                    return None;
                },
            };
            proof {
                lemma_bit_at_le1(d, before);
                lemma_pow2_unfold((k + 1) as nat);
                if k + 1 < 32 {
                    lemma_pow2_strictly_increases((k + 1) as nat, 32);
                }
                vstd::arithmetic::power2::lemma2_to64();
                assert(value < 0x8000_0000);
                assert(b <= 1);
                assert((value << 1u32) | b == value * 2 + b) by (bit_vector)
                    requires
                        value < 0x8000_0000u32,
                        b <= 1u32,
                ;
            }
            value = (value << 1) | b;
            k += 1;
        }
        proof {
            self.lemma_pos_bounds();
        }
        Some(value)
    }

    /// Skip `n` bits.
    pub fn skip_bits(&mut self, n: u32) -> (r: Option<()>)
        requires
            old(self).wf(),
        ensures
            final(self).wf(),
            final(self).bytes() == old(self).bytes(),
            (r, final(self).pos()) == spec_skip_bits(old(self).bytes(), old(self).pos(), n as nat),
    {
        let ghost d = self.bytes();
        let ghost p0 = self.pos();
        let mut k: u32 = 0;
        proof {
            self.lemma_pos_bounds();
        }
        while k < n
            invariant
                self.wf(),
                self.bytes() == d,
                d == old(self).bytes(),
                p0 == old(self).pos(),
                k <= n,
                self.pos() == p0 + k,
            decreases n - k,
        {
            match self.read_bit() {
                Some(_) => {},
                None => {
                    proof {
                        self.lemma_pos_bounds();
                    }
                    return None;
                },
            }
            k += 1;
        }
        Some(())
    }

    /// Read an unsigned Exp-Golomb coded value (ue(v)).
    pub fn read_ue(&mut self) -> (r: Option<u32>)
        requires
            old(self).wf(),
        ensures
            final(self).wf(),
            final(self).bytes() == old(self).bytes(),
            (r, final(self).pos()) == spec_read_ue(old(self).bytes(), old(self).pos()),
    {
        let ghost d = self.bytes();
        let ghost p0 = self.pos();
        let mut leading_zeros: u32 = 0;
        proof {
            self.lemma_pos_bounds();
        }
        loop
            invariant_except_break
                self.wf(),
                self.bytes() == d,
                d == old(self).bytes(),
                p0 == old(self).pos(),
                leading_zeros <= 31,
                spec_ue_zeros(d, p0, 0) == spec_ue_zeros(d, self.pos(), leading_zeros as nat),
            ensures
                self.wf(),
                self.bytes() == d,
                leading_zeros <= 31,
                spec_ue_zeros(d, p0, 0) == (Some(leading_zeros as nat), self.pos()),
            decreases 8 * d.len() - self.pos(),
        {
            proof {
                self.lemma_pos_bounds();
            }
            let ghost before = self.pos();
            let bit = match self.read_bit() {
                Some(b) => b,
                None => return None,
            };
            if bit == 1 {
                break;
            }
            proof {
                lemma_bit_at_le1(d, before);
            }
            leading_zeros += 1;
            if leading_zeros > 31 {
                return None;
            }
        }
        if leading_zeros == 0 {
            return Some(0);
        }
        let ghost q = self.pos();
        let suffix = match self.read_bits(leading_zeros as u8) {
            Some(s) => s,
            None => return None,
        };
        proof {
            vstd::arithmetic::power2::lemma2_to64();
            lemma_pow2_strictly_increases(leading_zeros as nat, 32);
            lemma_u32_shl_is_mul(1u32, leading_zeros);
        }
        Some((1u32 << leading_zeros) - 1 + suffix)
    }

    /// Read a signed Exp-Golomb coded value (se(v)).
    pub fn read_se(&mut self) -> (r: Option<i32>)
        requires
            old(self).wf(),
        ensures
            final(self).wf(),
            final(self).bytes() == old(self).bytes(),
            (r, final(self).pos()) == spec_read_se(old(self).bytes(), old(self).pos()),
    {
        let code = match self.read_ue() {
            Some(c) => c,
            None => return None,
        };
        let value = (code / 2 + code % 2) as i32;
        if code % 2 == 0 {
            Some(-value)
        } else {
            Some(value)
        }
    }
}


/// The value and end position of a successful ue(v) read.
pub open spec fn ue_at(d: Seq<u8>, p: int) -> Option<(u32, int)> {
    match spec_read_ue(d, p) {
        (Some(v), q) => Some((v, q)),
        (None, _) => None,
    }
}

/// The value and end position of a successful se(v) read.
pub open spec fn se_at(d: Seq<u8>, p: int) -> Option<(i32, int)> {
    match spec_read_se(d, p) {
        (Some(v), q) => Some((v, q)),
        (None, _) => None,
    }
}

/// The value and end position of a successful one-bit read.
pub open spec fn bit_then(d: Seq<u8>, p: int) -> Option<(u32, int)> {
    match spec_read_bit(d, p) {
        (Some(v), q) => Some((v, q)),
        (None, _) => None,
    }
}

/// The end position of a successful skip of `n` bits.
pub open spec fn skip_at(d: Seq<u8>, p: int, n: nat) -> Option<int> {
    match spec_skip_bits(d, p, n) {
        (Some(_), q) => Some(q),
        (None, _) => None,
    }
}

/// The remainder of `x` by 256 with the sign of `x` (Rust's `%`).
pub open spec fn rem256(x: int) -> int {
    if x >= 0 {
        x % 256
    } else {
        -((-x) % 256)
    }
}

/// Where a scaling list of `size` entries ends, with the running
/// `last`/`next` scale values: each entry reads a delta while the next scale
/// is non-zero.
pub open spec fn spec_scaling_list(d: Seq<u8>, p: int, size: nat, last: int, next: int) -> Option<int>
    decreases size,
{
    if size == 0 {
        Some(p)
    } else if next != 0 {
        match se_at(d, p) {
            None => None,
            Some((delta, q)) => {
                let nx = rem256(last + delta + 256);
                spec_scaling_list(d, q, (size - 1) as nat, if nx == 0 { last } else { nx }, nx)
            },
        }
    } else {
        spec_scaling_list(d, p, (size - 1) as nat, last, next)
    }
}

/// Where the scaling lists `i..count` of an SPS end: each has a presence bit,
/// and a present list has 16 entries (the first six) or 64.
pub open spec fn spec_scaling_lists(d: Seq<u8>, p: int, i: nat, count: nat) -> Option<int>
    decreases count - i,
{
    if i >= count {
        Some(p)
    } else {
        match bit_then(d, p) {
            None => None,
            Some((present, q)) => {
                let after = if present == 1 {
                    spec_scaling_list(d, q, if i < 6 { 16 } else { 64 }, 8, 8)
                } else {
                    Some(q)
                };
                match after {
                    None => None,
                    Some(r) => spec_scaling_lists(d, r, i + 1, count),
                }
            },
        }
    }
}

/// Profiles whose SPS carries chroma format, bit depths and scaling lists.
pub open spec fn is_high_profile(profile_idc: u8) -> bool {
    profile_idc == 100 || profile_idc == 110 || profile_idc == 122 || profile_idc == 244
        || profile_idc == 44 || profile_idc == 83 || profile_idc == 86 || profile_idc == 118
        || profile_idc == 128 || profile_idc == 138 || profile_idc == 139 || profile_idc == 134
        || profile_idc == 135
}

/// Where the high-profile fields of an SPS end.
pub open spec fn spec_high_profile_fields(d: Seq<u8>, p: int) -> Option<int> {
    match ue_at(d, p) {
        None => None,
        Some((chroma, p1)) => {
            let p2 = if chroma == 3 { skip_at(d, p1, 1) } else { Some(p1) };
            match p2 {
                None => None,
                Some(p2) => match ue_at(d, p2) {
                    None => None,
                    Some((_, p3)) => match ue_at(d, p3) {
                        None => None,
                        Some((_, p4)) => match skip_at(d, p4, 1) {
                            None => None,
                            Some(p5) => match bit_then(d, p5) {
                                None => None,
                                Some((matrix, p6)) => if matrix == 1 {
                                    spec_scaling_lists(d, p6, 0, if chroma != 3 { 8 } else { 12 })
                                } else {
                                    Some(p6)
                                },
                            },
                        },
                    },
                },
            }
        },
    }
}

/// Where `n` se(v) values starting at `p` end.
pub open spec fn spec_skip_se(d: Seq<u8>, p: int, n: nat) -> Option<int>
    decreases n,
{
    if n == 0 {
        Some(p)
    } else {
        match se_at(d, p) {
            None => None,
            Some((_, q)) => spec_skip_se(d, q, (n - 1) as nat),
        }
    }
}

/// Where the picture-order-count fields of an SPS end; an unknown
/// pic_order_cnt_type fails.
pub open spec fn spec_poc_fields(d: Seq<u8>, p: int) -> Option<int> {
    match ue_at(d, p) {
        None => None,
        Some((t, p1)) => if t == 0 {
            match ue_at(d, p1) {
                None => None,
                Some((_, p2)) => Some(p2),
            }
        } else if t == 1 {
            match skip_at(d, p1, 1) {
                None => None,
                Some(p2) => match spec_skip_se(d, p2, 2) {
                    None => None,
                    Some(p3) => match ue_at(d, p3) {
                        None => None,
                        Some((n, p4)) => spec_skip_se(d, p4, n as nat),
                    },
                },
            }
        } else if t == 2 {
            Some(p1)
        } else {
            None
        },
    }
}

/// The fields of an SPS that determine the picture size:
/// pic_width_in_mbs_minus1, pic_height_in_map_units_minus1,
/// frame_mbs_only_flag and the four crop offsets.
pub struct SpsGeometry {
    pub width_mbs_minus1: u32,
    pub height_map_units_minus1: u32,
    pub frame_mbs_only: u32,
    pub crop_left: u32,
    pub crop_right: u32,
    pub crop_top: u32,
    pub crop_bottom: u32,
}

/// The frame-cropping offsets at `p` (after the cropping flag `flag`).
pub open spec fn spec_crop(d: Seq<u8>, p: int, flag: u32) -> Option<(u32, u32, u32, u32)> {
    if flag != 1 {
        Some((0u32, 0u32, 0u32, 0u32))
    } else {
        match ue_at(d, p) {
            None => None,
            Some((l, p1)) => match ue_at(d, p1) {
                None => None,
                Some((r, p2)) => match ue_at(d, p2) {
                    None => None,
                    Some((t, p3)) => match ue_at(d, p3) {
                        None => None,
                        Some((b, _)) => Some((l, r, t, b)),
                    },
                },
            },
        }
    }
}

/// The size-determining fields of the SPS bit payload `d` (what follows the
/// NAL header, profile, constraint and level bytes) for `profile_idc`.
#[verifier::opaque]
pub open spec fn spec_sps_geometry(d: Seq<u8>, profile_idc: u8) -> Option<SpsGeometry> {
    match ue_at(d, 0) {
        None => None,
        Some((_, p1)) => {
            let p2 = if is_high_profile(profile_idc) { spec_high_profile_fields(d, p1) } else { Some(p1) };
            match p2 {
                None => None,
                Some(p2) => match ue_at(d, p2) {
                    None => None,
                    Some((_, p3)) => match spec_poc_fields(d, p3) {
                        None => None,
                        Some(p4) => match ue_at(d, p4) {
                            None => None,
                            Some((_, p5)) => match skip_at(d, p5, 1) {
                                None => None,
                                Some(p6) => match ue_at(d, p6) {
                                    None => None,
                                    Some((w, p7)) => match ue_at(d, p7) {
                                        None => None,
                                        Some((h, p8)) => match bit_then(d, p8) {
                                            None => None,
                                            Some((fmo, p9)) => {
                                                let p10 = if fmo == 0 { skip_at(d, p9, 1) } else { Some(p9) };
                                                match p10 {
                                                    None => None,
                                                    Some(p10) => match skip_at(d, p10, 1) {
                                                        None => None,
                                                        Some(p11) => match bit_then(d, p11) {
                                                            None => None,
                                                            Some((fc, p12)) => match spec_crop(d, p12, fc) {
                                                                None => None,
                                                                Some((l, r, t, b)) => Some(SpsGeometry {
                                                                    width_mbs_minus1: w,
                                                                    height_map_units_minus1: h,
                                                                    frame_mbs_only: fmo,
                                                                    crop_left: l,
                                                                    crop_right: r,
                                                                    crop_top: t,
                                                                    crop_bottom: b,
                                                                }),
                                                            },
                                                        },
                                                    },
                                                }
                                            },
                                        },
                                    },
                                },
                            },
                        },
                    },
                },
            }
        },
    }
}

/// The picture width in pixels: 16 per macroblock, less the horizontal crop
/// in 4:2:0 crop units of two.
pub open spec fn geometry_width(g: SpsGeometry) -> int {
    (g.width_mbs_minus1 + 1) * 16 - 2 * (g.crop_left + g.crop_right)
}

/// The picture height in pixels: field-coded streams have two map units per
/// macroblock row, and the vertical crop unit doubles with them.
pub open spec fn geometry_height(g: SpsGeometry) -> int {
    (2 - g.frame_mbs_only) * (g.height_map_units_minus1 + 1) * 16
        - 2 * (2 - g.frame_mbs_only) * (g.crop_top + g.crop_bottom)
}

/// The (width, height) an SPS NAL describes, when it parses and both fit in
/// a `u32`.
pub open spec fn spec_sps_dimensions(sps: Seq<u8>) -> Option<(u32, u32)> {
    if sps.len() < 4 {
        None
    } else {
        match spec_sps_geometry(sps.subrange(4, sps.len() as int), sps[1]) {
            None => None,
            Some(g) => {
                let w = geometry_width(g);
                let h = geometry_height(g);
                if 0 <= w <= u32::MAX && 0 <= h <= u32::MAX {
                    Some((w as u32, h as u32))
                } else {
                    None
                }
            },
        }
    }
}

/// The picture size reported for an SPS subtracts both horizontal crops:
/// the width is `(pic_width_in_mbs_minus1 + 1) * 16 - 2 * (crop_left +
/// crop_right)` and the height `(2 - frame_mbs_only) *
/// (pic_height_in_map_units_minus1 + 1) * 16 - 2 * (2 - frame_mbs_only) *
/// (crop_top + crop_bottom)`, over the fields parsed from the SPS payload.
pub proof fn lemma_sps_size_from_fields(sps: Seq<u8>)
    requires
        spec_sps_dimensions(sps) is Some,
    ensures
        sps.len() >= 4,
        spec_sps_geometry(sps.subrange(4, sps.len() as int), sps[1]) is Some,
        ({
            let g = spec_sps_geometry(sps.subrange(4, sps.len() as int), sps[1])->0;
            let (w, h) = spec_sps_dimensions(sps)->0;
            &&& w as int == (g.width_mbs_minus1 as int + 1) * 16 - 2 * (g.crop_left as int + g.crop_right as int)
            &&& h as int == (2 - g.frame_mbs_only as int) * (g.height_map_units_minus1 as int + 1) * 16
                - 2 * (2 - g.frame_mbs_only as int) * (g.crop_top as int + g.crop_bottom as int)
        }),
{
}

/// The frame-cropping offsets are the four Exp-Golomb values that follow a
/// set frame_cropping_flag, in the order left, right, top, bottom; a clear
/// flag means no cropping.
pub proof fn lemma_crop_offsets_are_consecutive_ue(d: Seq<u8>, p: int, flag: u32)
    ensures
        flag != 1 ==> spec_crop(d, p, flag) == Some((0u32, 0u32, 0u32, 0u32)),
        flag == 1 && spec_crop(d, p, flag) is Some ==> ({
            let (l, r, t, b) = spec_crop(d, p, flag)->0;
            let (ol, p1) = spec_read_ue(d, p);
            let (or, p2) = spec_read_ue(d, p1);
            let (ot, p3) = spec_read_ue(d, p2);
            let (ob, _) = spec_read_ue(d, p3);
            ol == Some(l) && or == Some(r) && ot == Some(t) && ob == Some(b)
        }),
{
}

/// Whether a reader step that ended at `r` with the reader now at `pos`
/// agrees with the spec outcome `spec`.
pub open spec fn step_matches(r: Option<()>, pos: int, spec: Option<int>) -> bool {
    match r {
        Some(_) => spec == Some(pos),
        None => spec is None,
    }
}

/// Skip a scaling list in the SPS bitstream.
fn skip_scaling_list(reader: &mut BitReader, size: usize) -> (r: Option<()>)
    requires
        old(reader).wf(),
    ensures
        final(reader).wf(),
        final(reader).bytes() == old(reader).bytes(),
        step_matches(r, final(reader).pos(), spec_scaling_list(old(reader).bytes(), old(reader).pos(), size as nat, 8, 8)),
{
    let ghost d = reader.bytes();
    let ghost p0 = reader.pos();
    let mut last_scale: i64 = 8;
    let mut next_scale: i64 = 8;
    let mut k: usize = 0;
    while k < size
        invariant
            reader.wf(),
            reader.bytes() == d,
            d == old(reader).bytes(),
            p0 == old(reader).pos(),
            k <= size,
            -256 < last_scale < 256,
            -256 < next_scale < 256,
            spec_scaling_list(d, p0, size as nat, 8, 8)
                == spec_scaling_list(d, reader.pos(), (size - k) as nat, last_scale as int, next_scale as int),
        decreases size - k,
    {
        if next_scale != 0 {
            let delta = match reader.read_se() {
                Some(v) => v,
                None => return None,
            };
            let sum = last_scale + delta as i64 + 256;
            next_scale = if sum >= 0 { sum % 256 } else { -((-sum) % 256) };
        }
        last_scale = if next_scale == 0 { last_scale } else { next_scale };
        k += 1;
    }
    Some(())
}

/// Skip the scaling lists of an SPS: `count` presence bits, each followed by
/// its list when set.
fn skip_scaling_lists(reader: &mut BitReader, count: usize) -> (r: Option<()>)
    requires
        old(reader).wf(),
    ensures
        final(reader).wf(),
        final(reader).bytes() == old(reader).bytes(),
        step_matches(r, final(reader).pos(), spec_scaling_lists(old(reader).bytes(), old(reader).pos(), 0, count as nat)),
{
    let ghost d = reader.bytes();
    let ghost p0 = reader.pos();
    let mut i: usize = 0;
    while i < count
        invariant
            reader.wf(),
            reader.bytes() == d,
            d == old(reader).bytes(),
            p0 == old(reader).pos(),
            i <= count,
            spec_scaling_lists(d, p0, 0, count as nat) == spec_scaling_lists(d, reader.pos(), i as nat, count as nat),
        decreases count - i,
    {
        let present = match reader.read_bit() {
            Some(b) => b,
            None => return None,
        };
        if present == 1 {
            let size: usize = if i < 6 { 16 } else { 64 };
            match skip_scaling_list(reader, size) {
                Some(_) => {},
                None => return None,
            }
        }
        i += 1;
    }
    Some(())
}

/// Skip chroma_format_idc, the bit depths, the transform-bypass flag and the
/// scaling matrix of a high-profile SPS.
fn skip_high_profile_fields(reader: &mut BitReader) -> (r: Option<()>)
    requires
        old(reader).wf(),
    ensures
        final(reader).wf(),
        final(reader).bytes() == old(reader).bytes(),
        step_matches(r, final(reader).pos(), spec_high_profile_fields(old(reader).bytes(), old(reader).pos())),
{
    let chroma_format_idc = match reader.read_ue() {
        Some(v) => v,
        None => return None,
    };
    if chroma_format_idc == 3 {
        match reader.skip_bits(1) {
            Some(_) => {},
            None => return None,
        }
    }
    match reader.read_ue() {
        Some(_) => {},
        None => return None,
    }
    match reader.read_ue() {
        Some(_) => {},
        None => return None,
    }
    match reader.skip_bits(1) {
        Some(_) => {},
        None => return None,
    }
    let matrix_present = match reader.read_bit() {
        Some(b) => b,
        None => return None,
    };
    if matrix_present == 1 {
        let count: usize = if chroma_format_idc != 3 { 8 } else { 12 };
        return skip_scaling_lists(reader, count);
    }
    Some(())
}

/// Skip `n` se(v) values.
fn skip_se_values(reader: &mut BitReader, n: u32) -> (r: Option<()>)
    requires
        old(reader).wf(),
    ensures
        final(reader).wf(),
        final(reader).bytes() == old(reader).bytes(),
        step_matches(r, final(reader).pos(), spec_skip_se(old(reader).bytes(), old(reader).pos(), n as nat)),
{
    let ghost d = reader.bytes();
    let ghost p0 = reader.pos();
    let mut k: u32 = 0;
    while k < n
        invariant
            reader.wf(),
            reader.bytes() == d,
            d == old(reader).bytes(),
            p0 == old(reader).pos(),
            k <= n,
            spec_skip_se(d, p0, n as nat) == spec_skip_se(d, reader.pos(), (n - k) as nat),
        decreases n - k,
    {
        match reader.read_se() {
            Some(_) => {},
            None => return None,
        }
        k += 1;
    }
    Some(())
}

/// Skip the picture-order-count fields; an unknown pic_order_cnt_type fails.
fn skip_poc_fields(reader: &mut BitReader) -> (r: Option<()>)
    requires
        old(reader).wf(),
    ensures
        final(reader).wf(),
        final(reader).bytes() == old(reader).bytes(),
        step_matches(r, final(reader).pos(), spec_poc_fields(old(reader).bytes(), old(reader).pos())),
{
    let pic_order_cnt_type = match reader.read_ue() {
        Some(v) => v,
        None => return None,
    };
    if pic_order_cnt_type == 0 {
        match reader.read_ue() {
            Some(_) => Some(()),
            None => None,
        }
    } else if pic_order_cnt_type == 1 {
        match reader.skip_bits(1) {
            Some(_) => {},
            None => return None,
        }
        match skip_se_values(reader, 2) {
            Some(_) => {},
            None => return None,
        }
        let cycle = match reader.read_ue() {
            Some(v) => v,
            None => return None,
        };
        skip_se_values(reader, cycle)
    } else if pic_order_cnt_type == 2 {
        Some(())
    } else {
        None
    }
}

/// Read the four frame-cropping offsets when `flag` is set.
fn read_crop(reader: &mut BitReader, flag: u32) -> (r: Option<(u32, u32, u32, u32)>)
    requires
        old(reader).wf(),
    ensures
        final(reader).wf(),
        final(reader).bytes() == old(reader).bytes(),
        r == spec_crop(old(reader).bytes(), old(reader).pos(), flag),
{
    if flag != 1 {
        return Some((0, 0, 0, 0));
    }
    let l = match reader.read_ue() {
        Some(v) => v,
        None => return None,
    };
    let r = match reader.read_ue() {
        Some(v) => v,
        None => return None,
    };
    let t = match reader.read_ue() {
        Some(v) => v,
        None => return None,
    };
    let b = match reader.read_ue() {
        Some(v) => v,
        None => return None,
    };
    Some((l, r, t, b))
}

/// Read the size-determining fields of an SPS payload from its first bit.
fn read_sps_geometry(reader: &mut BitReader, profile_idc: u8) -> (r: Option<SpsGeometry>)
    requires
        old(reader).wf(),
        old(reader).pos() == 0,
    ensures
        r == spec_sps_geometry(old(reader).bytes(), profile_idc),
        r matches Some(g) ==> g.frame_mbs_only <= 1,
{
    reveal(spec_sps_geometry);
    match reader.read_ue() {
        Some(_) => {},
        None => return None,
    }
    if profile_idc == 100 || profile_idc == 110 || profile_idc == 122 || profile_idc == 244
        || profile_idc == 44 || profile_idc == 83 || profile_idc == 86 || profile_idc == 118
        || profile_idc == 128 || profile_idc == 138 || profile_idc == 139 || profile_idc == 134
        || profile_idc == 135 {
        match skip_high_profile_fields(reader) {
            Some(_) => {},
            None => return None,
        }
    }
    match reader.read_ue() {
        Some(_) => {},
        None => return None,
    }
    match skip_poc_fields(reader) {
        Some(_) => {},
        None => return None,
    }
    match reader.read_ue() {
        Some(_) => {},
        None => return None,
    }
    match reader.skip_bits(1) {
        Some(_) => {},
        None => return None,
    }
    let width_mbs_minus1 = match reader.read_ue() {
        Some(v) => v,
        None => return None,
    };
    let height_map_units_minus1 = match reader.read_ue() {
        Some(v) => v,
        None => return None,
    };
    let frame_mbs_only = match reader.read_bit() {
        Some(v) => v,
        None => return None,
    };
    if frame_mbs_only == 0 {
        match reader.skip_bits(1) {
            Some(_) => {},
            None => return None,
        }
    }
    match reader.skip_bits(1) {
        Some(_) => {},
        None => return None,
    }
    let cropping = match reader.read_bit() {
        Some(v) => v,
        None => return None,
    };
    let (crop_left, crop_right, crop_top, crop_bottom) = match read_crop(reader, cropping) {
        Some(c) => c,
        None => return None,
    };
    Some(SpsGeometry {
        width_mbs_minus1,
        height_map_units_minus1,
        frame_mbs_only,
        crop_left,
        crop_right,
        crop_top,
        crop_bottom,
    })
}

/// Parse H.264 SPS NAL unit to extract video dimensions.
///
/// `sps` must be the raw SPS NAL data starting at the NAL type byte (0x67).
/// Returns `(width, height)` in pixels, or `None` if parsing fails or a
/// dimension does not fit in a `u32`.
pub fn parse_sps_dimensions(sps: &[u8]) -> (r: Option<(u32, u32)>)
    ensures
        r == spec_sps_dimensions(sps@),
{
    if sps.len() < 4 {
        return None;
    }
    let profile_idc = sps[1];
    let payload = &sps[4..sps.len()];
    let mut reader = BitReader::new(payload);
    let g = match read_sps_geometry(&mut reader, profile_idc) {
        Some(g) => g,
        None => return None,
    };
    proof {
        assert(payload@ == sps@.subrange(4, sps@.len() as int));
    }
    let full_w = (g.width_mbs_minus1 as u64 + 1) * 16;
    let crop_w = 2 * (g.crop_left as u64 + g.crop_right as u64);
    let rows = g.height_map_units_minus1 as u64 + 1;
    let crop_rows = g.crop_top as u64 + g.crop_bottom as u64;
    let full_h: u64 = if g.frame_mbs_only == 0 { rows * 32 } else { rows * 16 };
    let crop_h: u64 = if g.frame_mbs_only == 0 { crop_rows * 4 } else { crop_rows * 2 };
    proof {
        assert(geometry_width(g) == full_w as int - crop_w as int);
        if g.frame_mbs_only == 0 {
            assert(geometry_height(g) == 2 * (rows as int) * 16 - 2 * 2 * (crop_rows as int));
            assert(full_h == rows * 32);
            assert(crop_h == crop_rows * 4);
            assert(full_h as int - crop_h as int == 2 * (rows as int) * 16 - 2 * 2 * (crop_rows as int)) by (nonlinear_arith)
                requires
                    full_h == rows * 32,
                    crop_h == crop_rows * 4,
            ;
        } else {
            assert(g.frame_mbs_only == 1);
            assert(geometry_height(g) == 1 * (rows as int) * 16 - 2 * 1 * (crop_rows as int));
            assert(full_h == rows * 16);
            assert(crop_h == crop_rows * 2);
            assert(full_h as int - crop_h as int == 1 * (rows as int) * 16 - 2 * 1 * (crop_rows as int)) by (nonlinear_arith)
                requires
                    full_h == rows * 16,
                    crop_h == crop_rows * 2,
            ;
        }
        assert(geometry_height(g) == full_h as int - crop_h as int);
    }
    if full_w < crop_w || full_h < crop_h {
        return None;
    }
    let width = full_w - crop_w;
    let height = full_h - crop_h;
    if width > 0xffff_ffff || height > 0xffff_ffff {
        return None;
    }
    Some((width as u32, height as u32))
}

} // verus!
