//! Fixed-point scalar and binary angle: the numeric vocabulary shared by the
//! script VM and the world it drives.
use vstd::prelude::*;
use crate::checksum::{le_bytes_u16, le_bytes_u32, Checksum, Fnv1a64};

verus! {

/// Q16.16 fixed-point number (raw `i32`, one unit = 1/65536).
#[derive(Clone, Copy, Debug, PartialEq, Eq, Structural)]
pub struct Fx(pub i32);

impl Fx {
    /// Zero.
    pub fn zero() -> (r: Fx)
        ensures
            r.0 == 0,
    {
        Fx(0)
    }

    /// One (raw 65536).
    pub fn one() -> (r: Fx)
        ensures
            r.0 == 65536,
    {
        Fx(65536)
    }

    /// The raw Q16.16 bits.
    pub fn raw(self) -> (r: i32)
        ensures
            r == self.0,
    {
        self.0
    }

    /// Wraps raw Q16.16 bits.
    pub fn from_raw(raw: i32) -> (r: Fx)
        ensures
            r.0 == raw,
    {
        Fx(raw)
    }

    /// The fixed-point value of an integer (`v << 16`).
    pub fn from_int(v: i32) -> (r: Fx)
        requires
            -32768 <= v <= 32767,
        ensures
            r.0 == v * 65536,
    {
        Fx(v * 65536)
    }

    /// Sum with two's-complement wrap-around on the raw bits.
    pub fn wrapping_add(self, other: Fx) -> (r: Fx)
        ensures
            r.0 == vstd::wrapping::i32_specs::wrapping_add(self.0, other.0),
    {
        Fx(self.0.wrapping_add(other.0))
    }
}

/// Binary angle measure: a full turn is 65536 units.
#[derive(Clone, Copy, Debug, PartialEq, Eq, Structural)]
pub struct Angle(pub u16);

impl Angle {
    /// The zero angle.
    pub fn zero() -> (r: Angle)
        ensures
            r.0 == 0,
    {
        Angle(0)
    }

    /// The raw BAM bits.
    pub fn raw(self) -> (r: u16)
        ensures
            r == self.0,
    {
        self.0
    }
}

impl Checksum for Fx {
    open spec fn checksum_bytes(&self) -> Seq<u8> {
        le_bytes_u32(self.0 as u32)
    }

    fn hash_into(&self, h: &mut Fnv1a64) {
        h.write_i32(self.0);
    }
}

impl Checksum for Angle {
    open spec fn checksum_bytes(&self) -> Seq<u8> {
        le_bytes_u16(self.0)
    }

    fn hash_into(&self, h: &mut Fnv1a64) {
        h.write_u16(self.0);
    }
}

/// The angle whose BAM bits are the low 16 bits of `raw`.
pub open spec fn bam_of(raw: int) -> u16 {
    (raw % 65536) as u16
}

/// Low 16 bits of a script value, read as a binary angle.
pub fn bam(raw: i32) -> (a: Angle)
    ensures
        a.0 == bam_of(raw as int),
{
    let r: i64 = if raw >= 0 { raw as i64 } else { raw as i64 + 0x1_0000_0000 };
    let m: i64 = r % 65536;
    Angle(m as u16)
}

/// `r` is the integer square root of `n`: the largest `r` with `r * r <= n`.
pub open spec fn is_isqrt(n: int, r: int) -> bool {
    0 <= r && r * r <= n && n < (r + 1) * (r + 1)
}

/// The length of the Q16.16 vector `(dx, dy)` in Q16.16 as the VM reports
/// it: the integer square root of the Q32.32 squared length, saturated to
/// the largest `i32` instead of wrapping.
pub open spec fn fx_length(dx: i32, dy: i32, v: i32) -> bool {
    let sq = dx as int * dx as int + dy as int * dy as int;
    ||| v == i32::MAX && (i32::MAX as int) * (i32::MAX as int) <= sq
    ||| 0 <= v < i32::MAX && is_isqrt(sq, v as int)
}

/// Integer square root by bisection.
pub fn isqrt_u64(n: u64) -> (r: u64)
    ensures
        is_isqrt(n as int, r as int),
        r < 0x1_0000_0000,
{
    let mut lo: u64 = 0;
    let mut hi: u64 = 0x1_0000_0000;
    assert(0x1_0000_0000u64 * 0x1_0000_0000u64 > n) by (nonlinear_arith);
    while hi - lo > 1
        invariant
            lo < hi <= 0x1_0000_0000,
            lo * lo <= n,
            n < hi * hi,
        decreases hi - lo,
    {
        let mid = lo + (hi - lo) / 2;
        assert(mid * mid < 0x1_0000_0000 * 0x1_0000_0000) by (nonlinear_arith)
            requires
                mid < 0x1_0000_0000,
        ;
        if mid * mid <= n {
            lo = mid;
        } else {
            hi = mid;
        }
    }
    assert(hi == lo + 1);
    lo
}

/// The length of `(dx, dy)` as `fx_length` describes it.
pub fn fx_dist(dx: i32, dy: i32) -> (v: i32)
    ensures
        fx_length(dx, dy, v),
{
    let x = dx as i64;
    let y = dy as i64;
    assert(x * x <= 0x4000_0000_0000_0000) by (nonlinear_arith)
        requires
            -0x8000_0000 <= x <= 0x7FFF_FFFF,
    ;
    assert(y * y <= 0x4000_0000_0000_0000) by (nonlinear_arith)
        requires
            -0x8000_0000 <= y <= 0x7FFF_FFFF,
    ;
    assert(0 <= x * x && 0 <= y * y) by (nonlinear_arith);
    let sq: u64 = (x * x) as u64 + (y * y) as u64;
    let r = isqrt_u64(sq);
    if r >= 0x7FFF_FFFF {
        assert((i32::MAX as int) * (i32::MAX as int) <= (r as int) * (r as int)) by (nonlinear_arith)
            requires
                r >= 0x7FFF_FFFF,
        ;
        i32::MAX
    } else {
        r as i32
    }
}

} // verus!
