//! Floating-point register file and the bit-level parts of the F and D
//! extensions: NaN boxing, exception flags, rounding-mode fields, sign
//! injection and classification. Arithmetic on float values is supplied by
//! the embedder through `FloatArith`.

use vstd::prelude::*;

verus! {

/// Rounding modes.
#[derive(Clone, Copy, PartialEq, Eq, Structural, Debug)]
pub enum RoundingMode {
    /// Round to Nearest, ties to Even
    RNE,
    /// Round towards Zero
    RTZ,
    /// Round Down (towards -inf)
    RDN,
    /// Round Up (towards +inf)
    RUP,
    /// Round to Nearest, ties to Max Magnitude
    RMM,
    /// Dynamic (use frm)
    DYN,
}

/// The mode that the three low bits of `val` select (reserved encodings read as DYN).
pub open spec fn rm_from_bits(val: u32) -> RoundingMode {
    let v = val % 8;
    if v == 0 {
        RoundingMode::RNE
    } else if v == 1 {
        RoundingMode::RTZ
    } else if v == 2 {
        RoundingMode::RDN
    } else if v == 3 {
        RoundingMode::RUP
    } else if v == 4 {
        RoundingMode::RMM
    } else {
        RoundingMode::DYN
    }
}

/// The 3-bit encoding of a rounding mode.
pub open spec fn rm_encoding(rm: RoundingMode) -> u32 {
    match rm {
        RoundingMode::RNE => 0,
        RoundingMode::RTZ => 1,
        RoundingMode::RDN => 2,
        RoundingMode::RUP => 3,
        RoundingMode::RMM => 4,
        RoundingMode::DYN => 7,
    }
}

impl RoundingMode {
    /// Decodes the three low bits of `val`.
    pub fn from_bits(val: u32) -> (r: RoundingMode)
        ensures
            r == rm_from_bits(val),
    {
        let v = val % 8;
        if v == 0 {
            RoundingMode::RNE
        } else if v == 1 {
            RoundingMode::RTZ
        } else if v == 2 {
            RoundingMode::RDN
        } else if v == 3 {
            RoundingMode::RUP
        } else if v == 4 {
            RoundingMode::RMM
        } else {
            RoundingMode::DYN
        }
    }

    /// The 3-bit encoding of this mode.
    pub fn bits(self) -> (r: u32)
        ensures
            r == rm_encoding(self),
            r < 8,
    {
        match self {
            RoundingMode::RNE => 0,
            RoundingMode::RTZ => 1,
            RoundingMode::RDN => 2,
            RoundingMode::RUP => 3,
            RoundingMode::RMM => 4,
            RoundingMode::DYN => 7,
        }
    }
}

/// Exception flags (fflags).
#[derive(Clone, Copy, PartialEq, Eq, Structural, Debug)]
pub struct FFlags {
    /// Invalid Operation
    pub nv: bool,
    /// Divide by Zero
    pub dz: bool,
    /// Overflow
    pub of: bool,
    /// Underflow
    pub uf: bool,
    /// Inexact
    pub nx: bool,
}

/// The 5-bit fflags encoding (NX bit 0, UF 1, OF 2, DZ 3, NV 4).
pub open spec fn fflags_bits(f: FFlags) -> u32 {
    ((if f.nx { 1u32 } else { 0u32 }) + (if f.uf { 2u32 } else { 0u32 }) + (if f.of { 4u32 } else { 0u32 })
        + (if f.dz { 8u32 } else { 0u32 }) + (if f.nv { 16u32 } else { 0u32 })) as u32
}

/// The flags that the five low bits of `bits` encode.
pub open spec fn fflags_of(bits: u32) -> FFlags {
    FFlags {
        nx: bits & 1 != 0,
        uf: bits & 2 != 0,
        of: bits & 4 != 0,
        dz: bits & 8 != 0,
        nv: bits & 16 != 0,
    }
}

impl Default for FFlags {
    fn default() -> (r: FFlags)
        ensures
            r == (FFlags { nv: false, dz: false, of: false, uf: false, nx: false }),
    {
        FFlags { nv: false, dz: false, of: false, uf: false, nx: false }
    }
}

impl FFlags {
    pub fn to_bits(&self) -> (r: u32)
        ensures
            r == fflags_bits(*self),
            r < 32,
    {
        let mut r: u32 = 0;
        if self.nx {
            r = r + 1;
        }
        if self.uf {
            r = r + 2;
        }
        if self.of {
            r = r + 4;
        }
        if self.dz {
            r = r + 8;
        }
        if self.nv {
            r = r + 16;
        }
        r
    }

    pub fn from_bits(bits: u32) -> (r: FFlags)
        ensures
            r == fflags_of(bits),
    {
        FFlags {
            nx: (bits & 0b00001) != 0,
            uf: (bits & 0b00010) != 0,
            of: (bits & 0b00100) != 0,
            dz: (bits & 0b01000) != 0,
            nv: (bits & 0b10000) != 0,
        }
    }

    /// Accumulates `other` into these flags (flags are sticky).
    pub fn merge(&mut self, other: FFlags)
        ensures
            final(self).nx == (old(self).nx || other.nx),
            final(self).uf == (old(self).uf || other.uf),
            final(self).of == (old(self).of || other.of),
            final(self).dz == (old(self).dz || other.dz),
            final(self).nv == (old(self).nv || other.nv),
    {
        self.nx = self.nx || other.nx;
        self.uf = self.uf || other.uf;
        self.of = self.of || other.of;
        self.dz = self.dz || other.dz;
        self.nv = self.nv || other.nv;
    }
}

/// Encoding flags and decoding the result gives the flags back.
pub proof fn lemma_fflags_round_trip(f: FFlags)
    ensures
        fflags_of(fflags_bits(f)) == f,
{
    let b = fflags_bits(f);
    let (a0, a1, a2, a3, a4) = (f.nx, f.uf, f.of, f.dz, f.nv);
    assert((b & 1 != 0) == a0 && (b & 2 != 0) == a1 && (b & 4 != 0) == a2 && (b & 8 != 0) == a3
        && (b & 16 != 0) == a4) by (bit_vector)
        requires
            b == ((if a0 { 1u32 } else { 0u32 }) + (if a1 { 2u32 } else { 0u32 }) + (if a2 { 4u32 } else { 0u32 })
                + (if a3 { 8u32 } else { 0u32 }) + (if a4 { 16u32 } else { 0u32 })) as u32,
    ;
}

/// NaN-boxed value of a single-precision register.
pub open spec fn nan_box(value: u32) -> u64 {
    (0xFFFF_FFFF_0000_0000u64 | value as u64) as u64
}

/// The single-precision value held by a 64-bit register: its low half when
/// properly NaN-boxed, else the canonical NaN.
pub open spec fn unbox_f32(v: u64) -> u32 {
    if (v >> 32u64) != 0xFFFF_FFFF {
        F32_CANONICAL_NAN
    } else {
        v as u32
    }
}

/// Floating-point register file and state.
pub struct Fpu {
    /// Floating-point registers (64-bit each for D extension, NaN-boxed for F)
    pub fregs: [u64; 32],
    /// Floating-point rounding mode (frm)
    pub frm: RoundingMode,
    /// Floating-point exception flags (fflags)
    pub fflags: FFlags,
}

/// The zero flag set.
pub open spec fn no_flags() -> FFlags {
    FFlags { nv: false, dz: false, of: false, uf: false, nx: false }
}

impl Fpu {
    pub fn new() -> (f: Fpu)
        ensures
            forall|i: int| 0 <= i < 32 ==> #[trigger] f.fregs@[i] == 0,
            f.frm == RoundingMode::RNE,
            f.fflags == no_flags(),
    {
        Fpu { fregs: [0u64; 32], frm: RoundingMode::RNE, fflags: FFlags::default() }
    }

    /// Read single-precision register (NaN-box checked).
    pub fn read_f32(&self, reg: u32) -> (r: u32)
        ensures
            r == unbox_f32(self.fregs@[(reg % 32) as int]),
    {
        let val = self.fregs[(reg % 32) as usize];
        if (val >> 32u64) != 0xFFFF_FFFF {
            F32_CANONICAL_NAN
        } else {
            val as u32
        }
    }

    /// Write single-precision register (NaN-boxes the value).
    pub fn write_f32(&mut self, reg: u32, value: u32)
        ensures
            final(self).fregs@ == old(self).fregs@.update((reg % 32) as int, nan_box(value)),
            final(self).frm == old(self).frm,
            final(self).fflags == old(self).fflags,
    {
        self.fregs[(reg % 32) as usize] = 0xFFFF_FFFF_0000_0000u64 | (value as u64);
    }

    /// Read double-precision register.
    pub fn read_f64(&self, reg: u32) -> (r: u64)
        ensures
            r == self.fregs@[(reg % 32) as int],
    {
        self.fregs[(reg % 32) as usize]
    }

    /// Write double-precision register.
    pub fn write_f64(&mut self, reg: u32, value: u64)
        ensures
            final(self).fregs@ == old(self).fregs@.update((reg % 32) as int, value),
            final(self).frm == old(self).frm,
            final(self).fflags == old(self).fflags,
    {
        self.fregs[(reg % 32) as usize] = value;
    }

    /// Read FCSR (frm in bits 7..5, fflags in bits 4..0).
    pub fn read_fcsr(&self) -> (r: u32)
        ensures
            r == rm_encoding(self.frm) * 32 + fflags_bits(self.fflags),
    {
        self.frm.bits() * 32 + self.fflags.to_bits()
    }

    /// Write FCSR.
    pub fn write_fcsr(&mut self, value: u32)
        ensures
            final(self).fflags == fflags_of(value & 0x1f),
            final(self).frm == rm_from_bits((value >> 5u32) & 0b111),
            final(self).fregs == old(self).fregs,
    {
        self.fflags = FFlags::from_bits(value & 0x1f);
        self.frm = RoundingMode::from_bits((value >> 5u32) & 0b111);
    }

    /// Effective rounding mode: the instruction's mode, or frm when it says DYN.
    pub fn effective_rm(&self, inst_rm: u32) -> (r: RoundingMode)
        ensures
            r == if rm_from_bits(inst_rm) == RoundingMode::DYN { self.frm } else { rm_from_bits(inst_rm) },
    {
        let rm = RoundingMode::from_bits(inst_rm);
        match rm {
            RoundingMode::DYN => self.frm,
            _ => rm,
        }
    }

    pub fn reset(&mut self)
        ensures
            forall|i: int| 0 <= i < 32 ==> #[trigger] final(self).fregs@[i] == 0,
            final(self).frm == RoundingMode::RNE,
            final(self).fflags == no_flags(),
    {
        self.fregs = [0u64; 32];
        self.frm = RoundingMode::RNE;
        self.fflags = FFlags::default();
    }
}

// ============================================================================
// Single-precision (F32) bit-level operations
// ============================================================================

/// Canonical NaN for f32
pub const F32_CANONICAL_NAN: u32 = 0x7FC0_0000;

/// Canonical NaN for f64
pub const F64_CANONICAL_NAN: u64 = 0x7FF8_0000_0000_0000;

/// Is `bits` a single-precision NaN (all-ones exponent, non-zero fraction)?
pub open spec fn spec_f32_is_nan(bits: u32) -> bool {
    (bits >> 23u32) & 0xFF == 0xFF && bits & 0x7FFFFF != 0
}

/// Is `bits` a signaling single-precision NaN (a NaN with the quiet bit clear)?
pub open spec fn spec_f32_is_snan(bits: u32) -> bool {
    spec_f32_is_nan(bits) && bits & 0x400000 == 0
}

/// Check if f32 is a signaling NaN.
pub fn f32_is_snan(bits: u32) -> (r: bool)
    ensures
        r == spec_f32_is_snan(bits),
{
    let exp = (bits >> 23u32) & 0xFF;
    let frac = bits & 0x7FFFFF;
    assert(frac & 0x400000 == bits & 0x400000) by (bit_vector)
        requires frac == bits & 0x7FFFFF;
    exp == 0xFF && frac != 0 && (frac & 0x400000) == 0
}

/// Check if f32 is any NaN.
pub fn f32_is_nan(bits: u32) -> (r: bool)
    ensures
        r == spec_f32_is_nan(bits),
{
    let exp = (bits >> 23u32) & 0xFF;
    let frac = bits & 0x7FFFFF;
    exp == 0xFF && frac != 0
}

/// Sign injection: magnitude of `a`, sign of `b`.
pub fn f32_sgnj(a: u32, b: u32) -> (r: u32)
    ensures
        r == (a & 0x7FFF_FFFF) | (b & 0x8000_0000),
        r & 0x7FFF_FFFF == a & 0x7FFF_FFFF,
        r >> 31u32 == b >> 31u32,
{
    let r = (a & 0x7FFF_FFFF) | (b & 0x8000_0000);
    assert(r & 0x7FFF_FFFF == a & 0x7FFF_FFFF && r >> 31u32 == b >> 31u32) by (bit_vector)
        requires r == (a & 0x7FFF_FFFF) | (b & 0x8000_0000);
    r
}

/// Sign injection negative: magnitude of `a`, opposite of `b`'s sign.
pub fn f32_sgnjn(a: u32, b: u32) -> (r: u32)
    ensures
        r == (a & 0x7FFF_FFFF) | ((b ^ 0x8000_0000) & 0x8000_0000),
        r & 0x7FFF_FFFF == a & 0x7FFF_FFFF,
        r >> 31u32 == 1 - (b >> 31u32),
{
    let r = (a & 0x7FFF_FFFF) | ((b ^ 0x8000_0000) & 0x8000_0000);
    assert(r & 0x7FFF_FFFF == a & 0x7FFF_FFFF && r >> 31u32 == 1 - (b >> 31u32)) by (bit_vector)
        requires r == (a & 0x7FFF_FFFF) | ((b ^ 0x8000_0000) & 0x8000_0000);
    r
}

/// Sign injection xor: magnitude of `a`, sign = sign(a) xor sign(b).
pub fn f32_sgnjx(a: u32, b: u32) -> (r: u32)
    ensures
        r == a ^ (b & 0x8000_0000),
        r & 0x7FFF_FFFF == a & 0x7FFF_FFFF,
        r >> 31u32 == (a >> 31u32) ^ (b >> 31u32),
{
    let r = a ^ (b & 0x8000_0000);
    assert(r & 0x7FFF_FFFF == a & 0x7FFF_FFFF && r >> 31u32 == (a >> 31u32) ^ (b >> 31u32)) by (bit_vector)
        requires r == a ^ (b & 0x8000_0000);
    r
}

/// The FCLASS result for a value with the given sign, exponent class and fraction:
/// bit 0 -inf, 1 -normal, 2 -subnormal, 3 -0, 4 +0, 5 +subnormal, 6 +normal,
/// 7 +inf, 8 signaling NaN, 9 quiet NaN.
pub open spec fn fclass(neg: bool, exp_zero: bool, exp_max: bool, frac_zero: bool, quiet: bool) -> u32 {
    if exp_zero {
        if frac_zero {
            if neg { 1u32 << 3u32 } else { 1u32 << 4u32 }
        } else {
            if neg { 1u32 << 2u32 } else { 1u32 << 5u32 }
        }
    } else if exp_max {
        if frac_zero {
            if neg { 1u32 << 0u32 } else { 1u32 << 7u32 }
        } else if quiet {
            1u32 << 9u32
        } else {
            1u32 << 8u32
        }
    } else {
        if neg { 1u32 << 1u32 } else { 1u32 << 6u32 }
    }
}

/// The FCLASS.S mask of a single-precision value.
pub open spec fn spec_f32_class(a: u32) -> u32 {
    fclass(a >> 31u32 == 1, (a >> 23u32) & 0xFF == 0, (a >> 23u32) & 0xFF == 0xFF,
        a & 0x7F_FFFF == 0, a & 0x40_0000 != 0)
}

/// The FCLASS.D mask of a double-precision value.
pub open spec fn spec_f64_class(a: u64) -> u32 {
    fclass(a >> 63u64 == 1, (a >> 52u64) & 0x7FF == 0, (a >> 52u64) & 0x7FF == 0x7FF,
        a & 0xF_FFFF_FFFF_FFFF == 0, a & 0x8_0000_0000_0000 != 0)
}

/// Classify f32 (FCLASS.S).
pub fn f32_classify(a: u32) -> (r: u32)
    ensures
        r == spec_f32_class(a),
{
    let sign = (a >> 31u32) & 1;
    let exp = (a >> 23u32) & 0xFF;
    let frac = a & 0x7F_FFFF;
    assert(sign == a >> 31u32 && a >> 31u32 <= 1 && (frac & 0x40_0000 == a & 0x40_0000)) by (bit_vector)
        requires
            sign == (a >> 31u32) & 1,
            frac == a & 0x7F_FFFF,
    ;
    if exp == 0 {
        if frac == 0 {
            if sign != 0 { 1u32 << 3u32 } else { 1u32 << 4u32 }
        } else {
            if sign != 0 { 1u32 << 2u32 } else { 1u32 << 5u32 }
        }
    } else if exp == 0xFF {
        if frac == 0 {
            if sign != 0 { 1u32 << 0u32 } else { 1u32 << 7u32 }
        } else {
            if (frac & 0x40_0000) != 0 { 1u32 << 9u32 } else { 1u32 << 8u32 }
        }
    } else {
        if sign != 0 { 1u32 << 1u32 } else { 1u32 << 6u32 }
    }
}

// ============================================================================
// Double-precision (F64) bit-level operations
// ============================================================================

/// Is `bits` a double-precision NaN?
pub open spec fn spec_f64_is_nan(bits: u64) -> bool {
    (bits >> 52u64) & 0x7FF == 0x7FF && bits & 0xF_FFFF_FFFF_FFFF != 0
}

/// Is `bits` a signaling double-precision NaN?
pub open spec fn spec_f64_is_snan(bits: u64) -> bool {
    spec_f64_is_nan(bits) && bits & 0x8_0000_0000_0000 == 0
}

/// Check if f64 is a signaling NaN.
pub fn f64_is_snan(bits: u64) -> (r: bool)
    ensures
        r == spec_f64_is_snan(bits),
{
    let exp = (bits >> 52u64) & 0x7FF;
    let frac = bits & 0xF_FFFF_FFFF_FFFF;
    assert(frac & 0x8_0000_0000_0000 == bits & 0x8_0000_0000_0000) by (bit_vector)
        requires frac == bits & 0xF_FFFF_FFFF_FFFF;
    exp == 0x7FF && frac != 0 && (frac & 0x8_0000_0000_0000) == 0
}

/// Check if f64 is any NaN.
pub fn f64_is_nan(bits: u64) -> (r: bool)
    ensures
        r == spec_f64_is_nan(bits),
{
    let exp = (bits >> 52u64) & 0x7FF;
    let frac = bits & 0xF_FFFF_FFFF_FFFF;
    exp == 0x7FF && frac != 0
}

/// Sign injection for f64.
pub fn f64_sgnj(a: u64, b: u64) -> (r: u64)
    ensures
        r == (a & 0x7FFF_FFFF_FFFF_FFFF) | (b & 0x8000_0000_0000_0000),
        r & 0x7FFF_FFFF_FFFF_FFFF == a & 0x7FFF_FFFF_FFFF_FFFF,
        r >> 63u64 == b >> 63u64,
{
    let r = (a & 0x7FFF_FFFF_FFFF_FFFF) | (b & 0x8000_0000_0000_0000);
    assert(r & 0x7FFF_FFFF_FFFF_FFFF == a & 0x7FFF_FFFF_FFFF_FFFF && r >> 63u64 == b >> 63u64) by (bit_vector)
        requires r == (a & 0x7FFF_FFFF_FFFF_FFFF) | (b & 0x8000_0000_0000_0000);
    r
}

/// Negated sign injection for f64.
pub fn f64_sgnjn(a: u64, b: u64) -> (r: u64)
    ensures
        r == (a & 0x7FFF_FFFF_FFFF_FFFF) | ((b ^ 0x8000_0000_0000_0000) & 0x8000_0000_0000_0000),
        r & 0x7FFF_FFFF_FFFF_FFFF == a & 0x7FFF_FFFF_FFFF_FFFF,
        r >> 63u64 == 1 - (b >> 63u64),
{
    let r = (a & 0x7FFF_FFFF_FFFF_FFFF) | ((b ^ 0x8000_0000_0000_0000) & 0x8000_0000_0000_0000);
    assert(r & 0x7FFF_FFFF_FFFF_FFFF == a & 0x7FFF_FFFF_FFFF_FFFF && r >> 63u64 == 1 - (b >> 63u64))
        by (bit_vector)
        requires r == (a & 0x7FFF_FFFF_FFFF_FFFF) | ((b ^ 0x8000_0000_0000_0000) & 0x8000_0000_0000_0000);
    r
}

/// Xor sign injection for f64.
pub fn f64_sgnjx(a: u64, b: u64) -> (r: u64)
    ensures
        r == a ^ (b & 0x8000_0000_0000_0000),
        r & 0x7FFF_FFFF_FFFF_FFFF == a & 0x7FFF_FFFF_FFFF_FFFF,
        r >> 63u64 == (a >> 63u64) ^ (b >> 63u64),
{
    let r = a ^ (b & 0x8000_0000_0000_0000);
    assert(r & 0x7FFF_FFFF_FFFF_FFFF == a & 0x7FFF_FFFF_FFFF_FFFF && r >> 63u64 == (a >> 63u64) ^ (b >> 63u64))
        by (bit_vector)
        requires r == a ^ (b & 0x8000_0000_0000_0000);
    r
}

/// Classify f64 (FCLASS.D).
pub fn f64_classify(a: u64) -> (r: u32)
    ensures
        r == spec_f64_class(a),
{
    let sign = (a >> 63u64) & 1;
    let exp = (a >> 52u64) & 0x7FF;
    let frac = a & 0xF_FFFF_FFFF_FFFF;
    assert(sign == a >> 63u64 && a >> 63u64 <= 1 && (frac & 0x8_0000_0000_0000 == a & 0x8_0000_0000_0000)) by (bit_vector)
        requires
            sign == (a >> 63u64) & 1,
            frac == a & 0xF_FFFF_FFFF_FFFF,
    ;
    if exp == 0 {
        if frac == 0 {
            if sign != 0 { 1u32 << 3u32 } else { 1u32 << 4u32 }
        } else {
            if sign != 0 { 1u32 << 2u32 } else { 1u32 << 5u32 }
        }
    } else if exp == 0x7FF {
        if frac == 0 {
            if sign != 0 { 1u32 << 0u32 } else { 1u32 << 7u32 }
        } else {
            if (frac & 0x8_0000_0000_0000) != 0 { 1u32 << 9u32 } else { 1u32 << 8u32 }
        }
    } else {
        if sign != 0 { 1u32 << 1u32 } else { 1u32 << 6u32 }
    }
}

} // verus!

verus! {

/// Two-operand floating-point operations.
#[derive(Clone, Copy, PartialEq, Eq, Structural, Debug)]
pub enum FpBinOp {
    Add,
    Sub,
    Mul,
    Div,
    Min,
    Max,
}

/// Floating-point comparisons.
#[derive(Clone, Copy, PartialEq, Eq, Structural, Debug)]
pub enum FpCompare {
    Eq,
    Lt,
    Le,
}

/// Arithmetic on IEEE-754 values, supplied by the embedder. Each operation
/// takes and returns raw bit patterns together with the exception flags it
/// raises; the CPU decides which operation runs, on which registers, and
/// where the result and flags go.
pub trait FloatArith {
    fn f32_binop(&self, op: FpBinOp, a: u32, b: u32, rm: RoundingMode) -> (u32, FFlags);
    fn f32_sqrt(&self, a: u32, rm: RoundingMode) -> (u32, FFlags);
    fn f32_compare(&self, op: FpCompare, a: u32, b: u32) -> (bool, FFlags);
    /// Conversion to a 32-bit integer (signed or unsigned), as raw bits.
    fn f32_to_int(&self, a: u32, signed: bool, rm: RoundingMode) -> (u32, FFlags);
    /// Conversion from a 32-bit integer (signed or unsigned).
    fn int_to_f32(&self, a: u32, signed: bool, rm: RoundingMode) -> (u32, FFlags);
    fn f32_fmadd(&self, a: u32, b: u32, c: u32, rm: RoundingMode) -> (u32, FFlags);
    fn f64_binop(&self, op: FpBinOp, a: u64, b: u64, rm: RoundingMode) -> (u64, FFlags);
    fn f64_sqrt(&self, a: u64, rm: RoundingMode) -> (u64, FFlags);
    fn f64_compare(&self, op: FpCompare, a: u64, b: u64) -> (bool, FFlags);
    fn f64_to_int(&self, a: u64, signed: bool, rm: RoundingMode) -> (u32, FFlags);
    fn int_to_f64(&self, a: u32, signed: bool) -> u64;
    fn f64_fmadd(&self, a: u64, b: u64, c: u64, rm: RoundingMode) -> (u64, FFlags);
    fn f64_to_f32(&self, a: u64, rm: RoundingMode) -> (u32, FFlags);
    fn f32_to_f64(&self, a: u32) -> (u64, FFlags);
}

} // verus!
