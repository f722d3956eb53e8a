use vstd::prelude::*;

verus! {

/// Bit pattern of the single-precision number 1.0.
pub const ONE_BITS: u32 = 0x3f80_0000;

/// Bit pattern of the single-precision number -0.0.
pub const NEGATIVE_ZERO_BITS: u32 = 0x8000_0000;

/// An accuracy proportion in [0.0, 1.0], held as the IEEE-754 single-precision
/// bit pattern of its value, with zero always written as +0.0.
///
/// For numbers in that range the order of the bit patterns, read as unsigned
/// integers, is the numeric order; comparisons below go by the bits.
#[derive(Clone, Copy, Debug, PartialEq, Eq, Structural)]
pub struct Wifescore {
    pub bits: u32,
}

impl Wifescore {
    pub open spec fn wf(self) -> bool {
        self.bits <= ONE_BITS
    }

    /// Whether a single-precision bit pattern stands for a number in [0.0, 1.0].
    pub open spec fn is_proportion_bits(bits: u32) -> bool {
        bits <= ONE_BITS || bits == NEGATIVE_ZERO_BITS
    }

    /// Validates a single-precision number given by its bit pattern: any value
    /// in [0.0, 1.0] is accepted (-0.0 as 0.0); anything else, NaN and the
    /// infinities included, is refused.
    pub fn from_proportion_bits(bits: u32) -> (r: Option<Wifescore>)
        ensures
            r is Some <==> Self::is_proportion_bits(bits),
            r matches Some(w) ==> w.wf() && (bits <= ONE_BITS ==> w.bits == bits) && (bits
                == NEGATIVE_ZERO_BITS ==> w.bits == 0),
    {
        if bits <= ONE_BITS {
            Some(Wifescore { bits })
        } else if bits == NEGATIVE_ZERO_BITS {
            Some(Wifescore { bits: 0 })
        } else {
            None
        }
    }

    /// The proportion's bit pattern, scaled to a maximum of 1.
    pub fn as_proportion_bits(&self) -> (r: u32)
        ensures
            r == self.bits,
    {
        self.bits
    }

    /// Whether this score reaches `threshold` (inclusive).
    pub fn at_least(&self, threshold: &Wifescore) -> (r: bool)
        ensures
            r == (self.bits >= threshold.bits),
    {
        self.bits >= threshold.bits
    }
}

/// Relies on the constant `etterna::Wifescore::AAAA_THRESHOLD`, 0.99955.
#[verifier::external_body]
fn aaaa_threshold_bits() -> (r: u32)
    ensures
        r == 0x3f7f_e282,
{
    etterna::Wifescore::AAAA_THRESHOLD.as_proportion().to_bits()
}

/// Relies on the constant `etterna::Wifescore::AAA_THRESHOLD`, 0.997.
#[verifier::external_body]
fn aaa_threshold_bits() -> (r: u32)
    ensures
        r == 0x3f7f_3b64,
{
    etterna::Wifescore::AAA_THRESHOLD.as_proportion().to_bits()
}

/// Relies on the constant `etterna::Wifescore::AA_THRESHOLD`, 0.93.
#[verifier::external_body]
fn aa_threshold_bits() -> (r: u32)
    ensures
        r == 0x3f6e_147b,
{
    etterna::Wifescore::AA_THRESHOLD.as_proportion().to_bits()
}

/// Relies on the constant `etterna::Wifescore::A_THRESHOLD`, 0.80.
#[verifier::external_body]
fn a_threshold_bits() -> (r: u32)
    ensures
        r == 0x3f4c_cccd,
{
    etterna::Wifescore::A_THRESHOLD.as_proportion().to_bits()
}

/// The five grade buckets, highest first.
#[derive(Clone, Copy, Debug, PartialEq, Eq, Structural)]
pub enum Grade {
    AaaaAndAbove,
    Aaa,
    Aa,
    A,
    BAndBelow,
}

/// The four grade thresholds, highest first.
#[derive(Clone, Copy, Debug, PartialEq, Eq, Structural)]
pub struct Thresholds {
    pub aaaa: Wifescore,
    pub aaa: Wifescore,
    pub aa: Wifescore,
    pub a: Wifescore,
}

impl Thresholds {
    /// The game's fixed thresholds: 0.99955, 0.997, 0.93 and 0.80.
    pub open spec fn spec_standard() -> Thresholds {
        Thresholds {
            aaaa: Wifescore { bits: 0x3f7f_e282 },
            aaa: Wifescore { bits: 0x3f7f_3b64 },
            aa: Wifescore { bits: 0x3f6e_147b },
            a: Wifescore { bits: 0x3f4c_cccd },
        }
    }

    pub fn standard() -> (r: Thresholds)
        ensures
            r == Self::spec_standard(),
    {
        Thresholds {
            aaaa: Wifescore { bits: aaaa_threshold_bits() },
            aaa: Wifescore { bits: aaa_threshold_bits() },
            aa: Wifescore { bits: aa_threshold_bits() },
            a: Wifescore { bits: a_threshold_bits() },
        }
    }

    /// The bucket of a normalized accuracy: the highest whose threshold it reaches.
    pub open spec fn spec_grade(self, w: Wifescore) -> Grade {
        if w.bits >= self.aaaa.bits {
            Grade::AaaaAndAbove
        } else if w.bits >= self.aaa.bits {
            Grade::Aaa
        } else if w.bits >= self.aa.bits {
            Grade::Aa
        } else if w.bits >= self.a.bits {
            Grade::A
        } else {
            Grade::BAndBelow
        }
    }

    pub fn grade(&self, w: &Wifescore) -> (r: Grade)
        ensures
            r == self.spec_grade(*w),
    {
        if w.at_least(&self.aaaa) {
            Grade::AaaaAndAbove
        } else if w.at_least(&self.aaa) {
            Grade::Aaa
        } else if w.at_least(&self.aa) {
            Grade::Aa
        } else if w.at_least(&self.a) {
            Grade::A
        } else {
            Grade::BAndBelow
        }
    }
}

} // verus!
