//! The closed set of quantization schemes the decode dispatcher understands,
//! with each scheme's block geometry: how many elements a block holds and
//! how many bytes a block occupies on disk.

use vstd::prelude::*;

verus! {

/// A quantization scheme for tensor numeric data.  The variants mirror the
/// dtypes a GGUF container may declare; each one is decoded by its own
/// codec.
#[allow(non_camel_case_types)]
#[derive(Clone, Copy, PartialEq, Eq, Structural, Debug)]
pub enum Scheme {
    F32,
    F16,
    BF16,
    Q4_0,
    Q4_1,
    Q5_0,
    Q5_1,
    Q8_0,
    Q8_1,
    Q2K,
    Q3K,
    Q4K,
    Q5K,
    Q6K,
    Q8K,
}

/// The scheme denoted by a dtype code in a scanned header entry, if any.
pub open spec fn scheme_of_code(code: u32) -> Option<Scheme> {
    if code == 0 {
        Some(Scheme::F32)
    } else if code == 1 {
        Some(Scheme::F16)
    } else if code == 2 {
        Some(Scheme::BF16)
    } else if code == 3 {
        Some(Scheme::Q4_0)
    } else if code == 4 {
        Some(Scheme::Q4_1)
    } else if code == 5 {
        Some(Scheme::Q5_0)
    } else if code == 6 {
        Some(Scheme::Q5_1)
    } else if code == 7 {
        Some(Scheme::Q8_0)
    } else if code == 8 {
        Some(Scheme::Q8_1)
    } else if code == 9 {
        Some(Scheme::Q2K)
    } else if code == 10 {
        Some(Scheme::Q3K)
    } else if code == 11 {
        Some(Scheme::Q4K)
    } else if code == 12 {
        Some(Scheme::Q5K)
    } else if code == 13 {
        Some(Scheme::Q6K)
    } else if code == 14 {
        Some(Scheme::Q8K)
    } else {
        None
    }
}

/// The dtype code under which a scheme appears in a scanned header entry.
pub open spec fn code_of_scheme(s: Scheme) -> u32 {
    match s {
        Scheme::F32 => 0,
        Scheme::F16 => 1,
        Scheme::BF16 => 2,
        Scheme::Q4_0 => 3,
        Scheme::Q4_1 => 4,
        Scheme::Q5_0 => 5,
        Scheme::Q5_1 => 6,
        Scheme::Q8_0 => 7,
        Scheme::Q8_1 => 8,
        Scheme::Q2K => 9,
        Scheme::Q3K => 10,
        Scheme::Q4K => 11,
        Scheme::Q5K => 12,
        Scheme::Q6K => 13,
        Scheme::Q8K => 14,
    }
}

/// How many elements one block of the scheme holds.
pub open spec fn block_size_of(s: Scheme) -> usize {
    match s {
        Scheme::F32 => 1,
        Scheme::F16 => 1,
        Scheme::BF16 => 1,
        Scheme::Q4_0 => 32,
        Scheme::Q4_1 => 32,
        Scheme::Q5_0 => 32,
        Scheme::Q5_1 => 32,
        Scheme::Q8_0 => 32,
        Scheme::Q8_1 => 32,
        Scheme::Q2K => 256,
        Scheme::Q3K => 256,
        Scheme::Q4K => 256,
        Scheme::Q5K => 256,
        Scheme::Q6K => 256,
        Scheme::Q8K => 256,
    }
}

/// How many bytes one block of the scheme occupies on disk.
pub open spec fn type_size_of(s: Scheme) -> usize {
    match s {
        Scheme::F32 => 4,
        Scheme::F16 => 2,
        Scheme::BF16 => 2,
        Scheme::Q4_0 => 18,
        Scheme::Q4_1 => 20,
        Scheme::Q5_0 => 22,
        Scheme::Q5_1 => 24,
        Scheme::Q8_0 => 34,
        Scheme::Q8_1 => 36,
        Scheme::Q2K => 84,
        Scheme::Q3K => 110,
        Scheme::Q4K => 144,
        Scheme::Q5K => 176,
        Scheme::Q6K => 210,
        Scheme::Q8K => 292,
    }
}

impl Scheme {
    /// The scheme denoted by a dtype code, or `None` for an unknown code.
    pub fn from_code(code: u32) -> (r: Option<Scheme>)
        ensures
            r == scheme_of_code(code),
    {
        match code {
            0 => Some(Scheme::F32),
            1 => Some(Scheme::F16),
            2 => Some(Scheme::BF16),
            3 => Some(Scheme::Q4_0),
            4 => Some(Scheme::Q4_1),
            5 => Some(Scheme::Q5_0),
            6 => Some(Scheme::Q5_1),
            7 => Some(Scheme::Q8_0),
            8 => Some(Scheme::Q8_1),
            9 => Some(Scheme::Q2K),
            10 => Some(Scheme::Q3K),
            11 => Some(Scheme::Q4K),
            12 => Some(Scheme::Q5K),
            13 => Some(Scheme::Q6K),
            14 => Some(Scheme::Q8K),
            _ => None,
        }
    }

    /// This scheme's dtype code.
    pub fn code(&self) -> (r: u32)
        ensures
            r == code_of_scheme(*self),
    {
        match self {
            Scheme::F32 => 0,
            Scheme::F16 => 1,
            Scheme::BF16 => 2,
            Scheme::Q4_0 => 3,
            Scheme::Q4_1 => 4,
            Scheme::Q5_0 => 5,
            Scheme::Q5_1 => 6,
            Scheme::Q8_0 => 7,
            Scheme::Q8_1 => 8,
            Scheme::Q2K => 9,
            Scheme::Q3K => 10,
            Scheme::Q4K => 11,
            Scheme::Q5K => 12,
            Scheme::Q6K => 13,
            Scheme::Q8K => 14,
        }
    }

    /// How many elements one block of this scheme holds.
    pub fn block_size(&self) -> (r: usize)
        ensures
            r == block_size_of(*self),
    {
        match self {
            Scheme::F32 | Scheme::F16 | Scheme::BF16 => 1,
            Scheme::Q4_0 | Scheme::Q4_1 | Scheme::Q5_0 | Scheme::Q5_1 | Scheme::Q8_0
            | Scheme::Q8_1 => 32,
            Scheme::Q2K | Scheme::Q3K | Scheme::Q4K | Scheme::Q5K | Scheme::Q6K | Scheme::Q8K => {
                256
            },
        }
    }

    /// How many bytes one block of this scheme occupies on disk.
    pub fn type_size(&self) -> (r: usize)
        ensures
            r == type_size_of(*self),
    {
        match self {
            Scheme::F32 => 4,
            Scheme::F16 | Scheme::BF16 => 2,
            Scheme::Q4_0 => 18,
            Scheme::Q4_1 => 20,
            Scheme::Q5_0 => 22,
            Scheme::Q5_1 => 24,
            Scheme::Q8_0 => 34,
            Scheme::Q8_1 => 36,
            Scheme::Q2K => 84,
            Scheme::Q3K => 110,
            Scheme::Q4K => 144,
            Scheme::Q5K => 176,
            Scheme::Q6K => 210,
            Scheme::Q8K => 292,
        }
    }
}

/// Every scheme's block holds at least one element and occupies at least
/// one byte, and no block occupies more than 292 bytes.
pub proof fn lemma_scheme_sizes(s: Scheme)
    ensures
        1 <= block_size_of(s) <= 256,
        1 <= type_size_of(s) <= 292,
{
}

/// A dtype code that denotes a scheme is recovered exactly by that
/// scheme's own code, so distinct schemes never share a code.
pub proof fn lemma_code_roundtrip(s: Scheme)
    ensures
        scheme_of_code(code_of_scheme(s)) == Some(s),
{
}

/// A scheme obtained from a dtype code carries exactly that code.
pub proof fn lemma_code_inverse(code: u32)
    requires
        scheme_of_code(code) is Some,
    ensures
        code_of_scheme(scheme_of_code(code).unwrap()) == code,
{
}

} // verus!
