//! The tuning constants of the algorithm as a value that can be checked.

use vstd::prelude::*;
use vstd::string::StringExecFns;
use crate::state::{
    LOWER_MASK, MATRIX_A, SHIFT_SIZE, STATE_SIZE, TEMPERING_MASK_B, TEMPERING_MASK_C, UPPER_MASK,
};

verus! {

/// What can go wrong with a set of tuning constants.
#[derive(Debug)]
pub enum MersenneTwisterError {
    /// The constants break one of the rules; the text names the first one broken.
    InvalidConfig(String),
    /// Reading or writing a stored configuration failed.
    IoError(String),
    /// A stored configuration could not be encoded or decoded.
    SerializationError(String),
}

impl MersenneTwisterError {
    /// The text that this error is reported with.
    pub open spec fn text(self) -> Seq<char> {
        match self {
            MersenneTwisterError::InvalidConfig(msg) => "Invalid configuration: "@ + msg@,
            MersenneTwisterError::IoError(msg) => "I/O Error: "@ + msg@,
            MersenneTwisterError::SerializationError(msg) => "Serialization Error: "@ + msg@,
        }
    }

    /// Renders the error for a reader: a prefix that names the kind, then the detail.
    pub fn to_text(&self) -> (s: String)
        ensures
            s@ == self.text(),
    {
        match self {
            MersenneTwisterError::InvalidConfig(msg) => {
                String::from_str("Invalid configuration: ").concat(msg.as_str())
            },
            MersenneTwisterError::IoError(msg) => {
                String::from_str("I/O Error: ").concat(msg.as_str())
            },
            MersenneTwisterError::SerializationError(msg) => {
                String::from_str("Serialization Error: ").concat(msg.as_str())
            },
        }
    }
}

/// The five bit-pattern constants of the algorithm.
#[derive(Debug, Clone, Copy, PartialEq, Eq, Hash, PartialOrd, Ord)]
pub struct MersenneTwisterParams {
    /// The twist matrix constant; its highest bit must be set.
    pub matrix_a: u32,
    /// Mask of the highest bit: `0x80000000`.
    pub upper_mask: u32,
    /// Mask of the 31 low bits: `0x7fffffff`.
    pub lower_mask: u32,
    /// First tempering mask: `0x9d2c5680`.
    pub tempering_mask_b: u32,
    /// Second tempering mask: `0xefc60000`.
    pub tempering_mask_c: u32,
}

/// The constants of MT19937, which the generator works with.
pub open spec fn canonical_params() -> MersenneTwisterParams {
    MersenneTwisterParams {
        matrix_a: MATRIX_A,
        upper_mask: UPPER_MASK,
        lower_mask: LOWER_MASK,
        tempering_mask_b: TEMPERING_MASK_B,
        tempering_mask_c: TEMPERING_MASK_C,
    }
}

impl Default for MersenneTwisterParams {
    fn default() -> (p: Self)
        ensures
            p == canonical_params(),
    {
        MersenneTwisterParams {
            matrix_a: MATRIX_A,
            upper_mask: UPPER_MASK,
            lower_mask: LOWER_MASK,
            tempering_mask_b: TEMPERING_MASK_B,
            tempering_mask_c: TEMPERING_MASK_C,
        }
    }
}

/// The rules that a state length `n`, an offset `m` and the constants must
/// obey: the offset lies inside the state, the matrix constant has its highest
/// bit set, and the four masks are those of MT19937.
pub open spec fn valid_config(n: usize, m: usize, p: MersenneTwisterParams) -> bool {
    &&& 1 <= m < n
    &&& p.matrix_a & UPPER_MASK == UPPER_MASK
    &&& p.upper_mask == UPPER_MASK
    &&& p.lower_mask == LOWER_MASK
    &&& p.tempering_mask_b == TEMPERING_MASK_B
    &&& p.tempering_mask_c == TEMPERING_MASK_C
}

/// The constants of MT19937 with its state length and offset obey the rules.
pub proof fn lemma_canonical_config_is_valid()
    ensures
        valid_config(STATE_SIZE, SHIFT_SIZE, canonical_params()),
        first_violation(STATE_SIZE, SHIFT_SIZE, canonical_params()) is None,
{
    assert(0x9908_b0dfu32 & 0x8000_0000 == 0x8000_0000) by (bit_vector);
}

/// The text that names the first rule broken, in the order in which the
/// rules are checked; `None` when every rule holds.
pub open spec fn first_violation(n: usize, m: usize, p: MersenneTwisterParams) -> Option<
    Seq<char>,
> {
    if n < 1 {
        Some("n must be at least 1"@)
    } else if m < 1 || m >= n {
        Some("m must be at least 1 and less than n"@)
    } else if p.matrix_a & UPPER_MASK != UPPER_MASK {
        Some("matrix_a must have its highest bit set"@)
    } else if p.upper_mask != UPPER_MASK {
        Some("upper_mask must be 0x80000000"@)
    } else if p.lower_mask != LOWER_MASK {
        Some("lower_mask must be 0x7fffffff"@)
    } else if p.tempering_mask_b != TEMPERING_MASK_B {
        Some("tempering_mask_b must be 0x9d2c5680"@)
    } else if p.tempering_mask_c != TEMPERING_MASK_C {
        Some("tempering_mask_c must be 0xefc60000"@)
    } else {
        None
    }
}

/// Whether `r` is what a check of `(n, m, p)` must report: success exactly
/// when every rule holds, else `InvalidConfig` with the text of the first
/// rule broken.
pub open spec fn reports<T>(
    r: Result<T, MersenneTwisterError>,
    n: usize,
    m: usize,
    p: MersenneTwisterParams,
) -> bool {
    &&& r is Ok <==> valid_config(n, m, p)
    &&& match first_violation(n, m, p) {
        None => r is Ok,
        Some(text) => r matches Err(MersenneTwisterError::InvalidConfig(msg)) && msg@ == text,
    }
}

/// The refusal that carries `text`.
fn invalid(text: &str) -> (r: Result<(), MersenneTwisterError>)
    ensures
        r matches Err(MersenneTwisterError::InvalidConfig(msg)) && msg@ == text@,
{
    Err(MersenneTwisterError::InvalidConfig(String::from_str(text)))
}

/// A checked set of constants for a state of `N` words and offset `M`.
#[derive(Clone, Copy, Debug, Eq, Hash, Ord, PartialEq, PartialOrd)]
pub struct MersenneTwisterConfig<const N: usize, const M: usize> {
    /// The constants.
    pub params: MersenneTwisterParams,
}

impl<const N: usize, const M: usize> MersenneTwisterConfig<N, M> {
    /// Builds a configuration from `params` after checking them.
    pub fn new_custom(params: MersenneTwisterParams) -> (r: Result<Self, MersenneTwisterError>)
        ensures
            reports(r, N, M, params),
            r matches Ok(c) ==> c.params == params,
    {
        match Self::validate(&params) {
            Ok(()) => Ok(MersenneTwisterConfig { params }),
            Err(e) => Err(e),
        }
    }

    /// Checks `params`, together with `N` and `M`, against the rules.
    pub fn validate(params: &MersenneTwisterParams) -> (r: Result<(), MersenneTwisterError>)
        ensures
            reports(r, N, M, *params),
    {
        if N < 1 {
            return invalid("n must be at least 1");
        }
        if M < 1 || M >= N {
            return invalid("m must be at least 1 and less than n");
        }
        if params.matrix_a & UPPER_MASK != UPPER_MASK {
            return invalid("matrix_a must have its highest bit set");
        }
        if params.upper_mask != UPPER_MASK {
            return invalid("upper_mask must be 0x80000000");
        }
        if params.lower_mask != LOWER_MASK {
            return invalid("lower_mask must be 0x7fffffff");
        }
        if params.tempering_mask_b != TEMPERING_MASK_B {
            return invalid("tempering_mask_b must be 0x9d2c5680");
        }
        if params.tempering_mask_c != TEMPERING_MASK_C {
            return invalid("tempering_mask_c must be 0xefc60000");
        }
        Ok(())
    }

    /// Builds the configuration that holds the constants of MT19937.
    pub fn new() -> (r: Result<Self, MersenneTwisterError>)
        ensures
            reports(r, N, M, canonical_params()),
            r matches Ok(c) ==> c.params == canonical_params(),
    {
        Self::new_custom(MersenneTwisterParams::default())
    }

    /// Replaces the constants by `params` if they pass the check, and leaves
    /// the configuration as it was if they do not.
    pub fn set_config(&mut self, params: MersenneTwisterParams) -> (r: Result<
        (),
        MersenneTwisterError,
    >)
        ensures
            reports(r, N, M, params),
            r is Ok ==> final(self).params == params,
            r is Err ==> *final(self) == *old(self),
    {
        match Self::validate(&params) {
            Ok(()) => {
                self.params = params;
                Ok(())
            },
            Err(e) => Err(e),
        }
    }
}

impl Default for MersenneTwisterConfig<624, 397> {
    /// The configuration of MT19937, which obeys the rules.
    fn default() -> (c: Self)
        ensures
            c.params == canonical_params(),
            valid_config(624, 397, c.params),
    {
        proof {
            lemma_canonical_config_is_valid();
        }
        MersenneTwisterConfig { params: MersenneTwisterParams::default() }
    }
}

} // verus!
