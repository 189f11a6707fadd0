//! Requested tuning frequencies, in kilohertz.
use crate::decimal::{all_digits, digits_to_u64, digits_value};
use vstd::prelude::*;
use vstd::string::StringSliceAdditionalSpecFns;

verus! {

/// Lowest frequency, in kHz, that a caller may request.
pub const MIN_KHZ: u32 = 50_000;

/// Highest frequency, in kHz, that a caller may request.
pub const MAX_KHZ: u32 = 1_500_000;

/// Frequency, in kHz, that the engine is tuned to before any request.
pub const DEFAULT_KHZ: u32 = 145_000;

/// A frequency in kHz that callers may request.
pub open spec fn is_accepted_khz(khz: int) -> bool {
    MIN_KHZ <= khz <= MAX_KHZ
}

/// Why a frequency request was rejected.
#[derive(Debug, Clone, Copy, PartialEq, Eq, Structural)]
pub enum FrequencyError {
    /// The request is not a decimal number.
    NotANumber,
    /// The number lies outside the accepted range.
    OutOfRange,
}

/// The digits of a request once an optional leading `+` is taken off.
pub open spec fn request_digits(body: Seq<u8>) -> Seq<u8> {
    if body.len() > 0 && body[0] == 43u8 {
        body.drop_first()
    } else {
        body
    }
}

/// The request is an optional `+` followed by one or more decimal digits.
pub open spec fn is_number_request(body: Seq<u8>) -> bool {
    request_digits(body).len() > 0 && all_digits(request_digits(body))
}

/// What a frequency request decides: its number when accepted, else the error.
pub open spec fn request_outcome(body: Seq<u8>) -> Result<u32, FrequencyError> {
    if !is_number_request(body) {
        Err(FrequencyError::NotANumber)
    } else if !is_accepted_khz(digits_value(request_digits(body)) as int) {
        Err(FrequencyError::OutOfRange)
    } else {
        Ok(digits_value(request_digits(body)) as u32)
    }
}

/// Accepts `khz` when it lies in the accepted range.
pub fn validate_khz(khz: u32) -> (r: Result<u32, FrequencyError>)
    ensures
        is_accepted_khz(khz as int) ==> r == Ok::<u32, FrequencyError>(khz),
        !is_accepted_khz(khz as int) ==> r == Err::<u32, FrequencyError>(
            FrequencyError::OutOfRange,
        ),
{
    if khz < MIN_KHZ || khz > MAX_KHZ {
        Err(FrequencyError::OutOfRange)
    } else {
        Ok(khz)
    }
}

/// Reads a frequency request: a decimal number of kHz, optionally signed `+`.
pub fn parse_frequency(body: &str) -> (r: Result<u32, FrequencyError>)
    ensures
        r == request_outcome(body.spec_bytes()),
{
    let bytes = body.as_bytes();
    let n = bytes.len();
    let start: usize = if n > 0 && bytes[0] == 43u8 { 1 } else { 0 };
    proof {
        assert(request_digits(bytes@) =~= bytes@.subrange(start as int, n as int));
    }
    if start == n {
        return Err(FrequencyError::NotANumber);
    }
    let mut i: usize = start;
    while i < n
        invariant
            start <= i <= n == bytes@.len(),
            bytes@ == body.spec_bytes(),
            request_digits(bytes@) =~= bytes@.subrange(start as int, n as int),
            all_digits(bytes@.subrange(start as int, i as int)),
        decreases n - i,
    {
        if bytes[i] < 48u8 || bytes[i] > 57u8 {
            proof {
                let d = request_digits(bytes@);
                assert(d[i - start] == bytes@[i as int]);
            }
            return Err(FrequencyError::NotANumber);
        }
        proof {
            assert forall|j: int| 0 <= j < i + 1 - start implies crate::decimal::is_digit(
                #[trigger] bytes@.subrange(start as int, i + 1)[j],
            ) by {
                if j < i - start {
                    assert(bytes@.subrange(start as int, i + 1)[j] == bytes@.subrange(
                        start as int,
                        i as int,
                    )[j]);
                }
            }
        }
        i = i + 1;
    }
    match digits_to_u64(bytes, start, n) {
        None => Err(FrequencyError::OutOfRange),
        Some(v) => {
            if v < MIN_KHZ as u64 || v > MAX_KHZ as u64 {
                Err(FrequencyError::OutOfRange)
            } else {
                Ok(v as u32)
            }
        },
    }
}

} // verus!
