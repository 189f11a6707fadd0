//! The integer part of the spectrum pipeline: tuning offset, sample centring,
//! level clamping, spectrum re-centring and the sub-band peak.
//!
//! Transforming a block takes floating point and stays with the caller; the
//! caller hands over each bin's level in hundredths of a dB, in transform order.
use crate::frequency::MAX_KHZ;
use vstd::prelude::*;

verus! {

/// Samples per transform.
pub const FFT_SIZE: usize = 1024;

/// Samples per second that the device is configured for.
pub const SAMPLE_RATE_HZ: usize = 1_024_000;

/// Width of one transform bin in Hz: the sample rate over the transform size.
pub const BIN_HZ: usize = 1_000;

/// The device is tuned this far above the frequency of interest, so that its
/// DC artefact stays away from the measurement: an eighth of the sample rate.
pub const TUNING_OFFSET_HZ: usize = 128_000;

/// Shifted bin at which the frequency of interest lies: three eighths of the spectrum.
pub const SUB_BAND_CENTER: usize = 384;

/// Half the width of the examined sub-band in bins: 15 kHz rounded up to whole bins.
pub const SUB_BAND_HALF_WIDTH: usize = 15;

/// First bin of the examined sub-band: the centre less the half width.
pub const SUB_BAND_LO: usize = 369;

/// One past the last bin of the examined sub-band: the centre plus the half width.
pub const SUB_BAND_HI: usize = 399;

/// Lowest level reported, in hundredths of a dB (-120 dBFS).
pub const FLOOR_LEVEL: i64 = -12_000;

/// Highest level reported, in hundredths of a dB (0 dBFS).
pub const CEILING_LEVEL: i64 = 0;

/// Level published before any sample has been measured, in hundredths of a dB.
pub const INITIAL_LEVEL: i64 = 0;

/// Offset of a raw 8-bit sample's zero.
pub const RAW_ZERO: i32 = 127;

/// The device frequency, in Hz, for a frequency of interest in kHz.
pub open spec fn tuning_hz(khz: int) -> int {
    khz * 1000 + TUNING_OFFSET_HZ
}

/// The frequency, in Hz, that a bin of the re-centred spectrum stands for.
pub open spec fn bin_hz(khz: int, bin: int) -> int {
    tuning_hz(khz) + (bin - FFT_SIZE / 2) * BIN_HZ
}

/// Where bin `i` of the transform lands once the spectrum is re-centred.
pub open spec fn shifted_bin(i: int) -> int {
    (i + FFT_SIZE / 2) % (FFT_SIZE as int)
}

/// A level clamped to the reported range.
pub open spec fn clamped_level(x: int) -> int {
    if x < FLOOR_LEVEL {
        FLOOR_LEVEL as int
    } else if x > CEILING_LEVEL {
        CEILING_LEVEL as int
    } else {
        x
    }
}

/// The loudest bin of a sub-band.
#[derive(Debug, Clone, Copy, PartialEq, Eq, Structural)]
pub struct Peak {
    /// Index of the bin in the re-centred spectrum.
    pub bin: usize,
    /// Its level in hundredths of a dB.
    pub level: i64,
}

/// `p` is the first loudest bin of the sub-band of `levels`.
pub open spec fn is_sub_band_peak(levels: Seq<i64>, p: Peak) -> bool {
    &&& SUB_BAND_LO <= p.bin < SUB_BAND_HI
    &&& p.level == levels[p.bin as int]
    &&& forall|b: int| SUB_BAND_LO <= b < SUB_BAND_HI ==> #[trigger] levels[b] <= p.level
    &&& forall|b: int| SUB_BAND_LO <= b < p.bin ==> #[trigger] levels[b] < p.level
}

/// `p` measures a block whose bin levels, in transform order, are `raw`: the
/// first loudest bin of the sub-band once each level is clamped and the
/// spectrum re-centred.
pub open spec fn is_block_measurement(raw: Seq<i64>, p: Peak) -> bool {
    &&& exists|shifted: Seq<i64>|
        {
            &&& shifted.len() == FFT_SIZE
            &&& forall|i: int|
                0 <= i < FFT_SIZE ==> shifted[shifted_bin(i)] == clamped_level(
                    #[trigger] raw[i] as int,
                )
            &&& is_sub_band_peak(shifted, p)
        }
    &&& FLOOR_LEVEL <= p.level <= CEILING_LEVEL
}

/// The frequency, in Hz, that the device is tuned to for `khz`.
pub fn tuning_frequency_hz(khz: u32) -> (r: u32)
    requires
        khz <= MAX_KHZ,
    ensures
        r == tuning_hz(khz as int),
{
    khz * 1000 + TUNING_OFFSET_HZ as u32
}

/// The frequency, in Hz, that `bin` of the re-centred spectrum stands for
/// while the engine is tuned to `khz`.
pub fn bin_frequency_hz(khz: u32, bin: usize) -> (r: i64)
    requires
        khz <= MAX_KHZ,
        bin < FFT_SIZE,
    ensures
        r == bin_hz(khz as int, bin as int),
{
    let d = bin as i64 - (FFT_SIZE / 2) as i64;
    assert(-1_000_000_000 <= d * 1000 <= 1_000_000_000) by (nonlinear_arith)
        requires
            -512 <= d < 512,
    ;
    tuning_frequency_hz(khz) as i64 + d * BIN_HZ as i64
}

/// Splits interleaved raw 8-bit I/Q bytes into pairs centred on zero.
pub fn centered_iq(raw: &[u8]) -> (r: Vec<(i32, i32)>)
    requires
        raw@.len() % 2 == 0,
    ensures
        r@.len() == raw@.len() / 2,
        forall|k: int|
            0 <= k < r@.len() ==> #[trigger] r@[k].0 == raw@[2 * k] - RAW_ZERO && r@[k].1 == raw@[2
                * k + 1] - RAW_ZERO,
{
    let mut r: Vec<(i32, i32)> = Vec::new();
    let mut k: usize = 0;
    let len = raw.len();
    let n = len / 2;
    while k < n
        invariant
            len == raw@.len(),
            n == raw@.len() / 2,
            raw@.len() % 2 == 0,
            k <= n,
            r@.len() == k,
            forall|j: int|
                0 <= j < k ==> #[trigger] r@[j].0 == raw@[2 * j] - RAW_ZERO && r@[j].1 == raw@[2
                    * j + 1] - RAW_ZERO,
        decreases n - k,
    {
        assert(2 * k + 1 < raw@.len()) by (nonlinear_arith)
            requires
                k < n,
                n == raw@.len() / 2,
        ;
        let re = raw[2 * k] as i32 - RAW_ZERO;
        let im = raw[2 * k + 1] as i32 - RAW_ZERO;
        r.push((re, im));
        k = k + 1;
    }
    r
}

/// Clamps a level, in hundredths of a dB, to the reported range [-120 dB, 0 dB].
pub fn clamp_level(x: i64) -> (r: i64)
    ensures
        r == clamped_level(x as int),
        FLOOR_LEVEL <= r <= CEILING_LEVEL,
{
    if x < FLOOR_LEVEL {
        FLOOR_LEVEL
    } else if x > CEILING_LEVEL {
        CEILING_LEVEL
    } else {
        x
    }
}

/// Re-centres a spectrum in transform order so that zero frequency sits in the middle.
pub fn shift_spectrum(levels: &Vec<i64>) -> (r: Vec<i64>)
    requires
        levels@.len() == FFT_SIZE,
    ensures
        r@.len() == FFT_SIZE,
        forall|i: int| 0 <= i < FFT_SIZE ==> r@[shifted_bin(i)] == #[trigger] levels@[i],
{
    let mut r: Vec<i64> = Vec::new();
    let half = FFT_SIZE / 2;
    let mut j: usize = 0;
    while j < FFT_SIZE
        invariant
            levels@.len() == FFT_SIZE,
            half == FFT_SIZE / 2,
            j <= FFT_SIZE,
            r@.len() == j,
            forall|b: int| 0 <= b < j ==> #[trigger] r@[b] == levels@[(b + half) % (FFT_SIZE as int)],
        decreases FFT_SIZE - j,
    {
        r.push(levels[(j + half) % FFT_SIZE]);
        j = j + 1;
    }
    assert forall|i: int| 0 <= i < FFT_SIZE implies r@[shifted_bin(i)] == #[trigger] levels@[i] by {
        let b = shifted_bin(i);
        assert(0 <= b < FFT_SIZE);
        assert((b + half) % (FFT_SIZE as int) == i);
        assert(r@[b] == levels@[(b + half) % (FFT_SIZE as int)]);
    }
    r
}

/// Finds the first loudest bin of the examined sub-band of a re-centred spectrum.
pub fn sub_band_peak(levels: &Vec<i64>) -> (p: Peak)
    requires
        levels@.len() == FFT_SIZE,
    ensures
        is_sub_band_peak(levels@, p),
{
    let mut best = Peak { bin: SUB_BAND_LO, level: levels[SUB_BAND_LO] };
    let mut b: usize = SUB_BAND_LO + 1;
    while b < SUB_BAND_HI
        invariant
            levels@.len() == FFT_SIZE,
            SUB_BAND_LO < b <= SUB_BAND_HI,
            SUB_BAND_LO <= best.bin < b,
            best.level == levels@[best.bin as int],
            forall|c: int| SUB_BAND_LO <= c < b ==> #[trigger] levels@[c] <= best.level,
            forall|c: int| SUB_BAND_LO <= c < best.bin ==> #[trigger] levels@[c] < best.level,
        decreases SUB_BAND_HI - b,
    {
        if levels[b] > best.level {
            best = Peak { bin: b, level: levels[b] };
        }
        b = b + 1;
    }
    best
}

/// The measurement of one block: each level in transform order is clamped,
/// the spectrum re-centred, and the first loudest bin of the sub-band taken.
pub fn measure_block(raw_levels: &Vec<i64>) -> (p: Peak)
    requires
        raw_levels@.len() == FFT_SIZE,
    ensures
        is_block_measurement(raw_levels@, p),
        FLOOR_LEVEL <= p.level <= CEILING_LEVEL,
{
    let mut clamped: Vec<i64> = Vec::new();
    let mut i: usize = 0;
    while i < raw_levels.len()
        invariant
            raw_levels@.len() == FFT_SIZE,
            i <= FFT_SIZE,
            clamped@.len() == i,
            forall|j: int|
                0 <= j < i ==> #[trigger] clamped@[j] == clamped_level(raw_levels@[j] as int),
        decreases FFT_SIZE - i,
    {
        clamped.push(clamp_level(raw_levels[i]));
        i = i + 1;
    }
    let shifted = shift_spectrum(&clamped);
    let p = sub_band_peak(&shifted);
    assert(FLOOR_LEVEL <= p.level <= CEILING_LEVEL) by {
        let k = shifted_bin((p.bin + FFT_SIZE / 2) % (FFT_SIZE as int));
        assert(k == p.bin);
        assert(shifted@[k] == clamped@[(p.bin + FFT_SIZE / 2) % (FFT_SIZE as int)]);
    }
    assert forall|i: int| 0 <= i < FFT_SIZE implies shifted@[shifted_bin(i)] == clamped_level(
        #[trigger] raw_levels@[i] as int,
    ) by {
        assert(shifted@[shifted_bin(i)] == clamped@[i]);
    }
    p
}

/// A transform bin that is louder than every other, whose level lies within
/// the reported range, and which lands in the sub-band, is the one a block
/// measurement reports, with its level.
pub proof fn loudest_bin_is_measured(raw: Seq<i64>, i: int, p: Peak)
    requires
        raw.len() == FFT_SIZE,
        0 <= i < FFT_SIZE,
        SUB_BAND_LO <= shifted_bin(i) < SUB_BAND_HI,
        FLOOR_LEVEL < raw[i] <= CEILING_LEVEL,
        forall|j: int| 0 <= j < FFT_SIZE && j != i ==> #[trigger] raw[j] < raw[i],
        is_block_measurement(raw, p),
    ensures
        p.bin == shifted_bin(i),
        p.level == raw[i],
{
    let shifted = choose|shifted: Seq<i64>|
        {
            &&& shifted.len() == FFT_SIZE
            &&& forall|k: int|
                0 <= k < FFT_SIZE ==> shifted[shifted_bin(k)] == clamped_level(
                    #[trigger] raw[k] as int,
                )
            &&& is_sub_band_peak(shifted, p)
        };
    let t = shifted_bin(i);
    assert(shifted[t] == raw[i]);
    if p.bin != t {
        let j = (p.bin + FFT_SIZE / 2) % (FFT_SIZE as int);
        assert(shifted_bin(j) == p.bin);
        assert(j != i);
        assert(raw[j] < raw[i]);
        assert(shifted[p.bin as int] == clamped_level(raw[j] as int));
        assert(shifted[t] <= p.level);
    }
}

/// A tone within 15 kHz below to 15 kHz above the frequency of interest falls
/// into a bin of the examined sub-band whose frequency lies less than one bin
/// width below the tone's.
pub proof fn tone_lands_in_sub_band(khz: int, tone_hz: int)
    requires
        khz * 1000 - 15_000 <= tone_hz < khz * 1000 + 15_000,
    ensures
        exists|b: int|
            SUB_BAND_LO <= b < SUB_BAND_HI && #[trigger] bin_hz(khz, b) <= tone_hz < bin_hz(
                khz,
                b,
            ) + BIN_HZ,
{
    let offset = tone_hz - khz * 1000;
    let q = offset / 1000;
    let b = SUB_BAND_CENTER + q;
    assert(q * 1000 <= offset < q * 1000 + 1000) by (nonlinear_arith)
        requires
            q == offset / 1000,
    ;
    assert(-15 <= q < 15) by (nonlinear_arith)
        requires
            q * 1000 <= offset < q * 1000 + 1000,
            -15_000 <= offset < 15_000,
    ;
    assert(bin_hz(khz, b) == khz * 1000 + q * 1000);
    assert(bin_hz(khz, b) <= tone_hz < bin_hz(khz, b) + BIN_HZ);
}

} // verus!
