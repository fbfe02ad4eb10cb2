//! From raw words to signals: scaling and the unpacking of status bits.
//!
//! A raw analog sample is a 16-bit code that was read as a signed integer.
//! Scaling first recovers the unsigned code and then applies the offset and
//! the factor of the kind of signal. The results are exact integers in a
//! fixed unit: nanovolts for the amplifier (0.195 microvolts per step are
//! 195 nanovolts), units of 10 microvolts for the DC amplifier (19.23
//! millivolts per step are 1923 such units), and units of 100 nanovolts for
//! the board ADC and DAC (312.5 microvolts per step are 3125 such units).

use crate::arrays::{is_rect, shape_fits, BoolArray2, IntArray1, IntArray2};
use crate::blocks::all_samples_16_bit;
use crate::blocks::{RawData, RawDataView};
use crate::types::{
    channel_views, ChannelInfo, ChannelInfoView, IntanError, RhsData, RhsDataView, RhsHeader,
    RhsHeaderView,
};
use crate::wire::signed16;
use vstd::prelude::*;

verus! {

/// The unsigned 16-bit code behind a raw sample that was read as signed.
pub open spec fn unsigned_code(raw: int) -> int {
    if raw < 0 {
        raw + 65536
    } else {
        raw
    }
}

/// A raw sample scaled with `offset` and `factor`.
pub open spec fn scaled(raw: int, offset: int, factor: int) -> int {
    (unsigned_code(raw) - offset) * factor
}

/// The amplifier signal of a raw sample, in nanovolts.
pub open spec fn amplifier_nanovolts(raw: int) -> int {
    scaled(raw, 32768, 195)
}

/// The DC amplifier signal of a raw sample, in units of 10 microvolts.
pub open spec fn dc_amplifier_units(raw: int) -> int {
    scaled(raw, 512, 1923)
}

/// The board ADC or DAC signal of a raw sample, in units of 100 nanovolts.
pub open spec fn adc_dac_units(raw: int) -> int {
    scaled(raw, 32768, 3125)
}

/// Scaling undoes the signed reading of the samples: whatever 16-bit code
/// the file holds, the signal computed from the code as it was read, as a
/// signed integer, is the code itself minus the offset, times the factor.
pub proof fn lemma_scaling_recovers_the_code(code: int)
    requires
        0 <= code <= 65535,
    ensures
        unsigned_code(signed16(code)) == code,
        amplifier_nanovolts(signed16(code)) == (code - 32768) * 195,
        dc_amplifier_units(signed16(code)) == (code - 512) * 1923,
        adc_dac_units(signed16(code)) == (code - 32768) * 3125,
{
}

/// Whether `out` has the shape of `raw` and holds each raw sample scaled with
/// `offset` and `factor`.
pub open spec fn is_scaled(
    out: Seq<Seq<i32>>,
    raw: Seq<Seq<i32>>,
    offset: int,
    factor: int,
) -> bool {
    &&& out.len() == raw.len()
    &&& forall|ch: int| 0 <= ch < out.len() ==> (#[trigger] out[ch]).len() == raw[ch].len()
    &&& forall|ch: int, s: int|
        0 <= ch < out.len() && 0 <= s < out[ch].len() ==> #[trigger] out[ch][s] == scaled(
            raw[ch][s] as int,
            offset,
            factor,
        )
}

/// Scales every sample of a raw matrix with `offset` and `factor`.
fn scale_analog(data_raw: &IntArray2, offset: i32, factor: i32) -> (out: IntArray2)
    requires
        shape_fits(data_raw@.len() as int, data_raw.spec_ncols() as int),
        all_samples_16_bit(data_raw@),
        0 <= offset <= 65535,
        0 < factor <= 3125,
    ensures
        out.spec_ncols() == data_raw.spec_ncols(),
        is_rect(out@, out.spec_ncols()),
        is_scaled(out@, data_raw@, offset as int, factor as int),
{
    let shape = data_raw.dim();
    let rows: usize = shape.0;
    let cols: usize = shape.1;
    let mut out = IntArray2::zeros(rows, cols);
    let mut ch: usize = 0;
    while ch < rows
        invariant
            ch <= rows,
            rows == data_raw@.len(),
            cols == data_raw.spec_ncols(),
            is_rect(data_raw@, cols as nat),
            all_samples_16_bit(data_raw@),
            0 <= offset <= 65535,
            0 < factor <= 3125,
            out@.len() == rows,
            out.spec_ncols() == cols,
            is_rect(out@, cols as nat),
            forall|c: int, s: int|
                0 <= c < ch && 0 <= s < cols ==> #[trigger] out@[c][s] == scaled(
                    data_raw@[c][s] as int,
                    offset as int,
                    factor as int,
                ),
        decreases rows - ch,
    {
        let mut s: usize = 0;
        while s < cols
            invariant
                s <= cols,
                ch < rows,
                rows == data_raw@.len(),
                cols == data_raw.spec_ncols(),
                is_rect(data_raw@, cols as nat),
                all_samples_16_bit(data_raw@),
                0 <= offset <= 65535,
                0 < factor <= 3125,
                out@.len() == rows,
                out.spec_ncols() == cols,
                is_rect(out@, cols as nat),
                forall|c: int, t: int|
                    (0 <= c < ch && 0 <= t < cols) || (c == ch && 0 <= t < s)
                        ==> #[trigger] out@[c][t] == scaled(
                        data_raw@[c][t] as int,
                        offset as int,
                        factor as int,
                    ),
            decreases cols - s,
        {
            let x: i32 = data_raw.at(ch, s);
            assert(-32768 <= x <= 32767) by {
                assert(-32768 <= data_raw@[ch as int][s as int] <= 32767);
            }
            // The sample was read as signed but stands for an unsigned code.
            let unsigned_val: i32 = if x < 0 {
                x + 65536
            } else {
                x
            };
            let centered: i32 = unsigned_val - offset;
            assert(-214748364 <= centered * factor <= 214748364) by (nonlinear_arith)
                requires
                    -65535 <= centered <= 65535,
                    0 < factor <= 3125,
            ;
            out.set(ch, s, centered * factor);
            s = s + 1;
        }
        ch = ch + 1;
    }
    out
}

/// Scales raw amplifier samples to nanovolts: the unsigned code minus 32768,
/// times 195.
pub fn scale_amplifier_data(data_raw: &IntArray2) -> (out: IntArray2)
    requires
        shape_fits(data_raw@.len() as int, data_raw.spec_ncols() as int),
        all_samples_16_bit(data_raw@),
    ensures
        out.spec_ncols() == data_raw.spec_ncols(),
        is_rect(out@, out.spec_ncols()),
        is_scaled(out@, data_raw@, 32768, 195),
{
    scale_analog(data_raw, 32768, 195)
}

/// Scales raw DC amplifier samples to units of 10 microvolts: the unsigned
/// code minus 512, times 1923.
pub fn scale_dc_amplifier_data(data_raw: &IntArray2) -> (out: IntArray2)
    requires
        shape_fits(data_raw@.len() as int, data_raw.spec_ncols() as int),
        all_samples_16_bit(data_raw@),
    ensures
        out.spec_ncols() == data_raw.spec_ncols(),
        is_rect(out@, out.spec_ncols()),
        is_scaled(out@, data_raw@, 512, 1923),
{
    scale_analog(data_raw, 512, 1923)
}

/// Scales raw board ADC samples to units of 100 nanovolts: the unsigned code
/// minus 32768, times 3125.
pub fn scale_adc_data(data_raw: &IntArray2) -> (out: IntArray2)
    requires
        shape_fits(data_raw@.len() as int, data_raw.spec_ncols() as int),
        all_samples_16_bit(data_raw@),
    ensures
        out.spec_ncols() == data_raw.spec_ncols(),
        is_rect(out@, out.spec_ncols()),
        is_scaled(out@, data_raw@, 32768, 3125),
{
    scale_analog(data_raw, 32768, 3125)
}

/// Scales raw board DAC samples to units of 100 nanovolts: the unsigned code
/// minus 32768, times 3125.
pub fn scale_dac_data(data_raw: &IntArray2) -> (out: IntArray2)
    requires
        shape_fits(data_raw@.len() as int, data_raw.spec_ncols() as int),
        all_samples_16_bit(data_raw@),
    ensures
        out.spec_ncols() == data_raw.spec_ncols(),
        is_rect(out@, out.spec_ncols()),
        is_scaled(out@, data_raw@, 32768, 3125),
{
    scale_analog(data_raw, 32768, 3125)
}

// ---------------------------------------------------------------------------
// Stimulation words
// ---------------------------------------------------------------------------

/// Whether the compliance limit bit (bit 15) of a stimulation word is set.
pub open spec fn compliance_limit_of(word: i32) -> bool {
    (word & 32768i32) != 0
}

/// Whether the charge recovery bit (bit 14) of a stimulation word is set.
pub open spec fn charge_recovery_of(word: i32) -> bool {
    (word & 16384i32) != 0
}

/// Whether the amplifier settle bit (bit 13) of a stimulation word is set.
pub open spec fn amp_settle_of(word: i32) -> bool {
    (word & 8192i32) != 0
}

/// The stimulation current of a word in steps: the low eight bits, negated
/// if the polarity bit (bit 8) is set.
pub open spec fn stim_steps_of(word: i32) -> int {
    if (word & 256i32) == 0 {
        (word & 255i32) as int
    } else {
        -((word & 255i32) as int)
    }
}

/// How a stimulation word, read as a signed 16-bit integer, holds its
/// fields: the compliance limit flag is its sign, the current is at most 255
/// steps in either direction, and no field depends on the bits between the
/// polarity and the amplifier settle flag.
pub proof fn lemma_stim_word_fields(word: i32)
    requires
        -32768 <= word <= 32767,
    ensures
        compliance_limit_of(word) <==> word < 0,
        -255 <= stim_steps_of(word) <= 255,
        compliance_limit_of(word & 0xE1FFi32) == compliance_limit_of(word),
        charge_recovery_of(word & 0xE1FFi32) == charge_recovery_of(word),
        amp_settle_of(word & 0xE1FFi32) == amp_settle_of(word),
        stim_steps_of(word & 0xE1FFi32) == stim_steps_of(word),
{
    assert(((word & 32768i32) != 0) <==> word < 0) by (bit_vector)
        requires
            -32768i32 <= word <= 32767i32,
    ;
    assert(0 <= (word & 255i32) <= 255) by (bit_vector);
    assert((word & 0xE1FFi32) & 32768i32 == word & 32768i32) by (bit_vector);
    assert((word & 0xE1FFi32) & 16384i32 == word & 16384i32) by (bit_vector);
    assert((word & 0xE1FFi32) & 8192i32 == word & 8192i32) by (bit_vector);
    assert((word & 0xE1FFi32) & 256i32 == word & 256i32) by (bit_vector);
    assert((word & 0xE1FFi32) & 255i32 == word & 255i32) by (bit_vector);
}

/// Whether `out` has the shape of `raw` and holds the stimulation current of
/// each word in steps.
pub open spec fn is_stim_steps(out: Seq<Seq<i32>>, raw: Seq<Seq<i32>>) -> bool {
    &&& out.len() == raw.len()
    &&& forall|ch: int| 0 <= ch < out.len() ==> (#[trigger] out[ch]).len() == raw[ch].len()
    &&& forall|ch: int, s: int|
        0 <= ch < out.len() && 0 <= s < out[ch].len() ==> #[trigger] out[ch][s] == stim_steps_of(
            raw[ch][s],
        )
}

/// Whether `out` has the shape of `raw` and holds, for each word, whether
/// any bit of `mask` is set in it.
pub open spec fn is_flag(out: Seq<Seq<bool>>, raw: Seq<Seq<i32>>, mask: i32) -> bool {
    &&& out.len() == raw.len()
    &&& forall|ch: int| 0 <= ch < out.len() ==> (#[trigger] out[ch]).len() == raw[ch].len()
    &&& forall|ch: int, s: int|
        0 <= ch < out.len() && 0 <= s < out[ch].len() ==> #[trigger] out[ch][s] == ((raw[ch][s]
            & mask) != 0)
}

/// Marks in a matrix of flags, for each stimulation word, whether any bit of
/// `mask` is set in it.
fn extract_flag(stim_data_raw: &IntArray2, mask: i32) -> (out: BoolArray2)
    requires
        shape_fits(stim_data_raw@.len() as int, stim_data_raw.spec_ncols() as int),
    ensures
        out.spec_ncols() == stim_data_raw.spec_ncols(),
        is_rect(out@, out.spec_ncols()),
        is_flag(out@, stim_data_raw@, mask),
{
    let shape = stim_data_raw.dim();
    let num_channels: usize = shape.0;
    let num_samples: usize = shape.1;
    let mut out = BoolArray2::from_elem(num_channels, num_samples, false);
    let mut i: usize = 0;
    while i < num_channels
        invariant
            i <= num_channels,
            num_channels == stim_data_raw@.len(),
            num_samples == stim_data_raw.spec_ncols(),
            is_rect(stim_data_raw@, num_samples as nat),
            out@.len() == num_channels,
            out.spec_ncols() == num_samples,
            is_rect(out@, num_samples as nat),
            forall|c: int, s: int|
                0 <= c < i && 0 <= s < num_samples ==> #[trigger] out@[c][s] == ((
                stim_data_raw@[c][s] & mask) != 0),
        decreases num_channels - i,
    {
        let mut j: usize = 0;
        while j < num_samples
            invariant
                j <= num_samples,
                i < num_channels,
                num_channels == stim_data_raw@.len(),
                num_samples == stim_data_raw.spec_ncols(),
                is_rect(stim_data_raw@, num_samples as nat),
                out@.len() == num_channels,
                out.spec_ncols() == num_samples,
                is_rect(out@, num_samples as nat),
                forall|c: int, s: int|
                    (0 <= c < i && 0 <= s < num_samples) || (c == i && 0 <= s < j)
                        ==> #[trigger] out@[c][s] == ((stim_data_raw@[c][s] & mask) != 0),
            decreases num_samples - j,
        {
            let value: i32 = stim_data_raw.at(i, j);
            out.set(i, j, (value & mask) != 0);
            j = j + 1;
        }
        i = i + 1;
    }
    out
}

/// Unpacks the stimulation words: the current in signed steps, and the
/// compliance limit (bit 15), charge recovery (bit 14) and amplifier settle
/// (bit 13) flags.
pub fn extract_stim_data(stim_data_raw: &IntArray2) -> (out: (
    IntArray2,
    BoolArray2,
    BoolArray2,
    BoolArray2,
))
    requires
        shape_fits(stim_data_raw@.len() as int, stim_data_raw.spec_ncols() as int),
    ensures
        out.0.spec_ncols() == stim_data_raw.spec_ncols(),
        out.1.spec_ncols() == stim_data_raw.spec_ncols(),
        out.2.spec_ncols() == stim_data_raw.spec_ncols(),
        out.3.spec_ncols() == stim_data_raw.spec_ncols(),
        is_rect(out.0@, out.0.spec_ncols()),
        is_rect(out.1@, out.1.spec_ncols()),
        is_rect(out.2@, out.2.spec_ncols()),
        is_rect(out.3@, out.3.spec_ncols()),
        is_stim_steps(out.0@, stim_data_raw@),
        is_flag(out.1@, stim_data_raw@, 32768),
        is_flag(out.2@, stim_data_raw@, 16384),
        is_flag(out.3@, stim_data_raw@, 8192),
{
    let shape = stim_data_raw.dim();
    let num_channels: usize = shape.0;
    let num_samples: usize = shape.1;

    let mut stim_data = IntArray2::zeros(num_channels, num_samples);
    let compliance_limit_data = extract_flag(stim_data_raw, 32768);
    let charge_recovery_data = extract_flag(stim_data_raw, 16384);
    let amp_settle_data = extract_flag(stim_data_raw, 8192);

    let mut i: usize = 0;
    while i < num_channels
        invariant
            i <= num_channels,
            num_channels == stim_data_raw@.len(),
            num_samples == stim_data_raw.spec_ncols(),
            is_rect(stim_data_raw@, num_samples as nat),
            stim_data@.len() == num_channels,
            stim_data.spec_ncols() == num_samples,
            is_rect(stim_data@, num_samples as nat),
            forall|c: int, s: int|
                0 <= c < i && 0 <= s < num_samples ==> #[trigger] stim_data@[c][s]
                    == stim_steps_of(stim_data_raw@[c][s]),
        decreases num_channels - i,
    {
        let mut j: usize = 0;
        while j < num_samples
            invariant
                j <= num_samples,
                i < num_channels,
                num_channels == stim_data_raw@.len(),
                num_samples == stim_data_raw.spec_ncols(),
                is_rect(stim_data_raw@, num_samples as nat),
                stim_data@.len() == num_channels,
                stim_data.spec_ncols() == num_samples,
                is_rect(stim_data@, num_samples as nat),
                forall|c: int, s: int|
                    (0 <= c < i && 0 <= s < num_samples) || (c == i && 0 <= s < j)
                        ==> #[trigger] stim_data@[c][s] == stim_steps_of(stim_data_raw@[c][s]),
            decreases num_samples - j,
        {
            let value: i32 = stim_data_raw.at(i, j);

            // Bit 8: polarity; the low eight bits: the amplitude
            let curr_amp: i32 = value & 255;
            assert(0 <= (value & 255i32) <= 255) by (bit_vector);
            let steps: i32 = if (value & 256) == 0 {
                curr_amp
            } else {
                -curr_amp
            };
            stim_data.set(i, j, steps);
            j = j + 1;
        }
        i = i + 1;
    }
    (stim_data, compliance_limit_data, charge_recovery_data, amp_settle_data)
}

// ---------------------------------------------------------------------------
// Digital lines
// ---------------------------------------------------------------------------

/// The state of the digital line at bit `native_order` of a shared word: 1 if
/// the bit is set and 0 if it is not. A position outside the sixteen bits of
/// the word reads as 0.
pub open spec fn digital_bit_of(word: i32, native_order: i32) -> i32 {
    if 0 <= native_order < 16 && (word & (1i32 << native_order)) != 0 {
        1
    } else {
        0
    }
}

/// The native orders of a list of channels, in order.
pub open spec fn native_orders(channels: Seq<ChannelInfoView>) -> Seq<i32> {
    Seq::new(channels.len(), |i: int| channels[i].native_order)
}

/// Whether `out` has one row of `num_samples` elements per channel, holding
/// the line of that channel for each shared word of the first row of `raw`.
pub open spec fn is_digital_decoded(
    out: Seq<Seq<i32>>,
    raw: Seq<Seq<i32>>,
    orders: Seq<i32>,
    num_samples: int,
) -> bool {
    &&& out.len() == orders.len()
    &&& forall|i: int| 0 <= i < out.len() ==> (#[trigger] out[i]).len() == num_samples
    &&& forall|i: int, j: int|
        0 <= i < out.len() && 0 <= j < num_samples ==> #[trigger] out[i][j] == digital_bit_of(
            raw[0][j],
            orders[i],
        )
}

/// Unpacks the shared digital words into one row per channel: the line of a
/// channel is the bit of the word at the channel's native order.
pub fn extract_digital_data(digital_data_raw: &IntArray2, channels: &[ChannelInfo]) -> (r: Result<
    IntArray2,
    IntanError,
>)
    requires
        digital_data_raw@.len() >= 1,
        shape_fits(channels@.len() as int, digital_data_raw.spec_ncols() as int),
    ensures
        r matches Ok(out) && out.spec_ncols() == digital_data_raw.spec_ncols() && is_rect(
            out@,
            out.spec_ncols(),
        ) && is_digital_decoded(
            out@,
            digital_data_raw@,
            native_orders(channel_views(channels@)),
            digital_data_raw.spec_ncols() as int,
        ),
{
    let shape = digital_data_raw.dim();
    let num_channels: usize = channels.len();
    let num_samples: usize = shape.1;

    let mut digital_data = IntArray2::zeros(num_channels, num_samples);

    let mut i: usize = 0;
    while i < num_channels
        invariant
            i <= num_channels,
            num_channels == channels@.len(),
            digital_data_raw@.len() >= 1,
            num_samples == digital_data_raw.spec_ncols(),
            is_rect(digital_data_raw@, num_samples as nat),
            digital_data@.len() == num_channels,
            digital_data.spec_ncols() == num_samples,
            is_rect(digital_data@, num_samples as nat),
            forall|c: int, s: int|
                0 <= c < i && 0 <= s < num_samples ==> #[trigger] digital_data@[c][s]
                    == digital_bit_of(digital_data_raw@[0][s], channels@[c].native_order),
        decreases num_channels - i,
    {
        let native_order: i32 = channels[i].native_order;
        let mut j: usize = 0;
        while j < num_samples
            invariant
                j <= num_samples,
                i < num_channels,
                num_channels == channels@.len(),
                native_order == channels@[i as int].native_order,
                digital_data_raw@.len() >= 1,
                num_samples == digital_data_raw.spec_ncols(),
                is_rect(digital_data_raw@, num_samples as nat),
                digital_data@.len() == num_channels,
                digital_data.spec_ncols() == num_samples,
                is_rect(digital_data@, num_samples as nat),
                forall|c: int, s: int|
                    (0 <= c < i && 0 <= s < num_samples) || (c == i && 0 <= s < j)
                        ==> #[trigger] digital_data@[c][s] == digital_bit_of(
                        digital_data_raw@[0][s],
                        channels@[c].native_order,
                    ),
            decreases num_samples - j,
        {
            let word: i32 = digital_data_raw.at(0, j);
            let bit: i32 = if 0 <= native_order && native_order < 16 {
                let mask: i32 = 1i32 << native_order;
                if (word & mask) != 0 {
                    1
                } else {
                    0
                }
            } else {
                0
            };
            digital_data.set(i, j, bit);
            j = j + 1;
        }
        i = i + 1;
    }
    Ok(digital_data)
}

// ---------------------------------------------------------------------------
// Timestamps and the notch filter
// ---------------------------------------------------------------------------

/// The number of places among the first `upto` where a timestamp is not
/// followed by its successor.
pub open spec fn gap_count(timestamps: Seq<i32>, upto: int) -> int
    decreases upto,
{
    if upto <= 0 {
        0
    } else {
        gap_count(timestamps, upto - 1) + (if timestamps[upto] - timestamps[upto - 1] != 1 {
            1int
        } else {
            0int
        })
    }
}

/// Counts the gaps in the timestamps: the places where a timestamp is not
/// followed by its successor. With a gap the time scale is not uniform.
pub fn check_timestamps(timestamps: &IntArray1) -> (num_gaps: usize)
    ensures
        num_gaps == gap_count(timestamps@, timestamps@.len() - 1),
{
    let n: usize = timestamps.len();
    let mut num_gaps: usize = 0;
    let mut i: usize = 1;
    while i < n
        invariant
            1 <= i,
            n == timestamps@.len(),
            n >= 1 ==> i <= n,
            n == 0 ==> i == 1,
            num_gaps <= i - 1,
            num_gaps == gap_count(timestamps@, i - 1),
        decreases n - i,
    {
        let previous: i64 = timestamps.at(i - 1) as i64;
        let current: i64 = timestamps.at(i) as i64;
        if current - previous != 1 {
            num_gaps = num_gaps + 1;
        }
        i = i + 1;
    }
    assert(n == 0 ==> gap_count(timestamps@, -1) == gap_count(timestamps@, 0));
    num_gaps
}

/// The frequency, in Hz, of the notch filter that still has to be applied to
/// the amplifier signal of a file with this header, if any: the configured
/// frequency for a file of format version 1 or 2, and none for a later
/// version, whose signal was filtered before it was saved.
pub open spec fn notch_to_apply(notch_filter_frequency: Option<i32>, major: i32) -> Option<i32> {
    if major >= 3 {
        None
    } else {
        notch_filter_frequency
    }
}

/// Decides whether a notch filter has to be applied to the amplifier signal,
/// and at which frequency.
pub fn apply_notch_filter(header: &RhsHeader) -> (frequency: Option<i32>)
    ensures
        frequency == notch_to_apply(header.notch_filter_frequency, header.version.major),
{
    // Without a configured notch filter there is nothing to apply.
    if header.notch_filter_frequency.is_none() {
        return None;
    }
    // From version 3.0 on, an active notch filter was applied before saving.
    if header.version.major >= 3 {
        return None;
    }
    header.notch_filter_frequency
}

// ---------------------------------------------------------------------------
// The whole recording
// ---------------------------------------------------------------------------

/// Whether an optional output is the scaled form of an optional raw matrix:
/// there if and only if the raw matrix is, and then scaled with `offset` and
/// `factor`.
pub open spec fn is_scaled_if_present(
    out: Option<Seq<Seq<i32>>>,
    raw: Option<Seq<Seq<i32>>>,
    offset: int,
    factor: int,
) -> bool {
    match (out, raw) {
        (Some(o), Some(r)) => is_scaled(o, r, offset, factor),
        (None, None) => true,
        _ => false,
    }
}

/// Whether an optional matrix of flags marks the bits of `mask` in an
/// optional matrix of stimulation words.
pub open spec fn is_flag_if_present(
    out: Option<Seq<Seq<bool>>>,
    raw: Option<Seq<Seq<i32>>>,
    mask: i32,
) -> bool {
    match (out, raw) {
        (Some(o), Some(r)) => is_flag(o, r, mask),
        (None, None) => true,
        _ => false,
    }
}

/// Whether an optional matrix holds the stimulation steps of an optional
/// matrix of stimulation words.
pub open spec fn is_stim_steps_if_present(
    out: Option<Seq<Seq<i32>>>,
    raw: Option<Seq<Seq<i32>>>,
) -> bool {
    match (out, raw) {
        (Some(o), Some(r)) => is_stim_steps(o, r),
        (None, None) => true,
        _ => false,
    }
}

/// Whether an optional matrix holds the digital lines of the channels with
/// these native orders, unpacked from an optional matrix of shared words.
pub open spec fn is_digital_decoded_if_present(
    out: Option<Seq<Seq<i32>>>,
    raw: Option<Seq<Seq<i32>>>,
    orders: Seq<i32>,
    num_samples: int,
) -> bool {
    match (out, raw) {
        (Some(o), Some(r)) => is_digital_decoded(o, r, orders, num_samples),
        (None, None) => true,
        _ => false,
    }
}

/// What processing makes of raw data: the timestamps as they are, every
/// analog kind scaled, the stimulation words unpacked into steps and flags,
/// and the digital words unpacked into one row per channel.
pub open spec fn is_processed(data: RhsDataView, raw: RawDataView, header: RhsHeaderView) -> bool {
    let n = raw.timestamps.len() as int;
    &&& data.timestamps == raw.timestamps
    &&& is_scaled_if_present(data.amplifier_data, raw.amplifier_data_raw, 32768, 195)
    &&& is_scaled_if_present(data.dc_amplifier_data, raw.dc_amplifier_data_raw, 512, 1923)
    &&& is_stim_steps_if_present(data.stim_data, raw.stim_data_raw)
    &&& is_flag_if_present(data.compliance_limit_data, raw.stim_data_raw, 32768)
    &&& is_flag_if_present(data.charge_recovery_data, raw.stim_data_raw, 16384)
    &&& is_flag_if_present(data.amp_settle_data, raw.stim_data_raw, 8192)
    &&& is_scaled_if_present(data.board_adc_data, raw.board_adc_data_raw, 32768, 3125)
    &&& is_scaled_if_present(data.board_dac_data, raw.board_dac_data_raw, 32768, 3125)
    &&& is_digital_decoded_if_present(
        data.board_dig_in_data,
        raw.board_dig_in_raw,
        native_orders(header.board_dig_in_channels),
        n,
    )
    &&& is_digital_decoded_if_present(
        data.board_dig_out_data,
        raw.board_dig_out_raw,
        native_orders(header.board_dig_out_channels),
        n,
    )
}

/// Turns the raw data of a recording into signals.
pub fn process_data(header: &RhsHeader, raw_data: RawData) -> (r: Result<RhsData, IntanError>)
    requires
        raw_data.wf(header@),
    ensures
        r matches Ok(data) && data.wf() && is_processed(data@, raw_data@, header@),
{
    let ghost raw = raw_data@;
    assert(header@.board_dig_in_channels.len() == header.board_dig_in_channels@.len());
    assert(header@.board_dig_out_channels.len() == header.board_dig_out_channels@.len());
    let RawData {
        timestamps,
        amplifier_data_raw,
        dc_amplifier_data_raw,
        stim_data_raw,
        board_adc_data_raw,
        board_dac_data_raw,
        board_dig_in_raw,
        board_dig_out_raw,
    } = raw_data;

    let mut data = RhsData {
        timestamps,
        amplifier_data: None,
        dc_amplifier_data: None,
        stim_data: None,
        compliance_limit_data: None,
        charge_recovery_data: None,
        amp_settle_data: None,
        board_adc_data: None,
        board_dac_data: None,
        board_dig_in_data: None,
        board_dig_out_data: None,
    };

    // Process amplifier data
    if let Some(amp_data_raw) = amplifier_data_raw {
        data.amplifier_data = Some(scale_amplifier_data(&amp_data_raw));
    }

    // Process DC amplifier data
    if let Some(dc_amp_data_raw) = dc_amplifier_data_raw {
        data.dc_amplifier_data = Some(scale_dc_amplifier_data(&dc_amp_data_raw));
    }

    // Process stimulation data
    if let Some(stim_raw) = stim_data_raw {
        let (stim_data, compliance_limit_data, charge_recovery_data, amp_settle_data) =
            extract_stim_data(&stim_raw);
        data.stim_data = Some(stim_data);
        data.compliance_limit_data = Some(compliance_limit_data);
        data.charge_recovery_data = Some(charge_recovery_data);
        data.amp_settle_data = Some(amp_settle_data);
    }

    // Process board ADC data
    if let Some(adc_data_raw) = board_adc_data_raw {
        data.board_adc_data = Some(scale_adc_data(&adc_data_raw));
    }

    // Process board DAC data
    if let Some(dac_data_raw) = board_dac_data_raw {
        data.board_dac_data = Some(scale_dac_data(&dac_data_raw));
    }

    // Process digital input data
    if let Some(dig_in_raw) = board_dig_in_raw {
        data.board_dig_in_data = Some(
            extract_digital_data(&dig_in_raw, header.board_dig_in_channels.as_slice())?,
        );
    }

    // Process digital output data
    if let Some(dig_out_raw) = board_dig_out_raw {
        data.board_dig_out_data = Some(
            extract_digital_data(&dig_out_raw, header.board_dig_out_channels.as_slice())?,
        );
    }
    Ok(data)
}

} // verus!
