//! Decoding of the data blocks into raw matrices.
//!
//! Each block holds 128 timestamps, then, for each kind of analog signal that
//! is present, 128 samples of all its channels, the channels of one sample
//! side by side, and then one shared word per sample for the digital inputs
//! and one for the digital outputs. The decoder turns this into one matrix per
//! kind, with a row per channel and a column per sample.

use crate::arrays::{is_rect, shape_fits, shape_fits_exec, IntArray1, IntArray2};
use crate::layout::{
    bytes_per_block, bytes_per_signal_type, lemma_bytes_per_block_positive, shared_word_bytes,
};
use crate::types::{
    int_rows, IntanError, IoErrorKind, RhsHeader, RhsHeaderView, SAMPLES_PER_DATA_BLOCK,
};
use crate::wire::{has_bytes, i16_at, i32_at, le_i16, le_i32, le_u16, u16_at, ByteReader};
use vstd::prelude::*;

verus! {

/// The raw matrices of a recording, as decoded from the blocks.
///
/// Analog samples are the 16-bit words of the file read as signed integers.
/// Every row of a digital matrix holds the shared word of each sample.
#[derive(Debug)]
pub struct RawData {
    /// Sample counter of each sample
    pub timestamps: IntArray1,
    /// Amplifier channels
    pub amplifier_data_raw: Option<IntArray2>,
    /// DC amplifier channels
    pub dc_amplifier_data_raw: Option<IntArray2>,
    /// Stimulation words
    pub stim_data_raw: Option<IntArray2>,
    /// Board ADC channels
    pub board_adc_data_raw: Option<IntArray2>,
    /// Board DAC channels
    pub board_dac_data_raw: Option<IntArray2>,
    /// Shared digital input words
    pub board_dig_in_raw: Option<IntArray2>,
    /// Shared digital output words
    pub board_dig_out_raw: Option<IntArray2>,
}

/// Specification view of `RawData`.
pub struct RawDataView {
    pub timestamps: Seq<i32>,
    pub amplifier_data_raw: Option<Seq<Seq<i32>>>,
    pub dc_amplifier_data_raw: Option<Seq<Seq<i32>>>,
    pub stim_data_raw: Option<Seq<Seq<i32>>>,
    pub board_adc_data_raw: Option<Seq<Seq<i32>>>,
    pub board_dac_data_raw: Option<Seq<Seq<i32>>>,
    pub board_dig_in_raw: Option<Seq<Seq<i32>>>,
    pub board_dig_out_raw: Option<Seq<Seq<i32>>>,
}

impl View for RawData {
    type V = RawDataView;

    open spec fn view(&self) -> RawDataView {
        RawDataView {
            timestamps: self.timestamps@,
            amplifier_data_raw: int_rows(self.amplifier_data_raw),
            dc_amplifier_data_raw: int_rows(self.dc_amplifier_data_raw),
            stim_data_raw: int_rows(self.stim_data_raw),
            board_adc_data_raw: int_rows(self.board_adc_data_raw),
            board_dac_data_raw: int_rows(self.board_dac_data_raw),
            board_dig_in_raw: int_rows(self.board_dig_in_raw),
            board_dig_out_raw: int_rows(self.board_dig_out_raw),
        }
    }
}

// ---------------------------------------------------------------------------
// One kind of signal in one block
// ---------------------------------------------------------------------------

/// `after` is `before` with the `count` timestamps stored at `pos` written
/// from index `start` on.
pub open spec fn timestamps_filled(
    after: Seq<i32>,
    before: Seq<i32>,
    bytes: Seq<u8>,
    pos: int,
    start: int,
    count: int,
) -> bool {
    &&& after.len() == before.len()
    &&& forall|s: int|
        0 <= s < after.len() ==> #[trigger] after[s] == (if start <= s < start + count {
            le_i32(bytes, pos + 4 * (s - start)) as i32
        } else {
            before[s]
        })
}

/// Reads `num_samples` timestamps into `timestamps` from index `index` on.
pub fn read_timestamps(
    reader: &mut ByteReader,
    timestamps: &mut IntArray1,
    index: usize,
    num_samples: usize,
) -> (r: Result<(), IntanError>)
    requires
        index + num_samples <= old(timestamps)@.len(),
    ensures
        final(reader).bytes@ == old(reader).bytes@,
        match r {
            Ok(_) => {
                &&& old(reader).can_read(4 * num_samples)
                &&& final(reader).pos == old(reader).pos + 4 * num_samples
                &&& timestamps_filled(
                    final(timestamps)@,
                    old(timestamps)@,
                    old(reader).bytes@,
                    old(reader).pos as int,
                    index as int,
                    num_samples as int,
                )
            },
            Err(e) => !old(reader).can_read(4 * num_samples) && e == IntanError::IoError(
                IoErrorKind::UnexpectedEof,
            ) && final(timestamps)@ == old(timestamps)@ && *final(reader) == *old(reader),
        },
{
    let capacity: usize = timestamps.len();
    // More timestamps than the whole stream could hold cannot be read.
    let stream_len: usize = reader.bytes.len();
    if num_samples > stream_len / 4 {
        return Err(IntanError::IoError(IoErrorKind::UnexpectedEof));
    }
    assert(num_samples * 1 * 4 == 4 * num_samples) by (nonlinear_arith);
    let needed: usize = bytes_per_signal_type(num_samples, 1, 4);
    let base: usize = reader.take(needed)?;
    let ghost bytes = reader.bytes@;

    let mut i: usize = 0;
    while i < num_samples
        invariant
            i <= num_samples,
            index + num_samples <= timestamps@.len(),
            timestamps@.len() == capacity,
            reader.bytes@ == bytes,
            num_samples > 0 ==> has_bytes(bytes, base as int, 4 * num_samples),
            bytes.len() <= usize::MAX,
            timestamps_filled(
                timestamps@,
                old(timestamps)@,
                bytes,
                base as int,
                index as int,
                i as int,
            ),
        decreases num_samples - i,
    {
        let ts: i32 = i32_at(reader.bytes, base + i * 4);
        timestamps.set(index + i, ts);
        i = i + 1;
    }
    Ok(())
}

/// `after` is `before` with `count` samples of `channels` channels, stored
/// at `pos` sample by sample, written to the first `channels` rows from
/// column `start` on.
pub open spec fn analog_filled(
    after: Seq<Seq<i32>>,
    before: Seq<Seq<i32>>,
    bytes: Seq<u8>,
    pos: int,
    start: int,
    count: int,
    channels: int,
) -> bool {
    &&& after.len() == before.len()
    &&& forall|ch: int| 0 <= ch < after.len() ==> (#[trigger] after[ch]).len() == before[ch].len()
    &&& forall|ch: int, s: int|
        0 <= ch < after.len() && 0 <= s < after[ch].len() ==> #[trigger] after[ch][s] == (if ch
            < channels && start <= s < start + count {
            le_i16(bytes, pos + 2 * ((s - start) * channels + ch)) as i32
        } else {
            before[ch][s]
        })
}

/// Reads `num_samples` samples of `num_channels` interleaved channels into
/// the first rows of `dest`, from column `start` on.
pub fn read_analog_signal_type(
    reader: &mut ByteReader,
    dest: &mut IntArray2,
    start: usize,
    num_samples: usize,
    num_channels: usize,
) -> (r: Result<(), IntanError>)
    requires
        num_channels <= old(dest)@.len(),
        start + num_samples <= old(dest).spec_ncols(),
    ensures
        final(reader).bytes@ == old(reader).bytes@,
        final(dest).spec_ncols() == old(dest).spec_ncols(),
        match r {
            Ok(_) => {
                &&& old(reader).can_read(2 * num_samples * num_channels)
                &&& final(reader).pos == old(reader).pos + 2 * num_samples * num_channels
                &&& analog_filled(
                    final(dest)@,
                    old(dest)@,
                    old(reader).bytes@,
                    old(reader).pos as int,
                    start as int,
                    num_samples as int,
                    num_channels as int,
                )
            },
            Err(e) => !old(reader).can_read(2 * num_samples * num_channels) && e
                == IntanError::IoError(IoErrorKind::UnexpectedEof) && final(dest)@ == old(dest)@
                && *final(reader) == *old(reader),
        },
{
    let width: usize = dest.dim().1;
    let ghost total = 2 * num_samples * num_channels;
    if num_channels < 1 {
        assert(2 * num_samples * 0 == 0) by (nonlinear_arith);
        return Ok(());
    }
    // More samples than the whole stream could hold cannot be read.
    let stream_len: usize = reader.bytes.len();
    let most: usize = (stream_len / 2) / num_channels;
    if num_samples > most {
        assert(total > stream_len) by (nonlinear_arith)
            requires
                total == 2 * num_samples * num_channels,
                num_samples >= most + 1,
                most == (stream_len / 2) / num_channels,
                num_channels >= 1,
        ;
        return Err(IntanError::IoError(IoErrorKind::UnexpectedEof));
    }
    assert(num_samples * num_channels * 2 <= stream_len && num_samples * num_channels * 2 == total)
        by (nonlinear_arith)
        requires
            num_samples <= most,
            most == (stream_len / 2) / num_channels,
            num_channels >= 1,
            total == 2 * num_samples * num_channels,
    ;
    let needed: usize = bytes_per_signal_type(num_samples, num_channels, 2);
    let base: usize = reader.take(needed)?;
    let ghost bytes = reader.bytes@;

    let mut ch: usize = 0;
    while ch < num_channels
        invariant
            ch <= num_channels,
            num_channels <= dest@.len(),
            start + num_samples <= width,
            dest.spec_ncols() == width,
            is_rect(dest@, width as nat),
            is_rect(old(dest)@, width as nat),
            dest@.len() == old(dest)@.len(),
            reader.bytes@ == bytes,
            bytes.len() <= usize::MAX,
            needed == 2 * num_samples * num_channels,
            needed > 0 ==> has_bytes(bytes, base as int, needed as int),
            forall|c: int, t: int|
                0 <= c < dest@.len() && 0 <= t < width ==> #[trigger] dest@[c][t] == (if c < ch
                    && start <= t < start + num_samples {
                    le_i16(bytes, base + 2 * ((t - start) * num_channels + c)) as i32
                } else {
                    old(dest)@[c][t]
                }),
        decreases num_channels - ch,
    {
        let mut s: usize = 0;
        while s < num_samples
            invariant
                s <= num_samples,
                ch < num_channels,
                num_channels <= dest@.len(),
                start + num_samples <= width,
                dest.spec_ncols() == width,
                is_rect(dest@, width as nat),
                is_rect(old(dest)@, width as nat),
                dest@.len() == old(dest)@.len(),
                reader.bytes@ == bytes,
                bytes.len() <= usize::MAX,
                needed == 2 * num_samples * num_channels,
                needed > 0 ==> has_bytes(bytes, base as int, needed as int),
                forall|c: int, t: int|
                    0 <= c < dest@.len() && 0 <= t < width ==> #[trigger] dest@[c][t] == (if (c
                        < ch && start <= t < start + num_samples) || (c == ch && start <= t
                        < start + s) {
                        le_i16(bytes, base + 2 * ((t - start) * num_channels + c)) as i32
                    } else {
                        old(dest)@[c][t]
                    }),
            decreases num_samples - s,
        {
            assert(2 * (s * num_channels + ch) + 2 <= needed && s * num_channels >= 0)
                by (nonlinear_arith)
                requires
                    s < num_samples,
                    ch < num_channels,
                    needed == 2 * num_samples * num_channels,
            ;
            let idx: usize = 2 * (s * num_channels + ch);
            let sample: i32 = i16_at(reader.bytes, base + idx) as i32;
            dest.set(ch, start + s, sample);
            s = s + 1;
        }
        ch = ch + 1;
    }
    Ok(())
}

/// `after` is `before` with the `count` shared words stored at `pos`
/// written to every row from column `start` on.
pub open spec fn digital_filled(
    after: Seq<Seq<i32>>,
    before: Seq<Seq<i32>>,
    bytes: Seq<u8>,
    pos: int,
    start: int,
    count: int,
) -> bool {
    &&& after.len() == before.len()
    &&& forall|ch: int| 0 <= ch < after.len() ==> (#[trigger] after[ch]).len() == before[ch].len()
    &&& forall|ch: int, s: int|
        0 <= ch < after.len() && 0 <= s < after[ch].len() ==> #[trigger] after[ch][s] == (if start
            <= s < start + count {
            le_u16(bytes, pos + 2 * (s - start)) as i32
        } else {
            before[ch][s]
        })
}

/// Reads `num_samples` shared digital words and writes each to every row of
/// `dest`, from column `start` on. Without a matrix, or with one that has no
/// row, nothing is read.
pub fn read_digital_signal_type(
    reader: &mut ByteReader,
    dest: &mut Option<IntArray2>,
    start: usize,
    num_samples: usize,
) -> (r: Result<(), IntanError>)
    requires
        *old(dest) matches Some(a) ==> start + num_samples <= a.spec_ncols(),
    ensures
        final(reader).bytes@ == old(reader).bytes@,
        match *old(dest) {
            Some(before) => *final(dest) matches Some(after) && after.spec_ncols()
                == before.spec_ncols() && (if before@.len() >= 1 {
                match r {
                    Ok(_) => {
                        &&& old(reader).can_read(2 * num_samples)
                        &&& final(reader).pos == old(reader).pos + 2 * num_samples
                        &&& digital_filled(
                            after@,
                            before@,
                            old(reader).bytes@,
                            old(reader).pos as int,
                            start as int,
                            num_samples as int,
                        )
                    },
                    Err(e) => !old(reader).can_read(2 * num_samples) && e == IntanError::IoError(
                        IoErrorKind::UnexpectedEof,
                    ) && after@ == before@ && *final(reader) == *old(reader),
                }
            } else {
                r is Ok && after@ == before@ && *final(reader) == *old(reader)
            }),
            None => r is Ok && *final(dest) is None && *final(reader) == *old(reader),
        },
{
    match dest {
        Some(dest_array) => {
            let (num_channels, width): (usize, usize) = dest_array.dim();
            let ghost before = dest_array@;
            if num_channels < 1 {
                return Ok(());
            }
            // More words than the whole stream could hold cannot be read.
            let stream_len: usize = reader.bytes.len();
            if num_samples > stream_len / 2 {
                return Err(IntanError::IoError(IoErrorKind::UnexpectedEof));
            }
            assert(num_samples * 1 * 2 == 2 * num_samples) by (nonlinear_arith);
            let needed: usize = bytes_per_signal_type(num_samples, 1, 2);
            let base: usize = reader.take(needed)?;
            let ghost bytes = reader.bytes@;

            let mut s: usize = 0;
            while s < num_samples
                invariant
                    s <= num_samples,
                    num_channels == dest_array@.len(),
                    start + num_samples <= width,
                    dest_array.spec_ncols() == width,
                    is_rect(dest_array@, width as nat),
                    is_rect(before, width as nat),
                    dest_array@.len() == before.len(),
                    reader.bytes@ == bytes,
                    bytes.len() <= usize::MAX,
                    needed == 2 * num_samples,
                    needed > 0 ==> has_bytes(bytes, base as int, needed as int),
                    forall|c: int, t: int|
                        0 <= c < dest_array@.len() && 0 <= t < width ==> #[trigger] dest_array@[c][t]
                            == (if start <= t < start + s {
                            le_u16(bytes, base + 2 * (t - start)) as i32
                        } else {
                            before[c][t]
                        }),
                decreases num_samples - s,
            {
                let value: i32 = u16_at(reader.bytes, base + s * 2) as i32;
                let mut ch: usize = 0;
                while ch < num_channels
                    invariant
                        s < num_samples,
                        ch <= num_channels,
                        num_channels == dest_array@.len(),
                        start + num_samples <= width,
                        dest_array.spec_ncols() == width,
                        is_rect(dest_array@, width as nat),
                        is_rect(before, width as nat),
                        dest_array@.len() == before.len(),
                        value == le_u16(bytes, base + 2 * s) as i32,
                        forall|c: int, t: int|
                            0 <= c < dest_array@.len() && 0 <= t < width
                                ==> #[trigger] dest_array@[c][t] == (if start <= t < start + s || (t
                                == start + s && c < ch) {
                                le_u16(bytes, base + 2 * (t - start)) as i32
                            } else {
                                before[c][t]
                            }),
                    decreases num_channels - ch,
                {
                    dest_array.set(ch, start + s, value);
                    ch = ch + 1;
                }
                s = s + 1;
            }
            Ok(())
        },
        None => Ok(()),
    }
}

// ---------------------------------------------------------------------------
// Where each sample lies in the stream
// ---------------------------------------------------------------------------

/// The offset of the DC amplifier samples within a block.
pub open spec fn dc_amplifier_offset(header: RhsHeaderView) -> int {
    512 + 256 * (header.amplifier_channels.len() as int)
}

/// The offset of the stimulation words within a block.
pub open spec fn stim_offset(header: RhsHeaderView) -> int {
    if header.dc_amplifier_data_saved {
        512 + 512 * (header.amplifier_channels.len() as int)
    } else {
        512 + 256 * (header.amplifier_channels.len() as int)
    }
}

/// The offset of the board ADC samples within a block.
pub open spec fn adc_offset(header: RhsHeaderView) -> int {
    stim_offset(header) + 256 * header.amplifier_channels.len()
}

/// The offset of the board DAC samples within a block.
pub open spec fn dac_offset(header: RhsHeaderView) -> int {
    adc_offset(header) + 256 * header.board_adc_channels.len()
}

/// The offset of the shared digital input words within a block.
pub open spec fn dig_in_offset(header: RhsHeaderView) -> int {
    dac_offset(header) + 256 * header.board_dac_channels.len()
}

/// The offset of the shared digital output words within a block.
pub open spec fn dig_out_offset(header: RhsHeaderView) -> int {
    dig_in_offset(header) + shared_word_bytes(header.board_dig_in_channels.len() as int)
}

/// A block ends where its last kind of signal ends.
pub proof fn lemma_block_is_sum_of_kinds(header: RhsHeaderView)
    ensures
        bytes_per_block(header) == dig_out_offset(header) + shared_word_bytes(
            header.board_dig_out_channels.len() as int,
        ),
{
    let a = header.amplifier_channels.len() as int;
    assert(128 * 2 * a * 3 == 768 * a) by (nonlinear_arith);
    assert(128 * 2 * a * 2 == 512 * a) by (nonlinear_arith);
}

/// Where the block of sample number `sample` starts, if the first block
/// starts at `data_start` and a block has `block_bytes` bytes.
pub open spec fn block_base(data_start: int, block_bytes: int, sample: int) -> int {
    data_start + (sample / 128) * block_bytes
}

/// The timestamp of sample number `sample`.
pub open spec fn timestamp_at(bytes: Seq<u8>, data_start: int, block_bytes: int, sample: int)
    -> i32 {
    le_i32(bytes, block_base(data_start, block_bytes, sample) + 4 * (sample % 128)) as i32
}

/// The raw value of sample number `sample` of channel `channel`, for a kind
/// of signal with `channels` channels whose samples start `offset` bytes into
/// each block.
pub open spec fn analog_at(
    bytes: Seq<u8>,
    data_start: int,
    block_bytes: int,
    offset: int,
    channels: int,
    channel: int,
    sample: int,
) -> i32 {
    le_i16(
        bytes,
        block_base(data_start, block_bytes, sample) + offset + 2 * ((sample % 128) * channels
            + channel),
    ) as i32
}

/// The shared digital word of sample number `sample`, for words that start
/// `offset` bytes into each block.
pub open spec fn shared_word_at(
    bytes: Seq<u8>,
    data_start: int,
    block_bytes: int,
    offset: int,
    sample: int,
) -> i32 {
    le_u16(bytes, block_base(data_start, block_bytes, sample) + offset + 2 * (sample % 128)) as i32
}

/// The first `upto` timestamps are those of the stream.
#[verifier::opaque]
pub open spec fn timestamps_decoded(
    timestamps: Seq<i32>,
    bytes: Seq<u8>,
    data_start: int,
    block_bytes: int,
    upto: int,
) -> bool {
    forall|s: int|
        0 <= s < upto && s < timestamps.len() ==> #[trigger] timestamps[s] == timestamp_at(
            bytes,
            data_start,
            block_bytes,
            s,
        )
}

/// The first `upto` columns of an analog matrix are the samples of the
/// stream.
#[verifier::opaque]
pub open spec fn analog_decoded(
    rows: Seq<Seq<i32>>,
    bytes: Seq<u8>,
    data_start: int,
    block_bytes: int,
    offset: int,
    upto: int,
) -> bool {
    forall|ch: int, s: int|
        0 <= ch < rows.len() && 0 <= s < upto && s < rows[ch].len() ==> #[trigger] rows[ch][s]
            == analog_at(bytes, data_start, block_bytes, offset, rows.len() as int, ch, s)
}

/// The first `upto` columns of a digital matrix hold in every row the shared
/// words of the stream.
#[verifier::opaque]
pub open spec fn digital_decoded(
    rows: Seq<Seq<i32>>,
    bytes: Seq<u8>,
    data_start: int,
    block_bytes: int,
    offset: int,
    upto: int,
) -> bool {
    forall|ch: int, s: int|
        0 <= ch < rows.len() && 0 <= s < upto && s < rows[ch].len() ==> #[trigger] rows[ch][s]
            == shared_word_at(bytes, data_start, block_bytes, offset, s)
}

/// `analog_decoded` of a matrix that may be absent.
pub open spec fn analog_decoded_if_present(
    matrix: Option<Seq<Seq<i32>>>,
    bytes: Seq<u8>,
    data_start: int,
    block_bytes: int,
    offset: int,
    upto: int,
) -> bool {
    matrix matches Some(rows) ==> analog_decoded(rows, bytes, data_start, block_bytes, offset, upto)
}

/// `digital_decoded` of a matrix that may be absent.
pub open spec fn digital_decoded_if_present(
    matrix: Option<Seq<Seq<i32>>>,
    bytes: Seq<u8>,
    data_start: int,
    block_bytes: int,
    offset: int,
    upto: int,
) -> bool {
    matrix matches Some(rows) ==> digital_decoded(
        rows,
        bytes,
        data_start,
        block_bytes,
        offset,
        upto,
    )
}

/// Whether a matrix is there exactly if `present`, and then has `rows` rows
/// and `cols` columns.
pub open spec fn matrix_shaped(matrix: Option<IntArray2>, present: bool, rows: int, cols: int)
    -> bool {
    match matrix {
        Some(a) => present && a@.len() == rows && a.spec_ncols() == cols && is_rect(
            a@,
            cols as nat,
        ),
        None => !present,
    }
}

impl RawData {
    /// The number of samples: the length of the timestamp array.
    pub open spec fn spec_num_samples(&self) -> int {
        self.timestamps@.len() as int
    }

    /// The matrices are those that the header calls for: one per kind of
    /// signal that has a channel, with a row per channel and a column per
    /// timestamp.
    pub open spec fn shaped(&self, header: RhsHeaderView) -> bool {
        let n = self.spec_num_samples();
        let amplifiers = header.amplifier_channels.len() as int;
        let adcs = header.board_adc_channels.len() as int;
        let dacs = header.board_dac_channels.len() as int;
        let dig_ins = header.board_dig_in_channels.len() as int;
        let dig_outs = header.board_dig_out_channels.len() as int;
        &&& matrix_shaped(self.amplifier_data_raw, amplifiers > 0, amplifiers, n)
        &&& matrix_shaped(
            self.dc_amplifier_data_raw,
            amplifiers > 0 && header.dc_amplifier_data_saved,
            amplifiers,
            n,
        )
        &&& matrix_shaped(self.stim_data_raw, amplifiers > 0, amplifiers, n)
        &&& matrix_shaped(self.board_adc_data_raw, adcs > 0, adcs, n)
        &&& matrix_shaped(self.board_dac_data_raw, dacs > 0, dacs, n)
        &&& matrix_shaped(self.board_dig_in_raw, dig_ins > 0, dig_ins, n)
        &&& matrix_shaped(self.board_dig_out_raw, dig_outs > 0, dig_outs, n)
    }
}

impl RawDataView {
    /// The first `upto` samples of the five analog kinds are those of the
    /// stream whose first block starts at `data_start`.
    pub open spec fn analog_decoded(
        self,
        bytes: Seq<u8>,
        data_start: int,
        header: RhsHeaderView,
        upto: int,
    ) -> bool {
        let block = bytes_per_block(header);
        &&& analog_decoded_if_present(self.amplifier_data_raw, bytes, data_start, block, 512, upto)
        &&& analog_decoded_if_present(
            self.dc_amplifier_data_raw,
            bytes,
            data_start,
            block,
            dc_amplifier_offset(header),
            upto,
        )
        &&& analog_decoded_if_present(
            self.stim_data_raw,
            bytes,
            data_start,
            block,
            stim_offset(header),
            upto,
        )
        &&& analog_decoded_if_present(
            self.board_adc_data_raw,
            bytes,
            data_start,
            block,
            adc_offset(header),
            upto,
        )
        &&& analog_decoded_if_present(
            self.board_dac_data_raw,
            bytes,
            data_start,
            block,
            dac_offset(header),
            upto,
        )
    }

    /// The first `upto` samples of the two digital kinds are those of the
    /// stream whose first block starts at `data_start`.
    pub open spec fn digital_decoded(
        self,
        bytes: Seq<u8>,
        data_start: int,
        header: RhsHeaderView,
        upto: int,
    ) -> bool {
        let block = bytes_per_block(header);
        &&& digital_decoded_if_present(
            self.board_dig_in_raw,
            bytes,
            data_start,
            block,
            dig_in_offset(header),
            upto,
        )
        &&& digital_decoded_if_present(
            self.board_dig_out_raw,
            bytes,
            data_start,
            block,
            dig_out_offset(header),
            upto,
        )
    }

    /// The first `upto` samples of every kind, and their timestamps, are
    /// those of the stream whose first block starts at `data_start`.
    pub open spec fn decoded(
        self,
        bytes: Seq<u8>,
        data_start: int,
        header: RhsHeaderView,
        upto: int,
    ) -> bool {
        &&& timestamps_decoded(
            self.timestamps,
            bytes,
            data_start,
            bytes_per_block(header),
            upto,
        )
        &&& self.analog_decoded(bytes, data_start, header, upto)
        &&& self.digital_decoded(bytes, data_start, header, upto)
    }
}

/// Whether the rows of a matrix are there exactly if `present`, and then
/// are `rows` rows of `cols` elements each.
pub open spec fn rows_shaped(matrix: Option<Seq<Seq<i32>>>, present: bool, rows: int, cols: int)
    -> bool {
    match matrix {
        Some(r) => present && r.len() == rows && is_rect(r, cols as nat),
        None => !present,
    }
}

impl RawDataView {
    /// The matrices are those that the header calls for, for `samples`
    /// samples: one per kind of signal that has a channel, with a row per
    /// channel and a column per sample.
    pub open spec fn shaped(self, header: RhsHeaderView, samples: int) -> bool {
        let amplifiers = header.amplifier_channels.len() as int;
        let adcs = header.board_adc_channels.len() as int;
        let dacs = header.board_dac_channels.len() as int;
        let dig_ins = header.board_dig_in_channels.len() as int;
        let dig_outs = header.board_dig_out_channels.len() as int;
        &&& self.timestamps.len() == samples
        &&& rows_shaped(self.amplifier_data_raw, amplifiers > 0, amplifiers, samples)
        &&& rows_shaped(
            self.dc_amplifier_data_raw,
            amplifiers > 0 && header.dc_amplifier_data_saved,
            amplifiers,
            samples,
        )
        &&& rows_shaped(self.stim_data_raw, amplifiers > 0, amplifiers, samples)
        &&& rows_shaped(self.board_adc_data_raw, adcs > 0, adcs, samples)
        &&& rows_shaped(self.board_dac_data_raw, dacs > 0, dacs, samples)
        &&& rows_shaped(self.board_dig_in_raw, dig_ins > 0, dig_ins, samples)
        &&& rows_shaped(self.board_dig_out_raw, dig_outs > 0, dig_outs, samples)
    }
}

/// One more block of timestamps extends what has been decoded.
proof fn lemma_timestamps_extend(
    after: Seq<i32>,
    before: Seq<i32>,
    bytes: Seq<u8>,
    data_start: int,
    block_bytes: int,
    index: int,
)
    requires
        0 <= index,
        index % 128 == 0,
        timestamps_decoded(before, bytes, data_start, block_bytes, index),
        timestamps_filled(
            after,
            before,
            bytes,
            block_base(data_start, block_bytes, index),
            index,
            128,
        ),
    ensures
        timestamps_decoded(after, bytes, data_start, block_bytes, index + 128),
{
    reveal(timestamps_decoded);
    assert forall|s: int| 0 <= s < index + 128 && s < after.len() implies #[trigger] after[s]
        == timestamp_at(bytes, data_start, block_bytes, s) by {
        if s >= index {
            assert(s / 128 == index / 128 && s % 128 == s - index);
        } else {
            assert(before[s] == timestamp_at(bytes, data_start, block_bytes, s));
        }
    }
}

/// One more block of an analog kind extends what has been decoded.
proof fn lemma_analog_extend(
    after: Seq<Seq<i32>>,
    before: Seq<Seq<i32>>,
    bytes: Seq<u8>,
    data_start: int,
    block_bytes: int,
    offset: int,
    index: int,
)
    requires
        0 <= index,
        index % 128 == 0,
        analog_decoded(before, bytes, data_start, block_bytes, offset, index),
        analog_filled(
            after,
            before,
            bytes,
            block_base(data_start, block_bytes, index) + offset,
            index,
            128,
            before.len() as int,
        ),
    ensures
        analog_decoded(after, bytes, data_start, block_bytes, offset, index + 128),
{
    reveal(analog_decoded);
    let rows = after.len() as int;
    assert forall|ch: int, s: int|
        0 <= ch < rows && 0 <= s < index + 128 && s < after[ch].len() implies #[trigger] after[ch][s]
        == analog_at(bytes, data_start, block_bytes, offset, rows, ch, s) by {
        if s >= index {
            assert(s / 128 == index / 128 && s % 128 == s - index);
            assert((s % 128) * rows == (s - index) * rows) by (nonlinear_arith)
                requires
                    s % 128 == s - index,
            ;
        } else {
            assert(after[ch].len() == before[ch].len());
            assert(after[ch][s] == before[ch][s]);
        }
    }
}

/// One more block of a digital kind extends what has been decoded.
proof fn lemma_digital_extend(
    after: Seq<Seq<i32>>,
    before: Seq<Seq<i32>>,
    bytes: Seq<u8>,
    data_start: int,
    block_bytes: int,
    offset: int,
    index: int,
)
    requires
        0 <= index,
        index % 128 == 0,
        digital_decoded(before, bytes, data_start, block_bytes, offset, index),
        digital_filled(
            after,
            before,
            bytes,
            block_base(data_start, block_bytes, index) + offset,
            index,
            128,
        ),
    ensures
        digital_decoded(after, bytes, data_start, block_bytes, offset, index + 128),
{
    reveal(digital_decoded);
    let rows = after.len() as int;
    assert forall|ch: int, s: int|
        0 <= ch < rows && 0 <= s < index + 128 && s < after[ch].len() implies #[trigger] after[ch][s]
        == shared_word_at(bytes, data_start, block_bytes, offset, s) by {
        if s >= index {
            assert(s / 128 == index / 128 && s % 128 == s - index);
        } else {
            assert(after[ch].len() == before[ch].len());
            assert(after[ch][s] == before[ch][s]);
        }
    }
}

/// A write that keeps the length of every row keeps the shape.
proof fn lemma_filled_keeps_shape(
    after: IntArray2,
    before: IntArray2,
    present: bool,
    rows: int,
    cols: int,
)
    requires
        matrix_shaped(Some(before), present, rows, cols),
        after.spec_ncols() == before.spec_ncols(),
        after@.len() == before@.len(),
        forall|ch: int| 0 <= ch < after@.len() ==> (#[trigger] after@[ch]).len() == before@[ch].len(),
    ensures
        matrix_shaped(Some(after), present, rows, cols),
{
}

// ---------------------------------------------------------------------------
// What a block leaves alone
// ---------------------------------------------------------------------------

/// `after` has the length of `before` and differs from it at most at the
/// `count` places from `start` on.
pub open spec fn series_kept_outside(after: Seq<i32>, before: Seq<i32>, start: int, count: int)
    -> bool {
    &&& after.len() == before.len()
    &&& forall|s: int|
        0 <= s < after.len() && !(start <= s < start + count) ==> #[trigger] after[s] == before[s]
}

/// `after` has the rows of `before`, each of the same length, and differs
/// from it at most in the `count` columns from `start` on.
pub open spec fn kept_outside(
    after: Seq<Seq<i32>>,
    before: Seq<Seq<i32>>,
    start: int,
    count: int,
) -> bool {
    &&& after.len() == before.len()
    &&& forall|ch: int| 0 <= ch < after.len() ==> (#[trigger] after[ch]).len() == before[ch].len()
    &&& forall|ch: int, s: int|
        0 <= ch < after.len() && 0 <= s < after[ch].len() && !(start <= s < start + count)
            ==> #[trigger] after[ch][s] == before[ch][s]
}

/// `kept_outside` of a matrix that may be absent: it is there afterwards
/// exactly if it was there before.
pub open spec fn kept_outside_if_present(
    after: Option<Seq<Seq<i32>>>,
    before: Option<Seq<Seq<i32>>>,
    start: int,
    count: int,
) -> bool {
    match (after, before) {
        (Some(a), Some(b)) => kept_outside(a, b, start, count),
        (None, None) => true,
        _ => false,
    }
}

impl RawDataView {
    /// The five analog matrices differ from those of `before` at most in
    /// the `count` columns from `start` on.
    pub open spec fn analog_kept_outside(self, before: RawDataView, start: int, count: int)
        -> bool {
        &&& kept_outside_if_present(
            self.amplifier_data_raw,
            before.amplifier_data_raw,
            start,
            count,
        )
        &&& kept_outside_if_present(
            self.dc_amplifier_data_raw,
            before.dc_amplifier_data_raw,
            start,
            count,
        )
        &&& kept_outside_if_present(self.stim_data_raw, before.stim_data_raw, start, count)
        &&& kept_outside_if_present(
            self.board_adc_data_raw,
            before.board_adc_data_raw,
            start,
            count,
        )
        &&& kept_outside_if_present(
            self.board_dac_data_raw,
            before.board_dac_data_raw,
            start,
            count,
        )
    }

    /// The two digital matrices differ from those of `before` at most in
    /// the `count` columns from `start` on.
    pub open spec fn digital_kept_outside(self, before: RawDataView, start: int, count: int)
        -> bool {
        &&& kept_outside_if_present(self.board_dig_in_raw, before.board_dig_in_raw, start, count)
        &&& kept_outside_if_present(
            self.board_dig_out_raw,
            before.board_dig_out_raw,
            start,
            count,
        )
    }

    /// The timestamps and every matrix differ from those of `before` at
    /// most at the `count` samples from `start` on.
    pub open spec fn kept_outside(self, before: RawDataView, start: int, count: int) -> bool {
        &&& series_kept_outside(self.timestamps, before.timestamps, start, count)
        &&& self.analog_kept_outside(before, start, count)
        &&& self.digital_kept_outside(before, start, count)
    }
}

// ---------------------------------------------------------------------------
// One block
// ---------------------------------------------------------------------------

/// The bytes that one kind of analog signal with `num_channels` channels
/// takes in one block, if it is present at all.
pub open spec fn kind_bytes(present: bool, num_channels: int) -> int {
    if present {
        256 * num_channels
    } else {
        0
    }
}

/// Reads the samples of one block for one analog kind, if it is present.
fn read_analog_kind(
    reader: &mut ByteReader,
    dest: &mut Option<IntArray2>,
    index: usize,
    samples_per_block: usize,
    num_channels: usize,
    present: bool,
    Ghost(samples): Ghost<int>,
    Ghost(data_start): Ghost<int>,
    Ghost(block_bytes): Ghost<int>,
    Ghost(offset): Ghost<int>,
) -> (r: Result<(), IntanError>)
    requires
        samples_per_block == 128,
        present ==> num_channels > 0,
        index % 128 == 0,
        index + 128 <= samples,
        matrix_shaped(*old(dest), present, num_channels as int, samples),
        old(reader).pos == block_base(data_start, block_bytes, index as int) + offset,
        analog_decoded_if_present(
            int_rows(*old(dest)),
            old(reader).bytes@,
            data_start,
            block_bytes,
            offset,
            index as int,
        ),
    ensures
        final(reader).bytes@ == old(reader).bytes@,
        matrix_shaped(*final(dest), present, num_channels as int, samples),
        kept_outside_if_present(int_rows(*final(dest)), int_rows(*old(dest)), index as int, 128),
        match r {
            Ok(_) => {
                &&& old(reader).can_read(kind_bytes(present, num_channels as int))
                &&& final(reader).pos == old(reader).pos + kind_bytes(present, num_channels as int)
                &&& present ==> final(reader).pos <= old(reader).bytes@.len()
                &&& analog_decoded_if_present(
                    int_rows(*final(dest)),
                    old(reader).bytes@,
                    data_start,
                    block_bytes,
                    offset,
                    index + 128,
                )
            },
            Err(e) => !old(reader).can_read(kind_bytes(present, num_channels as int)) && e
                == IntanError::IoError(IoErrorKind::UnexpectedEof),
        },
{
    assert(2 * samples_per_block * num_channels == 256 * num_channels) by (nonlinear_arith)
        requires
            samples_per_block == 128,
    ;
    match dest {
        Some(matrix) => {
            let ghost before = *matrix;
            let r = read_analog_signal_type(reader, matrix, index, samples_per_block, num_channels);
            proof {
                if r is Ok {
                    lemma_filled_keeps_shape(*matrix, before, true, num_channels as int, samples);
                    lemma_analog_extend(
                        matrix@,
                        before@,
                        reader.bytes@,
                        data_start,
                        block_bytes,
                        offset,
                        index as int,
                    );
                }
            }
            r
        },
        None => Ok(()),
    }
}

/// Reads the shared words of one block for one digital kind, if it is
/// present.
fn read_digital_kind(
    reader: &mut ByteReader,
    dest: &mut Option<IntArray2>,
    index: usize,
    samples_per_block: usize,
    Ghost(num_channels): Ghost<int>,
    Ghost(samples): Ghost<int>,
    Ghost(data_start): Ghost<int>,
    Ghost(block_bytes): Ghost<int>,
    Ghost(offset): Ghost<int>,
) -> (r: Result<(), IntanError>)
    requires
        samples_per_block == 128,
        num_channels >= 0,
        index % 128 == 0,
        index + 128 <= samples,
        matrix_shaped(*old(dest), num_channels > 0, num_channels, samples),
        old(reader).pos == block_base(data_start, block_bytes, index as int) + offset,
        digital_decoded_if_present(
            int_rows(*old(dest)),
            old(reader).bytes@,
            data_start,
            block_bytes,
            offset,
            index as int,
        ),
    ensures
        final(reader).bytes@ == old(reader).bytes@,
        matrix_shaped(*final(dest), num_channels > 0, num_channels, samples),
        kept_outside_if_present(int_rows(*final(dest)), int_rows(*old(dest)), index as int, 128),
        match r {
            Ok(_) => {
                &&& old(reader).can_read(shared_word_bytes(num_channels))
                &&& final(reader).pos == old(reader).pos + shared_word_bytes(num_channels)
                &&& num_channels > 0 ==> final(reader).pos <= old(reader).bytes@.len()
                &&& digital_decoded_if_present(
                    int_rows(*final(dest)),
                    old(reader).bytes@,
                    data_start,
                    block_bytes,
                    offset,
                    index + 128,
                )
            },
            Err(e) => !old(reader).can_read(shared_word_bytes(num_channels)) && e
                == IntanError::IoError(IoErrorKind::UnexpectedEof),
        },
{
    let ghost before = *dest;
    let r = read_digital_signal_type(reader, dest, index, samples_per_block);
    proof {
        if r is Ok && num_channels > 0 {
            lemma_filled_keeps_shape(dest->0, before->0, true, num_channels, samples);
            lemma_digital_extend(
                dest->0@,
                before->0@,
                reader.bytes@,
                data_start,
                block_bytes,
                offset,
                index as int,
            );
        }
    }
    r
}

/// The bytes that the five analog kinds take in one block.
pub open spec fn analog_bytes(header: RhsHeaderView) -> int {
    dig_in_offset(header) - 512
}

/// Reads the samples of one block for every analog kind that is present:
/// amplifier, DC amplifier, stimulation, board ADC and board DAC, in this
/// order. Only the 128 columns of the block change, whether the block is
/// read to its end or not.
fn read_analog_signals(
    reader: &mut ByteReader,
    data: &mut RawData,
    header: &RhsHeader,
    index: usize,
    samples_per_block: usize,
    Ghost(data_start): Ghost<int>,
) -> (r: Result<(), IntanError>)
    requires
        samples_per_block == 128,
        index % 128 == 0,
        index + 128 <= old(data).spec_num_samples(),
        old(data).shaped(header@),
        old(reader).pos == block_base(data_start, bytes_per_block(header@), index as int) + 512,
        old(data)@.analog_decoded(old(reader).bytes@, data_start, header@, index as int),
    ensures
        final(reader).bytes@ == old(reader).bytes@,
        final(data).shaped(header@),
        final(data).timestamps == old(data).timestamps,
        final(data).board_dig_in_raw == old(data).board_dig_in_raw,
        final(data).board_dig_out_raw == old(data).board_dig_out_raw,
        final(data)@.analog_kept_outside(old(data)@, index as int, 128),
        match r {
            Ok(_) => {
                &&& old(reader).can_read(analog_bytes(header@))
                &&& final(reader).pos == old(reader).pos + analog_bytes(header@)
                &&& final(data)@.analog_decoded(
                    old(reader).bytes@,
                    data_start,
                    header@,
                    index + 128,
                )
            },
            Err(e) => !old(reader).can_read(analog_bytes(header@)) && e == IntanError::IoError(
                IoErrorKind::UnexpectedEof,
            ),
        },
{
    let ghost samples = data.spec_num_samples();
    let ghost block = bytes_per_block(header@);
    let num_amplifier_channels: usize = header.amplifier_channels.len();
    let num_board_adc_channels: usize = header.board_adc_channels.len();
    let num_board_dac_channels: usize = header.board_dac_channels.len();
    let ghost start = reader.pos as int;
    assert(header@.amplifier_channels.len() == num_amplifier_channels);
    assert(header@.board_adc_channels.len() == num_board_adc_channels);
    assert(header@.board_dac_channels.len() == num_board_dac_channels);

    // Amplifier data
    read_analog_kind(
        &mut *reader,
        &mut data.amplifier_data_raw,
        index,
        samples_per_block,
        num_amplifier_channels,
        num_amplifier_channels > 0,
        Ghost(samples),
        Ghost(data_start),
        Ghost(block),
        Ghost(512),
    )?;

    // DC amplifier data
    assert(reader.pos == start + dc_amplifier_offset(header@) - 512);
    read_analog_kind(
        &mut *reader,
        &mut data.dc_amplifier_data_raw,
        index,
        samples_per_block,
        num_amplifier_channels,
        num_amplifier_channels > 0 && header.dc_amplifier_data_saved,
        Ghost(samples),
        Ghost(data_start),
        Ghost(block),
        Ghost(dc_amplifier_offset(header@)),
    )?;

    // Stimulation data
    assert(reader.pos == start + stim_offset(header@) - 512);
    read_analog_kind(
        &mut *reader,
        &mut data.stim_data_raw,
        index,
        samples_per_block,
        num_amplifier_channels,
        num_amplifier_channels > 0,
        Ghost(samples),
        Ghost(data_start),
        Ghost(block),
        Ghost(stim_offset(header@)),
    )?;

    // Board ADC data
    assert(reader.pos == start + adc_offset(header@) - 512);
    read_analog_kind(
        &mut *reader,
        &mut data.board_adc_data_raw,
        index,
        samples_per_block,
        num_board_adc_channels,
        num_board_adc_channels > 0,
        Ghost(samples),
        Ghost(data_start),
        Ghost(block),
        Ghost(adc_offset(header@)),
    )?;

    // Board DAC data
    assert(reader.pos == start + dac_offset(header@) - 512);
    let ghost before_dac = reader.pos as int;
    read_analog_kind(
        &mut *reader,
        &mut data.board_dac_data_raw,
        index,
        samples_per_block,
        num_board_dac_channels,
        num_board_dac_channels > 0,
        Ghost(samples),
        Ghost(data_start),
        Ghost(block),
        Ghost(dac_offset(header@)),
    )?;

    assert(reader.pos == before_dac + kind_bytes(
        num_board_dac_channels > 0,
        num_board_dac_channels as int,
    ));
    assert(kind_bytes(num_board_dac_channels > 0, num_board_dac_channels as int) == 256
        * num_board_dac_channels);
    assert(dig_in_offset(header@) == dac_offset(header@) + 256 * num_board_dac_channels);
    assert(analog_bytes(header@) == dig_in_offset(header@) - 512);
    assert(reader.pos == start + analog_bytes(header@));
    assert(analog_bytes(header@) > 0 ==> reader.pos <= reader.bytes@.len());
    assert(data@.analog_decoded(reader.bytes@, data_start, header@, index + 128));
    Ok(())
}

/// The bytes that the two digital kinds take in one block.
pub open spec fn digital_bytes(header: RhsHeaderView) -> int {
    shared_word_bytes(header.board_dig_in_channels.len() as int) + shared_word_bytes(
        header.board_dig_out_channels.len() as int,
    )
}

/// Reads the shared words of one block for the digital inputs and the
/// digital outputs, whichever are present.
fn read_digital_signals(
    reader: &mut ByteReader,
    data: &mut RawData,
    header: &RhsHeader,
    index: usize,
    samples_per_block: usize,
    Ghost(data_start): Ghost<int>,
) -> (r: Result<(), IntanError>)
    requires
        samples_per_block == 128,
        index % 128 == 0,
        index + 128 <= old(data).spec_num_samples(),
        old(data).shaped(header@),
        old(reader).pos == block_base(data_start, bytes_per_block(header@), index as int)
            + dig_in_offset(header@),
        old(data)@.digital_decoded(old(reader).bytes@, data_start, header@, index as int),
    ensures
        final(reader).bytes@ == old(reader).bytes@,
        final(data).shaped(header@),
        final(data).timestamps == old(data).timestamps,
        final(data).amplifier_data_raw == old(data).amplifier_data_raw,
        final(data).dc_amplifier_data_raw == old(data).dc_amplifier_data_raw,
        final(data).stim_data_raw == old(data).stim_data_raw,
        final(data).board_adc_data_raw == old(data).board_adc_data_raw,
        final(data).board_dac_data_raw == old(data).board_dac_data_raw,
        final(data)@.digital_kept_outside(old(data)@, index as int, 128),
        match r {
            Ok(_) => {
                &&& old(reader).can_read(digital_bytes(header@))
                &&& final(reader).pos == old(reader).pos + digital_bytes(header@)
                &&& final(data)@.digital_decoded(
                    old(reader).bytes@,
                    data_start,
                    header@,
                    index + 128,
                )
            },
            Err(e) => !old(reader).can_read(digital_bytes(header@)) && e == IntanError::IoError(
                IoErrorKind::UnexpectedEof,
            ),
        },
{
    let ghost samples = data.spec_num_samples();
    let ghost block = bytes_per_block(header@);
    let ghost dig_ins = header@.board_dig_in_channels.len() as int;
    let ghost dig_outs = header@.board_dig_out_channels.len() as int;

    // Digital input data
    read_digital_kind(
        &mut *reader,
        &mut data.board_dig_in_raw,
        index,
        samples_per_block,
        Ghost(dig_ins),
        Ghost(samples),
        Ghost(data_start),
        Ghost(block),
        Ghost(dig_in_offset(header@)),
    )?;

    // Digital output data
    read_digital_kind(
        &mut *reader,
        &mut data.board_dig_out_raw,
        index,
        samples_per_block,
        Ghost(dig_outs),
        Ghost(samples),
        Ghost(data_start),
        Ghost(block),
        Ghost(dig_out_offset(header@)),
    )?;

    Ok(())
}

/// Reads one block: its timestamps, its analog samples and its digital
/// words. Only the 128 samples of the block change.
fn read_one_data_block(
    data: &mut RawData,
    header: &RhsHeader,
    index: usize,
    reader: &mut ByteReader,
    Ghost(data_start): Ghost<int>,
) -> (r: Result<(), IntanError>)
    requires
        index % 128 == 0,
        index + 128 <= old(data).spec_num_samples(),
        old(data).shaped(header@),
        old(reader).pos == block_base(data_start, bytes_per_block(header@), index as int),
        old(data)@.decoded(old(reader).bytes@, data_start, header@, index as int),
    ensures
        final(reader).bytes@ == old(reader).bytes@,
        final(data).spec_num_samples() == old(data).spec_num_samples(),
        final(data).shaped(header@),
        final(data)@.kept_outside(old(data)@, index as int, 128),
        match r {
            Ok(_) => {
                &&& old(reader).can_read(bytes_per_block(header@))
                &&& final(reader).pos == old(reader).pos + bytes_per_block(header@)
                &&& final(data)@.decoded(old(reader).bytes@, data_start, header@, index + 128)
            },
            Err(e) => !old(reader).can_read(bytes_per_block(header@)) && e == IntanError::IoError(
                IoErrorKind::UnexpectedEof,
            ),
        },
{
    let samples_per_block: usize = SAMPLES_PER_DATA_BLOCK;
    let ghost before = data.timestamps@;
    proof {
        lemma_block_is_sum_of_kinds(header@);
    }

    // Read timestamps
    read_timestamps(reader, &mut data.timestamps, index, samples_per_block)?;
    proof {
        lemma_timestamps_extend(
            data.timestamps@,
            before,
            reader.bytes@,
            data_start,
            bytes_per_block(header@),
            index as int,
        );
    }

    // Read analog signals
    read_analog_signals(reader, data, header, index, samples_per_block, Ghost(data_start))?;

    // Read digital signals
    read_digital_signals(reader, data, header, index, samples_per_block, Ghost(data_start))?;

    Ok(())
}

/// Whether every element of `rows` is a 16-bit signed value.
pub open spec fn all_samples_16_bit(rows: Seq<Seq<i32>>) -> bool {
    forall|ch: int, s: int|
        0 <= ch < rows.len() && 0 <= s < rows[ch].len() ==> -32768 <= #[trigger] rows[ch][s]
            <= 32767
}

/// `all_samples_16_bit` of a matrix that may be absent.
pub open spec fn all_samples_16_bit_if_present(matrix: Option<Seq<Seq<i32>>>) -> bool {
    matrix matches Some(rows) ==> all_samples_16_bit(rows)
}

/// A matrix that was decoded from the stream over its whole width holds
/// 16-bit signed values, because each is made of two bytes.
proof fn lemma_decoded_is_16_bit(
    matrix: Option<Seq<Seq<i32>>>,
    bytes: Seq<u8>,
    data_start: int,
    block_bytes: int,
    offset: int,
    samples: int,
)
    requires
        analog_decoded_if_present(matrix, bytes, data_start, block_bytes, offset, samples),
        matrix matches Some(rows) ==> is_rect(rows, samples as nat),
        samples >= 0,
    ensures
        all_samples_16_bit_if_present(matrix),
{
    reveal(analog_decoded);
    if let Some(rows) = matrix {
        assert forall|ch: int, s: int|
            0 <= ch < rows.len() && 0 <= s < rows[ch].len() implies -32768 <= #[trigger] rows[ch][s]
            <= 32767 by {
            assert(rows[ch].len() == samples);
            assert(rows[ch][s] == analog_at(
                bytes,
                data_start,
                block_bytes,
                offset,
                rows.len() as int,
                ch,
                s,
            ));
        }
    }
}

impl RawData {
    /// The raw data is what a decoder can have produced for this header:
    /// the matrices are those that the header calls for, they could be
    /// allocated, and the analog samples are 16-bit values.
    pub open spec fn wf(&self, header: RhsHeaderView) -> bool {
        &&& self.shaped(header)
        &&& raw_fits(header, self.spec_num_samples())
        &&& all_samples_16_bit_if_present(self@.amplifier_data_raw)
        &&& all_samples_16_bit_if_present(self@.dc_amplifier_data_raw)
        &&& all_samples_16_bit_if_present(self@.board_adc_data_raw)
        &&& all_samples_16_bit_if_present(self@.board_dac_data_raw)
    }
}

// ---------------------------------------------------------------------------
// All blocks
// ---------------------------------------------------------------------------

/// Whether the timestamp array and every matrix that the header calls for
/// can be allocated for `samples` samples on this machine.
pub open spec fn raw_fits(header: RhsHeaderView, samples: int) -> bool {
    &&& samples <= usize::MAX
    &&& shape_fits(1, samples)
    &&& shape_fits(header.amplifier_channels.len() as int, samples)
    &&& shape_fits(header.board_adc_channels.len() as int, samples)
    &&& shape_fits(header.board_dac_channels.len() as int, samples)
    &&& shape_fits(header.board_dig_in_channels.len() as int, samples)
    &&& shape_fits(header.board_dig_out_channels.len() as int, samples)
}

/// Decides `raw_fits`.
fn raw_fits_exec(header: &RhsHeader, num_samples: u64) -> (fits: bool)
    ensures
        fits == raw_fits(header@, num_samples as int),
{
    if num_samples > usize::MAX as u64 {
        return false;
    }
    let samples: usize = num_samples as usize;
    shape_fits_exec(1, samples) && shape_fits_exec(header.amplifier_channels.len(), samples)
        && shape_fits_exec(header.board_adc_channels.len(), samples) && shape_fits_exec(
        header.board_dac_channels.len(),
        samples,
    ) && shape_fits_exec(header.board_dig_in_channels.len(), samples) && shape_fits_exec(
        header.board_dig_out_channels.len(),
        samples,
    )
}

/// A matrix of zeros for a kind of signal, or nothing if the kind is not
/// present.
fn zeros_if(present: bool, rows: usize, cols: usize) -> (m: Option<IntArray2>)
    requires
        shape_fits(rows as int, cols as int),
    ensures
        matrix_shaped(m, present, rows as int, cols as int),
{
    if present {
        Some(IntArray2::zeros(rows, cols))
    } else {
        None
    }
}

/// Before any block is read, nothing needs to have been decoded.
proof fn lemma_nothing_decoded(raw: RawDataView, bytes: Seq<u8>, data_start: int, header: RhsHeaderView)
    ensures
        raw.decoded(bytes, data_start, header, 0),
{
    reveal(timestamps_decoded);
    reveal(analog_decoded);
    reveal(digital_decoded);
}

/// Reads all data blocks into raw matrices that are allocated to full size
/// up front.
///
/// Fails with a description if the matrices cannot be allocated on this
/// machine, and with an end-of-stream error if the stream holds fewer than
/// `num_blocks` blocks.
pub fn read_all_data_blocks(
    header: &RhsHeader,
    num_samples: u64,
    num_blocks: u64,
    reader: &mut ByteReader,
) -> (r: Result<RawData, IntanError>)
    requires
        num_samples == num_blocks * 128,
    ensures
        final(reader).bytes@ == old(reader).bytes@,
        match r {
            Ok(raw) => {
                &&& raw_fits(header@, num_samples as int)
                &&& old(reader).can_read(num_blocks * bytes_per_block(header@))
                &&& final(reader).pos == old(reader).pos + num_blocks * bytes_per_block(header@)
                &&& raw.spec_num_samples() == num_samples
                &&& raw.wf(header@)
                &&& raw@.shaped(header@, num_samples as int)
                &&& raw@.decoded(
                    old(reader).bytes@,
                    old(reader).pos as int,
                    header@,
                    num_samples as int,
                )
            },
            Err(e) => if raw_fits(header@, num_samples as int) {
                !old(reader).can_read(num_blocks * bytes_per_block(header@)) && e
                    == IntanError::IoError(IoErrorKind::UnexpectedEof)
            } else {
                e is Other && *final(reader) == *old(reader)
            },
        },
{
    if !raw_fits_exec(header, num_samples) {
        return Err(IntanError::Other("Recording is too large for this machine".to_owned()));
    }
    let samples: usize = num_samples as usize;
    let amplifiers: usize = header.amplifier_channels.len();
    let adcs: usize = header.board_adc_channels.len();
    let dacs: usize = header.board_dac_channels.len();
    let dig_ins: usize = header.board_dig_in_channels.len();
    let dig_outs: usize = header.board_dig_out_channels.len();
    assert(header@.amplifier_channels.len() == amplifiers);
    assert(header@.board_adc_channels.len() == adcs);
    assert(header@.board_dac_channels.len() == dacs);
    assert(header@.board_dig_in_channels.len() == dig_ins);
    assert(header@.board_dig_out_channels.len() == dig_outs);

    // Initialize memory for the raw data
    let mut raw_data = RawData {
        timestamps: IntArray1::zeros(samples),
        amplifier_data_raw: zeros_if(amplifiers > 0, amplifiers, samples),
        dc_amplifier_data_raw: zeros_if(
            amplifiers > 0 && header.dc_amplifier_data_saved,
            amplifiers,
            samples,
        ),
        stim_data_raw: zeros_if(amplifiers > 0, amplifiers, samples),
        board_adc_data_raw: zeros_if(adcs > 0, adcs, samples),
        board_dac_data_raw: zeros_if(dacs > 0, dacs, samples),
        board_dig_in_raw: zeros_if(dig_ins > 0, dig_ins, samples),
        board_dig_out_raw: zeros_if(dig_outs > 0, dig_outs, samples),
    };

    let ghost bytes = reader.bytes@;
    let ghost data_start = reader.pos as int;
    let ghost block = bytes_per_block(header@);
    proof {
        lemma_bytes_per_block_positive(header@);
        lemma_nothing_decoded(raw_data@, bytes, data_start, header@);
    }

    // Read each data block
    let blocks: usize = samples / 128;
    let mut i: usize = 0;
    while i < blocks
        invariant
            i <= blocks,
            blocks == num_blocks,
            blocks * 128 == samples,
            samples == num_samples,
            block == bytes_per_block(header@),
            block >= 512,
            bytes == old(reader).bytes@,
            data_start == old(reader).pos,
            reader.bytes@ == bytes,
            reader.pos == data_start + i * block,
            i > 0 ==> reader.pos <= bytes.len(),
            raw_fits(header@, num_samples as int),
            raw_data.spec_num_samples() == samples,
            raw_data.shaped(header@),
            raw_data@.decoded(bytes, data_start, header@, i * 128),
        decreases blocks - i,
    {
        let index: usize = i * SAMPLES_PER_DATA_BLOCK;
        assert(index / 128 == i && index % 128 == 0);
        assert((i + 1) * block == i * block + block) by (nonlinear_arith);
        assert((i + 1) * block <= blocks * block && blocks * block > 0) by (nonlinear_arith)
            requires
                i + 1 <= blocks,
                block >= 512,
        ;
        match read_one_data_block(&mut raw_data, header, index, &mut *reader, Ghost(data_start)) {
            Ok(_) => {},
            Err(e) => {
                return Err(e);
            },
        }
        i = i + 1;
    }
    assert(blocks * block == 0 <==> blocks == 0) by (nonlinear_arith)
        requires
            block >= 512,
            blocks >= 0,
    ;
    proof {
        let view = raw_data@;
        let n = samples as int;
        lemma_decoded_is_16_bit(view.amplifier_data_raw, bytes, data_start, block, 512, n);
        lemma_decoded_is_16_bit(
            view.dc_amplifier_data_raw,
            bytes,
            data_start,
            block,
            dc_amplifier_offset(header@),
            n,
        );
        lemma_decoded_is_16_bit(
            view.board_adc_data_raw,
            bytes,
            data_start,
            block,
            adc_offset(header@),
            n,
        );
        lemma_decoded_is_16_bit(
            view.board_dac_data_raw,
            bytes,
            data_start,
            block,
            dac_offset(header@),
            n,
        );
    }
    Ok(raw_data)
}

} // verus!
