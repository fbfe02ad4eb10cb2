//! The layout of the data blocks that follow the header.
//!
//! A block holds 128 consecutive samples of every enabled channel. Its size
//! is a function of the header alone, and the body of a file is a whole
//! number of blocks.

use crate::types::{IntanError, RhsHeader, RhsHeaderView};
use crate::wire::ByteReader;
use vstd::prelude::*;

verus! {

/// How many kinds of analog signal one block holds per amplifier channel:
/// amplifier and stimulation, and the DC amplifier if it was saved.
pub open spec fn amplifier_kinds(dc_saved: bool) -> int {
    if dc_saved {
        3
    } else {
        2
    }
}

/// The bytes that one block holds for the digital lines of one direction:
/// 128 shared two-byte words if there is any such channel, and nothing
/// otherwise.
pub open spec fn shared_word_bytes(channels: int) -> int {
    if channels > 0 {
        256
    } else {
        0
    }
}

/// The size in bytes of one data block, given the number of channels of each
/// kind.
///
/// 128 timestamps of four bytes; 128 two-byte samples for each amplifier
/// channel, once for the amplifier signal, once more if the DC amplifier
/// signal was saved, and once for the stimulation signal; 128 two-byte samples
/// for each ADC and each DAC channel; and 128 two-byte words for the digital
/// inputs, and as many for the digital outputs, if there is any such channel.
pub open spec fn block_size(
    amplifiers: int,
    dc_saved: bool,
    adcs: int,
    dacs: int,
    dig_ins: int,
    dig_outs: int,
) -> int {
    128 * 4 + 128 * 2 * amplifiers * amplifier_kinds(dc_saved) + 128 * 2 * adcs + 128 * 2 * dacs
        + shared_word_bytes(dig_ins) + shared_word_bytes(dig_outs)
}

/// The size in bytes of one data block of a file with this header.
pub open spec fn bytes_per_block(header: RhsHeaderView) -> int {
    block_size(
        header.amplifier_channels.len() as int,
        header.dc_amplifier_data_saved,
        header.board_adc_channels.len() as int,
        header.board_dac_channels.len() as int,
        header.board_dig_in_channels.len() as int,
        header.board_dig_out_channels.len() as int,
    )
}

/// A block is never empty, whatever the header: it holds at least its 512
/// bytes of timestamps, and everything in it comes in runs of 128 two-byte or
/// four-byte values, so its size is a multiple of 256.
pub proof fn lemma_bytes_per_block_positive(header: RhsHeaderView)
    ensures
        bytes_per_block(header) >= 512,
        bytes_per_block(header) % 256 == 0,
{
    let amplifiers = header.amplifier_channels.len() as int;
    let kinds = amplifier_kinds(header.dc_amplifier_data_saved);
    let adcs = header.board_adc_channels.len() as int;
    let dacs = header.board_dac_channels.len() as int;
    let words = (shared_word_bytes(header.board_dig_in_channels.len() as int) + shared_word_bytes(
        header.board_dig_out_channels.len() as int,
    )) / 256;
    let rows = 2 + amplifiers * kinds + adcs + dacs + words;
    assert(128 * 2 * amplifiers * kinds >= 0 && bytes_per_block(header) == 256 * rows)
        by (nonlinear_arith)
        requires
            amplifiers >= 0,
            kinds >= 2,
            rows == 2 + amplifiers * kinds + adcs + dacs + words,
            bytes_per_block(header) == 128 * 4 + 128 * 2 * amplifiers * kinds + 128 * 2 * adcs
                + 128 * 2 * dacs + 256 * words,
    ;
    assert((256 * rows) % 256 == 0) by (nonlinear_arith);
}

/// The number of bytes that `num_samples` samples of `num_channels` channels
/// take at `bytes_per_sample` bytes each.
pub fn bytes_per_signal_type(num_samples: usize, num_channels: usize, bytes_per_sample: usize) -> (n:
    usize)
    requires
        num_samples * num_channels * bytes_per_sample <= usize::MAX,
    ensures
        n == num_samples * num_channels * bytes_per_sample,
{
    assert(num_samples * num_channels <= num_samples * num_channels * bytes_per_sample
        || bytes_per_sample == 0) by (nonlinear_arith);
    if bytes_per_sample == 0 {
        assert(num_samples * num_channels * 0 == 0) by (nonlinear_arith);
        return 0;
    }
    num_samples * num_channels * bytes_per_sample
}

/// The size of one data block in bytes, in a type wide enough for any
/// header that fits in memory.
fn wide_bytes_per_block(header: &RhsHeader) -> (n: u128)
    ensures
        n == bytes_per_block(header@),
        n >= 512,
{
    let amplifiers: u128 = header.amplifier_channels.len() as u128;
    let adcs: u128 = header.board_adc_channels.len() as u128;
    let dacs: u128 = header.board_dac_channels.len() as u128;
    proof {
        lemma_bytes_per_block_positive(header@);
        let amps = amplifiers as int;
        assert(header@.amplifier_channels.len() == amps);
        assert(128 * 2 * amps * 3 == 768 * amps) by (nonlinear_arith);
        assert(128 * 2 * amps * 2 == 512 * amps) by (nonlinear_arith);
        assert(amplifiers <= u64::MAX && adcs <= u64::MAX && dacs <= u64::MAX);
    }
    // Timestamps (always present): four bytes per sample.
    let mut bytes_per_block: u128 = 512;

    // Amplifier and stimulation data: two bytes per sample per enabled
    // amplifier channel, each.
    bytes_per_block = bytes_per_block + 512 * amplifiers;

    // DC amplifier data (absent if the flag was off).
    if header.dc_amplifier_data_saved {
        bytes_per_block = bytes_per_block + 256 * amplifiers;
    }
    // Analog inputs and outputs: two bytes per sample per enabled channel.

    bytes_per_block = bytes_per_block + 256 * adcs;
    bytes_per_block = bytes_per_block + 256 * dacs;

    // Digital inputs and outputs: one shared two-byte word per sample.
    if header.board_dig_in_channels.len() > 0 {
        bytes_per_block = bytes_per_block + 256;
    }
    if header.board_dig_out_channels.len() > 0 {
        bytes_per_block = bytes_per_block + 256;
    }
    bytes_per_block
}

/// The size of one data block in bytes, or a size error if that size cannot
/// be represented on this machine.
pub fn get_bytes_per_data_block(header: &RhsHeader) -> (r: Result<usize, IntanError>)
    ensures
        r == (if bytes_per_block(header@) <= usize::MAX {
            Ok::<usize, IntanError>(bytes_per_block(header@) as usize)
        } else {
            Err(IntanError::FileSizeError)
        }),
        r matches Ok(n) ==> n >= 512 && n % 256 == 0,
{
    proof {
        lemma_bytes_per_block_positive(header@);
    }
    let wide: u128 = wide_bytes_per_block(header);
    if wide <= usize::MAX as u128 {
        Ok(wide as usize)
    } else {
        Err(IntanError::FileSizeError)
    }
}

/// What the size of the stream says about its data: whether there is any, how
/// many blocks, and how many samples; or a size error if the bytes after the
/// header are not a whole number of blocks.
pub open spec fn spec_data_size(header: RhsHeaderView, file_size: int, position: int) -> Result<
    (bool, int, int),
    IntanError,
> {
    let remaining = file_size - position;
    let block = bytes_per_block(header);
    if remaining < 0 || remaining % block != 0 {
        Err(IntanError::FileSizeError)
    } else {
        Ok((remaining > 0, remaining / block, (remaining / block) * 128))
    }
}

/// Works out how much data follows the header, from the size of the whole
/// stream and the position of the reader.
pub fn calculate_data_size(header: &RhsHeader, file_size: u64, reader: &ByteReader) -> (r: Result<
    (bool, u64, u64),
    IntanError,
>)
    ensures
        match spec_data_size(header@, file_size as int, reader.pos as int) {
            Ok((present, blocks, samples)) => r == Ok::<(bool, u64, u64), IntanError>(
                (present, blocks as u64, samples as u64),
            ) && blocks <= u64::MAX && samples <= u64::MAX,
            Err(e) => r == Err::<(bool, u64, u64), IntanError>(e),
        },
{
    let current_position: u64 = reader.stream_position();
    if current_position > file_size {
        return Err(IntanError::FileSizeError);
    }
    let bytes_remaining: u64 = file_size - current_position;
    let ghost block = bytes_per_block(header@);
    proof {
        lemma_bytes_per_block_positive(header@);
    }
    if bytes_remaining == 0 {
        assert(0int % block == 0 && 0int / block == 0) by (nonlinear_arith)
            requires
                block >= 512,
        ;
        return Ok((false, 0, 0));
    }
    let bytes_per_block: u128 = wide_bytes_per_block(header);

    // The bytes after the header must be a whole number of blocks.
    if bytes_remaining as u128 % bytes_per_block != 0 {
        return Err(IntanError::FileSizeError);
    }
    let num_blocks: u64 = (bytes_remaining as u128 / bytes_per_block) as u64;
    assert(num_blocks * 128 <= bytes_remaining && num_blocks > 0) by (nonlinear_arith)
        requires
            num_blocks == bytes_remaining as int / block,
            bytes_remaining as int % block == 0,
            bytes_remaining > 0,
            block >= 512,
    ;
    let num_samples: u64 = num_blocks * 128;

    Ok((true, num_blocks, num_samples))
}

/// Checks that the reader has come to the end of a stream of `filesize`
/// bytes.
pub fn check_end_of_file(filesize: u64, reader: &ByteReader) -> (r: Result<(), IntanError>)
    ensures
        r == (if reader.pos == filesize {
            Ok::<(), IntanError>(())
        } else {
            Err(IntanError::FileSizeError)
        }),
{
    let current_position: u64 = reader.stream_position();
    if current_position != filesize {
        return Err(IntanError::FileSizeError);
    }
    Ok(())
}

} // verus!
