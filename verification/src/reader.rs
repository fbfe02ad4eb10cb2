//! Loading a whole file from its bytes.

use crate::blocks::{raw_fits, read_all_data_blocks, RawDataView};
use crate::header::{read_header, spec_read_header, RHS_MAGIC_NUMBER};
use crate::layout::{
    bytes_per_block, calculate_data_size, check_end_of_file, lemma_bytes_per_block_positive,
    spec_data_size,
};
use crate::signal::{is_processed, process_data};
use crate::types::{IntanError, RhsDataView, RhsFile, RhsHeaderView};
use crate::wire::{le_u32, ByteReader};
use vstd::prelude::*;

verus! {

/// What loading a file gives.
pub enum LoadOutcome {
    /// Loading fails with this error
    Fails(IntanError),
    /// The signals cannot be held in memory on this machine
    TooLarge,
    /// The file holds a header and no data
    HeaderOnly { header: RhsHeaderView },
    /// The file holds a header and `samples` samples from `data_start` on
    Recording { header: RhsHeaderView, data_start: int, samples: int },
}

/// What loading a file of these bytes gives.
///
/// The header is parsed from the start. What follows it must be a whole
/// number of data blocks; if there is none, the file holds no data.
pub open spec fn load_outcome(bytes: Seq<u8>) -> LoadOutcome {
    match spec_read_header(bytes, 0) {
        Err(e) => LoadOutcome::Fails(e),
        Ok((header, data_start)) => match spec_data_size(header, bytes.len() as int, data_start) {
            Err(e) => LoadOutcome::Fails(e),
            Ok((present, blocks, samples)) => if !present {
                LoadOutcome::HeaderOnly { header }
            } else if !raw_fits(header, samples) {
                LoadOutcome::TooLarge
            } else {
                LoadOutcome::Recording { header, data_start, samples }
            },
        },
    }
}

/// Whether `data` holds the signals of the `samples` samples that are stored
/// in `bytes` from `data_start` on: the raw matrices decoded from the blocks,
/// then processed.
pub open spec fn is_decoding_of(
    data: RhsDataView,
    bytes: Seq<u8>,
    data_start: int,
    header: RhsHeaderView,
    samples: int,
) -> bool {
    exists|raw: RawDataView|
        #[trigger] raw.decoded(bytes, data_start, header, samples) && raw.shaped(header, samples)
            && is_processed(data, raw, header)
}

/// Loads a file from its bytes: the header, and the signals if the file
/// holds any.
pub fn load_file(bytes: &[u8]) -> (r: Result<RhsFile, IntanError>)
    ensures
        match load_outcome(bytes@) {
            LoadOutcome::Fails(e) => r == Err::<RhsFile, IntanError>(e),
            LoadOutcome::TooLarge => r matches Err(e) && e is Other,
            LoadOutcome::HeaderOnly { header } => {
                &&& r matches Ok(file)
                &&& file.header@ == header
                &&& file.data is None
                &&& !file.data_present
                &&& file.source_files is None
            },
            LoadOutcome::Recording { header, data_start, samples } => {
                &&& r matches Ok(file)
                &&& file.header@ == header
                &&& file.data_present
                &&& file.source_files is None
                &&& file.wf()
                &&& file.spec_num_samples() == samples
                &&& file.data matches Some(data) && is_decoding_of(
                    data@,
                    bytes@,
                    data_start,
                    header,
                    samples,
                )
            },
        },
{
    let file_size: u64 = bytes.len() as u64;
    let mut reader = ByteReader::new(bytes);

    // Read the header
    let header = read_header(&mut reader)?;
    let ghost data_start = reader.pos as int;
    let ghost block = bytes_per_block(header@);
    proof {
        lemma_bytes_per_block_positive(header@);
    }

    // Calculate how much data is present
    let (data_present, num_blocks, num_samples) = calculate_data_size(&header, file_size, &reader)?;

    // Read the data if there is any
    let data = if data_present {
        assert(num_blocks * block == file_size - data_start) by (nonlinear_arith)
            requires
                num_blocks == (file_size - data_start) / block,
                (file_size - data_start) % block == 0,
                block >= 512,
        ;
        let raw_data = read_all_data_blocks(&header, num_samples, num_blocks, &mut reader)?;
        let ghost raw = raw_data@;
        check_end_of_file(file_size, &reader)?;
        let data = process_data(&header, raw_data)?;
        assert(is_decoding_of(data@, bytes@, data_start, header@, num_samples as int)) by {
            assert(raw.decoded(bytes@, data_start, header@, num_samples as int));
        }
        Some(data)
    } else {
        None
    };

    Ok(RhsFile { header, data, data_present, source_files: None })
}

/// A file whose magic number differs in one of its four bytes is not
/// recognized, whatever else it holds.
pub proof fn lemma_altered_magic_is_unrecognized(bytes: Seq<u8>, index: int, value: u8)
    requires
        bytes.len() >= 4,
        le_u32(bytes, 0) == RHS_MAGIC_NUMBER,
        0 <= index < 4,
        value != bytes[index],
    ensures
        load_outcome(bytes.update(index, value)) == LoadOutcome::Fails(
            IntanError::UnrecognizedFileFormat,
        ),
{
    let altered = bytes.update(index, value);
    assert(altered.len() == bytes.len());
    assert(forall|k: int| 0 <= k < 4 && k != index ==> altered[k] == bytes[k]);
    assert(altered[index] == value);
    assert(le_u32(altered, 0) != le_u32(bytes, 0));
}

/// A file with one byte more than a whole number of data blocks after its
/// header fails with a size error.
pub proof fn lemma_one_extra_byte_is_size_error(bytes: Seq<u8>, blocks: int)
    requires
        blocks >= 0,
        spec_read_header(bytes, 0) matches Ok((header, data_start)) && bytes.len() - data_start
            == bytes_per_block(header) * blocks + 1,
    ensures
        load_outcome(bytes) == LoadOutcome::Fails(IntanError::FileSizeError),
{
    let (header, data_start) = spec_read_header(bytes, 0)->Ok_0;
    let block = bytes_per_block(header);
    lemma_bytes_per_block_positive(header);
    let remaining = bytes.len() - data_start;
    assert(remaining % block == 1) by (nonlinear_arith)
        requires
            remaining == block * blocks + 1,
            block >= 512,
            blocks >= 0,
    ;
}

} // verus!
