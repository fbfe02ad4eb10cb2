//! Combining the recordings of one session, file after file.
//!
//! The files of a session are loaded one at a time. Each further file is
//! checked against the header of the combined recording and, if it is
//! compatible, its signals are appended along the sample axis.

use crate::arrays::{is_rect, join_rows, shape_fits, shape_fits_exec, BoolArray2, IntArray2};
use crate::types::{
    bool_matrix_spans, bool_rows, int_matrix_spans, int_rows, string_views, ChannelInfoView,
    IntanError, RhsData, RhsDataView, RhsFile, RhsHeader, RhsHeaderView,
};
use vstd::prelude::*;

verus! {

// ---------------------------------------------------------------------------
// Header compatibility
// ---------------------------------------------------------------------------

/// The first respect in which the header of a further file does not match
/// the header of the combined recording.
#[derive(Debug, Clone, Copy, PartialEq, Eq)]
pub enum HeaderMismatch {
    /// The sample rates differ by more than the tolerance
    SampleRate,
    /// The numbers of amplifier channels differ
    AmplifierChannelCount,
    /// The numbers of board ADC channels differ
    BoardAdcChannelCount,
    /// The numbers of digital input channels differ
    DigitalInputChannelCount,
    /// The native names of the amplifier channels at this index differ
    AmplifierChannelName(usize),
}

/// The first index from `from` on at which the native names of two lists of
/// channels of equal length differ, if there is one.
pub open spec fn first_name_mismatch(
    first: Seq<ChannelInfoView>,
    second: Seq<ChannelInfoView>,
    from: int,
) -> Option<int>
    decreases first.len() - from,
{
    if from < 0 || from >= first.len() {
        None
    } else if first[from].native_channel_name != second[from].native_channel_name {
        Some(from)
    } else {
        first_name_mismatch(first, second, from + 1)
    }
}

/// The first mismatch between two headers, if any. The checks, in order: the
/// sample rates (compared by the caller, within a tolerance of 0.01 Hz), the
/// numbers of amplifier, board ADC and digital input channels, and the native
/// names of the amplifier channels, one by one.
pub open spec fn first_mismatch(
    first: RhsHeaderView,
    second: RhsHeaderView,
    sample_rates_match: bool,
) -> Option<HeaderMismatch> {
    if !sample_rates_match {
        Some(HeaderMismatch::SampleRate)
    } else if first.amplifier_channels.len() != second.amplifier_channels.len() {
        Some(HeaderMismatch::AmplifierChannelCount)
    } else if first.board_adc_channels.len() != second.board_adc_channels.len() {
        Some(HeaderMismatch::BoardAdcChannelCount)
    } else if first.board_dig_in_channels.len() != second.board_dig_in_channels.len() {
        Some(HeaderMismatch::DigitalInputChannelCount)
    } else {
        match first_name_mismatch(first.amplifier_channels, second.amplifier_channels, 0) {
            Some(index) => Some(HeaderMismatch::AmplifierChannelName(index as usize)),
            None => None,
        }
    }
}

/// Finds the first mismatch between the header of the combined recording and
/// the header of a further file. Whether the sample rates match is for the
/// caller to say.
pub fn find_header_mismatch(
    header1: &RhsHeader,
    header2: &RhsHeader,
    sample_rates_match: bool,
) -> (mismatch: Option<HeaderMismatch>)
    ensures
        mismatch == first_mismatch(header1@, header2@, sample_rates_match),
{
    if !sample_rates_match {
        return Some(HeaderMismatch::SampleRate);
    }
    let count: usize = header1.amplifier_channels.len();
    assert(header1@.amplifier_channels.len() == header1.amplifier_channels@.len());
    assert(header2@.amplifier_channels.len() == header2.amplifier_channels@.len());
    assert(header1@.board_adc_channels.len() == header1.board_adc_channels@.len());
    assert(header2@.board_adc_channels.len() == header2.board_adc_channels@.len());
    assert(header1@.board_dig_in_channels.len() == header1.board_dig_in_channels@.len());
    assert(header2@.board_dig_in_channels.len() == header2.board_dig_in_channels@.len());
    if count != header2.amplifier_channels.len() {
        return Some(HeaderMismatch::AmplifierChannelCount);
    }
    if header1.board_adc_channels.len() != header2.board_adc_channels.len() {
        return Some(HeaderMismatch::BoardAdcChannelCount);
    }
    if header1.board_dig_in_channels.len() != header2.board_dig_in_channels.len() {
        return Some(HeaderMismatch::DigitalInputChannelCount);
    }
    let ghost first = header1@.amplifier_channels;
    let ghost second = header2@.amplifier_channels;
    let mut i: usize = 0;
    while i < count
        invariant
            i <= count,
            count == header1.amplifier_channels@.len(),
            count == header2.amplifier_channels@.len(),
            first == header1@.amplifier_channels,
            second == header2@.amplifier_channels,
            first.len() == count,
            second.len() == count,
            sample_rates_match,
            header1@.board_adc_channels.len() == header2@.board_adc_channels.len(),
            header1@.board_dig_in_channels.len() == header2@.board_dig_in_channels.len(),
            first_name_mismatch(first, second, 0) == first_name_mismatch(first, second, i as int),
        decreases count - i,
    {
        assert(first[i as int] == header1.amplifier_channels@[i as int]@);
        assert(second[i as int] == header2.amplifier_channels@[i as int]@);
        if !(header1.amplifier_channels[i].native_channel_name
            == header2.amplifier_channels[i].native_channel_name) {
            return Some(HeaderMismatch::AmplifierChannelName(i));
        }
        i = i + 1;
    }
    None
}

/// Calls `format!` to describe two channel counts that differ. Nothing is
/// claimed of the text.
#[verifier::external_body]
fn count_mismatch_message(what: &str, first: usize, second: usize) -> (message: String) {
    format!("Number of {} don't match: {} vs {}", what, first, second)
}

/// Calls `format!` to describe two channel names that differ. Nothing is
/// claimed of the text.
#[verifier::external_body]
fn name_mismatch_message(index: usize, first: &str, second: &str) -> (message: String) {
    format!("Amplifier channel {} names don't match: '{}' vs '{}'", index, first, second)
}

/// Checks that the header of a further file is compatible with the header of
/// the combined recording, and describes the first mismatch if it is not.
pub fn verify_header_compatibility(
    header1: &RhsHeader,
    header2: &RhsHeader,
    sample_rates_match: bool,
) -> (r: Result<(), IntanError>)
    ensures
        match first_mismatch(header1@, header2@, sample_rates_match) {
            None => r is Ok,
            Some(_) => r matches Err(e) && e is Other,
        },
{
    match find_header_mismatch(header1, header2, sample_rates_match) {
        None => Ok(()),
        Some(HeaderMismatch::SampleRate) => Err(
            IntanError::Other("Sample rates don't match".to_owned()),
        ),
        Some(HeaderMismatch::AmplifierChannelCount) => Err(
            IntanError::Other(
                count_mismatch_message(
                    "amplifier channels",
                    header1.amplifier_channels.len(),
                    header2.amplifier_channels.len(),
                ),
            ),
        ),
        Some(HeaderMismatch::BoardAdcChannelCount) => Err(
            IntanError::Other(
                count_mismatch_message(
                    "board ADC channels",
                    header1.board_adc_channels.len(),
                    header2.board_adc_channels.len(),
                ),
            ),
        ),
        Some(HeaderMismatch::DigitalInputChannelCount) => Err(
            IntanError::Other(
                count_mismatch_message(
                    "digital input channels",
                    header1.board_dig_in_channels.len(),
                    header2.board_dig_in_channels.len(),
                ),
            ),
        ),
        Some(HeaderMismatch::AmplifierChannelName(index)) => {
            assert(index < header1@.amplifier_channels.len()) by {
                lemma_name_mismatch_in_range(
                    header1@.amplifier_channels,
                    header2@.amplifier_channels,
                    0,
                );
            }
            assert(header1@.amplifier_channels.len() == header1.amplifier_channels@.len());
            assert(header2@.amplifier_channels.len() == header2.amplifier_channels@.len());
            Err(
                IntanError::Other(
                    name_mismatch_message(
                        index,
                        header1.amplifier_channels[index].native_channel_name.as_str(),
                        header2.amplifier_channels[index].native_channel_name.as_str(),
                    ),
                ),
            )
        },
    }
}

/// A name mismatch lies within the list.
proof fn lemma_name_mismatch_in_range(
    first: Seq<ChannelInfoView>,
    second: Seq<ChannelInfoView>,
    from: int,
)
    ensures
        first_name_mismatch(first, second, from) matches Some(index) ==> from <= index
            < first.len(),
    decreases first.len() - from,
{
    if 0 <= from < first.len() && first[from].native_channel_name
        == second[from].native_channel_name {
        lemma_name_mismatch_in_range(first, second, from + 1);
    }
}

// ---------------------------------------------------------------------------
// Appending the signals
// ---------------------------------------------------------------------------

/// The matrix of a kind of signal after a further file has been appended:
/// the two matrices joined along the sample axis if the kind is present in
/// both recordings, and absent otherwise.
pub open spec fn joined_if_both<T>(first: Option<Seq<Seq<T>>>, second: Option<Seq<Seq<T>>>)
    -> Option<Seq<Seq<T>>> {
    match (first, second) {
        (Some(a), Some(b)) => Some(join_rows(a, b)),
        _ => None,
    }
}

/// Whether the matrices of one kind of signal can be joined into one of
/// `total` columns: if the kind is present in both recordings, they must have
/// the same number of rows, and the result must be allocatable.
pub open spec fn kind_combinable<T>(
    first: Option<Seq<Seq<T>>>,
    second: Option<Seq<Seq<T>>>,
    total: int,
) -> bool {
    (first, second) matches (Some(a), Some(b)) ==> a.len() == b.len() && shape_fits(
        a.len() as int,
        total,
    )
}

/// Whether the signals of two recordings can be joined along the sample axis.
pub open spec fn combinable(first: RhsDataView, second: RhsDataView) -> bool {
    let total = (first.timestamps.len() + second.timestamps.len()) as int;
    &&& shape_fits(1, total)
    &&& kind_combinable(first.amplifier_data, second.amplifier_data, total)
    &&& kind_combinable(first.dc_amplifier_data, second.dc_amplifier_data, total)
    &&& kind_combinable(first.stim_data, second.stim_data, total)
    &&& kind_combinable(first.compliance_limit_data, second.compliance_limit_data, total)
    &&& kind_combinable(first.charge_recovery_data, second.charge_recovery_data, total)
    &&& kind_combinable(first.amp_settle_data, second.amp_settle_data, total)
    &&& kind_combinable(first.board_adc_data, second.board_adc_data, total)
    &&& kind_combinable(first.board_dac_data, second.board_dac_data, total)
    &&& kind_combinable(first.board_dig_in_data, second.board_dig_in_data, total)
    &&& kind_combinable(first.board_dig_out_data, second.board_dig_out_data, total)
}

/// The signals of two recordings joined along the sample axis: the
/// timestamps of the first followed by those of the second, and every kind of
/// signal that is present in both joined row by row.
pub open spec fn combined_data(first: RhsDataView, second: RhsDataView) -> RhsDataView {
    RhsDataView {
        timestamps: first.timestamps + second.timestamps,
        amplifier_data: joined_if_both(first.amplifier_data, second.amplifier_data),
        dc_amplifier_data: joined_if_both(first.dc_amplifier_data, second.dc_amplifier_data),
        stim_data: joined_if_both(first.stim_data, second.stim_data),
        compliance_limit_data: joined_if_both(
            first.compliance_limit_data,
            second.compliance_limit_data,
        ),
        charge_recovery_data: joined_if_both(
            first.charge_recovery_data,
            second.charge_recovery_data,
        ),
        amp_settle_data: joined_if_both(first.amp_settle_data, second.amp_settle_data),
        board_adc_data: joined_if_both(first.board_adc_data, second.board_adc_data),
        board_dac_data: joined_if_both(first.board_dac_data, second.board_dac_data),
        board_dig_in_data: joined_if_both(first.board_dig_in_data, second.board_dig_in_data),
        board_dig_out_data: joined_if_both(first.board_dig_out_data, second.board_dig_out_data),
    }
}

/// Decides `kind_combinable` for a kind of integer signal.
fn int_kind_combinable(first: &Option<IntArray2>, second: &Option<IntArray2>, total: usize) -> (ok:
    bool)
    ensures
        ok == kind_combinable(int_rows(*first), int_rows(*second), total as int),
{
    match first {
        Some(a) => match second {
            Some(b) => a.dim().0 == b.dim().0 && shape_fits_exec(a.dim().0, total),
            None => true,
        },
        None => true,
    }
}

/// Decides `kind_combinable` for a kind of flag.
fn bool_kind_combinable(first: &Option<BoolArray2>, second: &Option<BoolArray2>, total: usize)
    -> (ok: bool)
    ensures
        ok == kind_combinable(bool_rows(*first), bool_rows(*second), total as int),
{
    match first {
        Some(a) => match second {
            Some(b) => a.dim().0 == b.dim().0 && shape_fits_exec(a.dim().0, total),
            None => true,
        },
        None => true,
    }
}

/// Decides whether the signals of two recordings can be joined.
fn can_combine(first: &RhsData, second: &RhsData) -> (ok: bool)
    ensures
        ok == combinable(first@, second@),
{
    let total: usize = match first.timestamps.len().checked_add(second.timestamps.len()) {
        Some(n) => n,
        None => {
            let ghost sum = (first@.timestamps.len() + second@.timestamps.len()) as int;
            assert(1 * sum * 4 > isize::MAX) by (nonlinear_arith)
                requires
                    sum > usize::MAX,
                    usize::MAX >= isize::MAX,
            ;
            return false;
        },
    };
    shape_fits_exec(1, total) && int_kind_combinable(
        &first.amplifier_data,
        &second.amplifier_data,
        total,
    ) && int_kind_combinable(&first.dc_amplifier_data, &second.dc_amplifier_data, total)
        && int_kind_combinable(&first.stim_data, &second.stim_data, total) && bool_kind_combinable(
        &first.compliance_limit_data,
        &second.compliance_limit_data,
        total,
    ) && bool_kind_combinable(&first.charge_recovery_data, &second.charge_recovery_data, total)
        && bool_kind_combinable(&first.amp_settle_data, &second.amp_settle_data, total)
        && int_kind_combinable(&first.board_adc_data, &second.board_adc_data, total)
        && int_kind_combinable(&first.board_dac_data, &second.board_dac_data, total)
        && int_kind_combinable(&first.board_dig_in_data, &second.board_dig_in_data, total)
        && int_kind_combinable(&first.board_dig_out_data, &second.board_dig_out_data, total)
}

/// Joins the matrices of a kind of integer signal if both are there.
fn concat_int_kind(
    first: &Option<IntArray2>,
    second: &Option<IntArray2>,
    Ghost(first_samples): Ghost<nat>,
    Ghost(second_samples): Ghost<nat>,
) -> (joined: Option<IntArray2>)
    requires
        int_matrix_spans(*first, first_samples),
        int_matrix_spans(*second, second_samples),
        kind_combinable(
            int_rows(*first),
            int_rows(*second),
            (first_samples + second_samples) as int,
        ),
    ensures
        int_rows(joined) == joined_if_both(int_rows(*first), int_rows(*second)),
        int_matrix_spans(joined, first_samples + second_samples),
{
    match first {
        Some(a) => match second {
            Some(b) => a.concat(b),
            None => None,
        },
        None => None,
    }
}

/// Joins the matrices of a kind of flag if both are there.
fn concat_bool_kind(
    first: &Option<BoolArray2>,
    second: &Option<BoolArray2>,
    Ghost(first_samples): Ghost<nat>,
    Ghost(second_samples): Ghost<nat>,
) -> (joined: Option<BoolArray2>)
    requires
        bool_matrix_spans(*first, first_samples),
        bool_matrix_spans(*second, second_samples),
        kind_combinable(
            bool_rows(*first),
            bool_rows(*second),
            (first_samples + second_samples) as int,
        ),
    ensures
        bool_rows(joined) == joined_if_both(bool_rows(*first), bool_rows(*second)),
        bool_matrix_spans(joined, first_samples + second_samples),
{
    match first {
        Some(a) => match second {
            Some(b) => a.concat(b),
            None => None,
        },
        None => None,
    }
}

/// Joins the signals of two recordings along the sample axis.
fn concat_data(first: &RhsData, second: &RhsData) -> (joined: RhsData)
    requires
        first.wf(),
        second.wf(),
        combinable(first@, second@),
    ensures
        joined.wf(),
        joined@ == combined_data(first@, second@),
{
    let ghost n1 = first.spec_num_samples();
    let ghost n2 = second.spec_num_samples();
    RhsData {
        timestamps: first.timestamps.concat(&second.timestamps),
        amplifier_data: concat_int_kind(
            &first.amplifier_data,
            &second.amplifier_data,
            Ghost(n1),
            Ghost(n2),
        ),
        dc_amplifier_data: concat_int_kind(
            &first.dc_amplifier_data,
            &second.dc_amplifier_data,
            Ghost(n1),
            Ghost(n2),
        ),
        stim_data: concat_int_kind(&first.stim_data, &second.stim_data, Ghost(n1), Ghost(n2)),
        compliance_limit_data: concat_bool_kind(
            &first.compliance_limit_data,
            &second.compliance_limit_data,
            Ghost(n1),
            Ghost(n2),
        ),
        charge_recovery_data: concat_bool_kind(
            &first.charge_recovery_data,
            &second.charge_recovery_data,
            Ghost(n1),
            Ghost(n2),
        ),
        amp_settle_data: concat_bool_kind(
            &first.amp_settle_data,
            &second.amp_settle_data,
            Ghost(n1),
            Ghost(n2),
        ),
        board_adc_data: concat_int_kind(
            &first.board_adc_data,
            &second.board_adc_data,
            Ghost(n1),
            Ghost(n2),
        ),
        board_dac_data: concat_int_kind(
            &first.board_dac_data,
            &second.board_dac_data,
            Ghost(n1),
            Ghost(n2),
        ),
        board_dig_in_data: concat_int_kind(
            &first.board_dig_in_data,
            &second.board_dig_in_data,
            Ghost(n1),
            Ghost(n2),
        ),
        board_dig_out_data: concat_int_kind(
            &first.board_dig_out_data,
            &second.board_dig_out_data,
            Ghost(n1),
            Ghost(n2),
        ),
    }
}

/// The signals of an optional recording.
pub open spec fn data_view(data: Option<RhsData>) -> Option<RhsDataView> {
    match data {
        Some(d) => Some(d@),
        None => None,
    }
}

/// Appends the signals of a further recording to the combined recording.
///
/// If either holds no signals, nothing changes. Otherwise every kind of
/// signal that is present in both is joined along the sample axis, and a
/// kind that is absent in either is absent afterwards. If the matrices of a
/// kind have different numbers of rows, or the result cannot be allocated,
/// the combined recording is left as it was and a description is returned.
pub fn combine_data(combined: &mut RhsFile, next: RhsFile) -> (r: Result<(), IntanError>)
    requires
        old(combined).wf(),
        next.wf(),
    ensures
        final(combined).wf(),
        final(combined).header == old(combined).header,
        final(combined).data_present == old(combined).data_present,
        final(combined).source_files == old(combined).source_files,
        match (data_view(old(combined).data), data_view(next.data)) {
            (Some(first), Some(second)) => if combinable(first, second) {
                r is Ok && data_view(final(combined).data) == Some(combined_data(first, second))
            } else {
                r matches Err(e) && e is Other && final(combined).data == old(combined).data
            },
            _ => r is Ok && final(combined).data == old(combined).data,
        },
{
    let joined = match &combined.data {
        Some(first) => match &next.data {
            Some(second) => {
                if !can_combine(first, second) {
                    return Err(
                        IntanError::Other("Recordings cannot be joined".to_owned()),
                    );
                }
                concat_data(first, second)
            },
            None => {
                return Ok(());
            },
        },
        None => {
            return Ok(());
        },
    };
    combined.data = Some(joined);
    Ok(())
}

// ---------------------------------------------------------------------------
// One file after another
// ---------------------------------------------------------------------------

/// Says how to go about loading `num_files` files: with none, there is
/// nothing to load; a single file is loaded as it is (`false`); more files
/// are combined (`true`).
pub fn plan_combination(num_files: usize) -> (r: Result<bool, IntanError>)
    ensures
        num_files == 0 ==> (r matches Err(e) && e is Other),
        num_files > 0 ==> r == Ok::<bool, IntanError>(num_files > 1),
{
    if num_files == 0 {
        return Err(IntanError::Other("No files to load".to_owned()));
    }
    Ok(num_files > 1)
}

/// Makes the first file of several the combined recording: from now on it
/// keeps the list of the files it was combined from.
pub fn begin_combination(first: RhsFile, first_path: String) -> (combined: RhsFile)
    ensures
        combined.header == first.header,
        combined.data == first.data,
        combined.data_present == first.data_present,
        combined@.source_files == Some(seq![first_path@]),
{
    let mut sources: Vec<String> = Vec::new();
    sources.push(first_path);
    let combined = RhsFile {
        header: first.header,
        data: first.data,
        data_present: first.data_present,
        source_files: Some(sources),
    };
    assert(string_views(sources@) =~= seq![first_path@]);
    combined
}

/// The list of source files after `path` has been added, if a list is kept.
pub open spec fn with_source(sources: Option<Seq<Seq<char>>>, path: Seq<char>) -> Option<
    Seq<Seq<char>>,
> {
    match sources {
        Some(s) => Some(s.push(path)),
        None => None,
    }
}

/// Whether two recordings both hold signals to be joined.
pub open spec fn both_hold_data(combined: RhsFile, next: RhsFile) -> bool {
    combined.data_present && next.data_present && combined.data is Some && next.data is Some
}

/// Whether adding `next` to `combined` fails: the headers do not match, or
/// the signals cannot be joined.
pub open spec fn combination_fails(combined: RhsFile, next: RhsFile, sample_rates_match: bool)
    -> bool {
    ||| first_mismatch(combined.header@, next.header@, sample_rates_match) is Some
    ||| both_hold_data(combined, next) && !combinable(combined.data->0@, next.data->0@)
}

/// Recordings whose headers list different numbers of amplifier channels
/// cannot be combined, whatever signals they hold: combining fails on the
/// headers, before any signal is joined.
pub proof fn lemma_amplifier_count_mismatch_fails(
    combined: RhsFile,
    next: RhsFile,
    sample_rates_match: bool,
)
    requires
        combined.header@.amplifier_channels.len() != next.header@.amplifier_channels.len(),
    ensures
        combination_fails(combined, next, sample_rates_match),
        first_mismatch(combined.header@, next.header@, sample_rates_match) == Some(
            if sample_rates_match {
                HeaderMismatch::AmplifierChannelCount
            } else {
                HeaderMismatch::SampleRate
            },
        ),
{
}

/// Recordings whose headers match and whose signals can be joined are
/// combined: combining does not fail.
pub proof fn lemma_compatible_files_combine(
    combined: RhsFile,
    next: RhsFile,
    sample_rates_match: bool,
)
    requires
        first_mismatch(combined.header@, next.header@, sample_rates_match) is None,
        both_hold_data(combined, next) ==> combinable(combined.data->0@, next.data->0@),
    ensures
        !combination_fails(combined, next, sample_rates_match),
{
}

/// Joined signals hold the samples of both recordings, those of the first
/// followed by those of the second: the timestamps are not renumbered, and
/// there are as many samples as in the two together.
pub proof fn lemma_combined_samples_add_up(first: RhsDataView, second: RhsDataView)
    ensures
        combined_data(first, second).timestamps == first.timestamps + second.timestamps,
        combined_data(first, second).timestamps.len() == first.timestamps.len()
            + second.timestamps.len(),
        forall|s: int|
            0 <= s < first.timestamps.len() ==> #[trigger] combined_data(
                first,
                second,
            ).timestamps[s] == first.timestamps[s],
        forall|s: int|
            first.timestamps.len() <= s < first.timestamps.len() + second.timestamps.len()
                ==> #[trigger] combined_data(first, second).timestamps[s]
                == second.timestamps[s - first.timestamps.len()],
{
}

/// Two matrices of one kind, of `first_samples` and `second_samples`
/// columns, are joined into one of as many columns as the two together: its
/// first `first_samples` columns are those of the first matrix, and the
/// columns after them are those of the second.
pub proof fn lemma_joined_rows_hold_both<T>(
    a: Seq<Seq<T>>,
    b: Seq<Seq<T>>,
    first_samples: nat,
    second_samples: nat,
)
    requires
        a.len() == b.len(),
        is_rect(a, first_samples),
        is_rect(b, second_samples),
    ensures
        join_rows(a, b).len() == a.len(),
        is_rect(join_rows(a, b), first_samples + second_samples),
        forall|ch: int, s: int|
            0 <= ch < a.len() && 0 <= s < first_samples ==> #[trigger] join_rows(a, b)[ch][s]
                == a[ch][s],
        forall|ch: int, s: int|
            0 <= ch < a.len() && first_samples <= s < first_samples + second_samples
                ==> #[trigger] join_rows(a, b)[ch][s] == b[ch][s - first_samples],
{
    assert forall|ch: int| 0 <= ch < a.len() implies (#[trigger] join_rows(a, b)[ch]).len()
        == first_samples + second_samples by {
        assert(a[ch].len() == first_samples);
        assert(b[ch].len() == second_samples);
    }
    let joined = join_rows(a, b);
    assert forall|ch: int, s: int|
        0 <= ch < a.len() && 0 <= s < first_samples implies #[trigger] joined[ch][s]
        == a[ch][s] by {
        assert(a[ch].len() == first_samples);
    }
    assert forall|ch: int, s: int|
        0 <= ch < a.len() && first_samples <= s < first_samples
            + second_samples implies #[trigger] joined[ch][s] == b[ch][s - first_samples] by {
        assert(a[ch].len() == first_samples);
        assert(b[ch].len() == second_samples);
    }
}

/// The first file of a combination and one further file make a list of two
/// source files, in the order in which they were given.
pub proof fn lemma_two_files_make_two_sources(first_path: Seq<char>, second_path: Seq<char>)
    ensures
        with_source(Some(seq![first_path]), second_path) == Some(seq![first_path, second_path]),
        with_source(Some(seq![first_path]), second_path)->0.len() == 2,
{
    assert(seq![first_path].push(second_path) =~= seq![first_path, second_path]);
}

/// Every further file adds its path at the end of the list of source files,
/// so that `n` files make a list of `n` paths.
pub proof fn lemma_each_file_adds_its_path(sources: Seq<Seq<char>>, path: Seq<char>)
    ensures
        with_source(Some(sources), path) == Some(sources.push(path)),
        with_source(Some(sources), path)->0.len() == sources.len() + 1,
        with_source(Some(sources), path)->0.last() == path,
{
}

/// Adds a further file to the combined recording: checks that its header is
/// compatible, appends its signals, and notes its path.
///
/// On failure the combined recording is left exactly as it was.
pub fn combine_next(
    combined: &mut RhsFile,
    next: RhsFile,
    path: String,
    sample_rates_match: bool,
) -> (r: Result<(), IntanError>)
    requires
        old(combined).wf(),
        next.wf(),
    ensures
        final(combined).wf(),
        if combination_fails(*old(combined), next, sample_rates_match) {
            r matches Err(e) && e is Other && *final(combined) == *old(combined)
        } else {
            &&& r is Ok
            &&& final(combined).header == old(combined).header
            &&& final(combined).data_present == old(combined).data_present
            &&& final(combined)@.source_files == with_source(old(combined)@.source_files, path@)
            &&& if both_hold_data(*old(combined), next) {
                &&& data_view(final(combined).data) == Some(
                    combined_data(old(combined).data->0@, next.data->0@),
                )
                &&& final(combined).spec_num_samples() == old(combined).spec_num_samples()
                    + next.spec_num_samples()
            } else {
                final(combined).data == old(combined).data
            }
        },
{
    // The headers must be compatible
    verify_header_compatibility(&combined.header, &next.header, sample_rates_match)?;

    // Combine the data
    if combined.data_present && next.data_present {
        combine_data(combined, next)?;
    }

    // Add to the list of source files
    let ghost before = combined.source_files;
    match &mut combined.source_files {
        Some(sources) => {
            sources.push(path);
        },
        None => {},
    }
    proof {
        if let Some(s) = before {
            assert(string_views(s@.push(path)) =~= string_views(s@).push(path@));
        }
    }
    Ok(())
}

} // verus!
