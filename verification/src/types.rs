//! The data model: header, channel descriptors, decoded signals and errors.
//!
//! Every quantity that the file stores as a 32-bit float is held here as its
//! IEEE 754 binary32 bit pattern in a `u32`, exactly as it stands in the file;
//! `f32::from_bits` recovers the number. Decoded analog signals are held as
//! exact integers in a fixed unit that each field names.

use crate::arrays::{is_rect, BoolArray2, IntArray1, IntArray2};
use vstd::prelude::*;

verus! {

/// The number of samples that one data block holds for each channel.
pub const SAMPLES_PER_DATA_BLOCK: usize = 128;

/// Version of the file format.
#[derive(Debug, Clone, Copy, PartialEq, Eq)]
pub struct Version {
    /// Major version number
    pub major: i32,
    /// Minor version number
    pub minor: i32,
}

/// The three free-text notes stored with a recording.
#[derive(Debug, Clone)]
pub struct Notes {
    /// First note text
    pub note1: String,
    /// Second note text
    pub note2: String,
    /// Third note text
    pub note3: String,
}

/// Specification view of `Notes`.
pub struct NotesView {
    pub note1: Seq<char>,
    pub note2: Seq<char>,
    pub note3: Seq<char>,
}

impl View for Notes {
    type V = NotesView;

    open spec fn view(&self) -> NotesView {
        NotesView { note1: self.note1@, note2: self.note2@, note3: self.note3@ }
    }
}

/// Sampling rates and filter settings, gathered from the header in one place.
///
/// Frequencies are binary32 bit patterns, in Hz.
#[derive(Debug, Clone, Copy, PartialEq, Eq)]
pub struct FrequencyParameters {
    /// Sample rate for amplifier channels
    pub amplifier_sample_rate: u32,
    /// Sample rate for board ADC channels
    pub board_adc_sample_rate: u32,
    /// Sample rate for digital input channels
    pub board_dig_in_sample_rate: u32,
    /// Requested DSP cutoff frequency
    pub desired_dsp_cutoff_frequency: u32,
    /// Achieved DSP cutoff frequency
    pub actual_dsp_cutoff_frequency: u32,
    /// Whether DSP was enabled (1) or disabled (0)
    pub dsp_enabled: i32,
    /// Requested lower bandwidth
    pub desired_lower_bandwidth: u32,
    /// Requested lower settle bandwidth
    pub desired_lower_settle_bandwidth: u32,
    /// Achieved lower bandwidth
    pub actual_lower_bandwidth: u32,
    /// Achieved lower settle bandwidth
    pub actual_lower_settle_bandwidth: u32,
    /// Requested upper bandwidth
    pub desired_upper_bandwidth: u32,
    /// Achieved upper bandwidth
    pub actual_upper_bandwidth: u32,
    /// Notch filter frequency in Hz (50 or 60), if one was selected
    pub notch_filter_frequency: Option<i32>,
    /// Requested impedance test frequency
    pub desired_impedance_test_frequency: u32,
    /// Achieved impedance test frequency
    pub actual_impedance_test_frequency: u32,
}

/// Stimulation settings, gathered from the header in one place.
#[derive(Debug, Clone, Copy, PartialEq, Eq)]
pub struct StimParameters {
    /// Stimulation current step size (binary32 bit pattern)
    pub stim_step_size: u32,
    /// Maximum current used in charge recovery (binary32 bit pattern)
    pub charge_recovery_current_limit: u32,
    /// Target voltage for charge recovery (binary32 bit pattern)
    pub charge_recovery_target_voltage: u32,
    /// Amplifier settle mode
    pub amp_settle_mode: i32,
    /// Charge recovery mode
    pub charge_recovery_mode: i32,
}

/// Description of one enabled channel.
#[derive(Debug, Clone)]
pub struct ChannelInfo {
    /// Name of the port (signal group) the channel belongs to
    pub port_name: String,
    /// Prefix of that port
    pub port_prefix: String,
    /// Port number on the device
    pub port_number: i32,
    /// Channel name assigned by the system
    pub native_channel_name: String,
    /// Channel name chosen by the user
    pub custom_channel_name: String,
    /// Native order; for a digital channel, its bit in the shared word
    pub native_order: i32,
    /// Custom order
    pub custom_order: i32,
    /// Channel on the chip
    pub chip_channel: i32,
    /// Hardware stream on the board
    pub board_stream: i32,
    /// Measured electrode impedance magnitude (binary32 bit pattern)
    pub electrode_impedance_magnitude: u32,
    /// Measured electrode impedance phase (binary32 bit pattern)
    pub electrode_impedance_phase: u32,
}

/// Specification view of `ChannelInfo`.
pub struct ChannelInfoView {
    pub port_name: Seq<char>,
    pub port_prefix: Seq<char>,
    pub port_number: i32,
    pub native_channel_name: Seq<char>,
    pub custom_channel_name: Seq<char>,
    pub native_order: i32,
    pub custom_order: i32,
    pub chip_channel: i32,
    pub board_stream: i32,
    pub electrode_impedance_magnitude: u32,
    pub electrode_impedance_phase: u32,
}

impl View for ChannelInfo {
    type V = ChannelInfoView;

    open spec fn view(&self) -> ChannelInfoView {
        ChannelInfoView {
            port_name: self.port_name@,
            port_prefix: self.port_prefix@,
            port_number: self.port_number,
            native_channel_name: self.native_channel_name@,
            custom_channel_name: self.custom_channel_name@,
            native_order: self.native_order,
            custom_order: self.custom_order,
            chip_channel: self.chip_channel,
            board_stream: self.board_stream,
            electrode_impedance_magnitude: self.electrode_impedance_magnitude,
            electrode_impedance_phase: self.electrode_impedance_phase,
        }
    }
}

/// The views of a list of channels, in order.
pub open spec fn channel_views(channels: Seq<ChannelInfo>) -> Seq<ChannelInfoView> {
    Seq::new(channels.len(), |i: int| channels[i]@)
}

/// Spike trigger settings of one amplifier channel.
#[derive(Debug, Clone, Copy, PartialEq, Eq)]
pub struct SpikeTrigger {
    /// 0: trigger on digital input; 1: trigger on voltage threshold
    pub voltage_trigger_mode: i32,
    /// Voltage threshold for triggering
    pub voltage_threshold: i32,
    /// Digital input channel used for triggering
    pub digital_trigger_channel: i32,
    /// 0: trigger on falling edge; 1: trigger on rising edge
    pub digital_edge_polarity: i32,
}

/// Everything the header of a file says.
#[derive(Debug, Clone)]
pub struct RhsHeader {
    /// File format version
    pub version: Version,
    /// Sample rate of the recording in Hz (binary32 bit pattern)
    pub sample_rate: u32,
    /// Samples per data block (always 128)
    pub num_samples_per_data_block: i32,
    /// Whether DSP was enabled (1) or disabled (0)
    pub dsp_enabled: i32,
    /// Achieved DSP cutoff frequency (binary32 bit pattern)
    pub actual_dsp_cutoff_frequency: u32,
    /// Achieved lower bandwidth (binary32 bit pattern)
    pub actual_lower_bandwidth: u32,
    /// Achieved lower settle bandwidth (binary32 bit pattern)
    pub actual_lower_settle_bandwidth: u32,
    /// Achieved upper bandwidth (binary32 bit pattern)
    pub actual_upper_bandwidth: u32,
    /// Requested DSP cutoff frequency (binary32 bit pattern)
    pub desired_dsp_cutoff_frequency: u32,
    /// Requested lower bandwidth (binary32 bit pattern)
    pub desired_lower_bandwidth: u32,
    /// Requested lower settle bandwidth (binary32 bit pattern)
    pub desired_lower_settle_bandwidth: u32,
    /// Requested upper bandwidth (binary32 bit pattern)
    pub desired_upper_bandwidth: u32,
    /// Notch filter frequency in Hz (50 or 60), if one was selected
    pub notch_filter_frequency: Option<i32>,
    /// Requested impedance test frequency (binary32 bit pattern)
    pub desired_impedance_test_frequency: u32,
    /// Achieved impedance test frequency (binary32 bit pattern)
    pub actual_impedance_test_frequency: u32,
    /// Amplifier settle mode
    pub amp_settle_mode: i32,
    /// Charge recovery mode
    pub charge_recovery_mode: i32,
    /// Stimulation current step size (binary32 bit pattern)
    pub stim_step_size: u32,
    /// Maximum current used in charge recovery (binary32 bit pattern)
    pub recovery_current_limit: u32,
    /// Target voltage for charge recovery (binary32 bit pattern)
    pub recovery_target_voltage: u32,
    /// Notes saved with the recording
    pub notes: Notes,
    /// Whether DC amplifier data was saved
    pub dc_amplifier_data_saved: bool,
    /// Evaluation board mode
    pub eval_board_mode: i32,
    /// Name of the reference channel
    pub reference_channel: String,
    /// Enabled amplifier channels
    pub amplifier_channels: Vec<ChannelInfo>,
    /// Spike trigger settings, one per amplifier channel
    pub spike_triggers: Vec<SpikeTrigger>,
    /// Enabled board ADC channels
    pub board_adc_channels: Vec<ChannelInfo>,
    /// Enabled board DAC channels
    pub board_dac_channels: Vec<ChannelInfo>,
    /// Enabled board digital input channels
    pub board_dig_in_channels: Vec<ChannelInfo>,
    /// Enabled board digital output channels
    pub board_dig_out_channels: Vec<ChannelInfo>,
    /// Frequency settings gathered from the fields above
    pub frequency_parameters: FrequencyParameters,
    /// Stimulation settings gathered from the fields above
    pub stim_parameters: StimParameters,
}

/// Specification view of `RhsHeader`.
pub struct RhsHeaderView {
    pub version: Version,
    pub sample_rate: u32,
    pub num_samples_per_data_block: i32,
    pub dsp_enabled: i32,
    pub actual_dsp_cutoff_frequency: u32,
    pub actual_lower_bandwidth: u32,
    pub actual_lower_settle_bandwidth: u32,
    pub actual_upper_bandwidth: u32,
    pub desired_dsp_cutoff_frequency: u32,
    pub desired_lower_bandwidth: u32,
    pub desired_lower_settle_bandwidth: u32,
    pub desired_upper_bandwidth: u32,
    pub notch_filter_frequency: Option<i32>,
    pub desired_impedance_test_frequency: u32,
    pub actual_impedance_test_frequency: u32,
    pub amp_settle_mode: i32,
    pub charge_recovery_mode: i32,
    pub stim_step_size: u32,
    pub recovery_current_limit: u32,
    pub recovery_target_voltage: u32,
    pub notes: NotesView,
    pub dc_amplifier_data_saved: bool,
    pub eval_board_mode: i32,
    pub reference_channel: Seq<char>,
    pub amplifier_channels: Seq<ChannelInfoView>,
    pub spike_triggers: Seq<SpikeTrigger>,
    pub board_adc_channels: Seq<ChannelInfoView>,
    pub board_dac_channels: Seq<ChannelInfoView>,
    pub board_dig_in_channels: Seq<ChannelInfoView>,
    pub board_dig_out_channels: Seq<ChannelInfoView>,
    pub frequency_parameters: FrequencyParameters,
    pub stim_parameters: StimParameters,
}

impl View for RhsHeader {
    type V = RhsHeaderView;

    open spec fn view(&self) -> RhsHeaderView {
        RhsHeaderView {
            version: self.version,
            sample_rate: self.sample_rate,
            num_samples_per_data_block: self.num_samples_per_data_block,
            dsp_enabled: self.dsp_enabled,
            actual_dsp_cutoff_frequency: self.actual_dsp_cutoff_frequency,
            actual_lower_bandwidth: self.actual_lower_bandwidth,
            actual_lower_settle_bandwidth: self.actual_lower_settle_bandwidth,
            actual_upper_bandwidth: self.actual_upper_bandwidth,
            desired_dsp_cutoff_frequency: self.desired_dsp_cutoff_frequency,
            desired_lower_bandwidth: self.desired_lower_bandwidth,
            desired_lower_settle_bandwidth: self.desired_lower_settle_bandwidth,
            desired_upper_bandwidth: self.desired_upper_bandwidth,
            notch_filter_frequency: self.notch_filter_frequency,
            desired_impedance_test_frequency: self.desired_impedance_test_frequency,
            actual_impedance_test_frequency: self.actual_impedance_test_frequency,
            amp_settle_mode: self.amp_settle_mode,
            charge_recovery_mode: self.charge_recovery_mode,
            stim_step_size: self.stim_step_size,
            recovery_current_limit: self.recovery_current_limit,
            recovery_target_voltage: self.recovery_target_voltage,
            notes: self.notes@,
            dc_amplifier_data_saved: self.dc_amplifier_data_saved,
            eval_board_mode: self.eval_board_mode,
            reference_channel: self.reference_channel@,
            amplifier_channels: channel_views(self.amplifier_channels@),
            spike_triggers: self.spike_triggers@,
            board_adc_channels: channel_views(self.board_adc_channels@),
            board_dac_channels: channel_views(self.board_dac_channels@),
            board_dig_in_channels: channel_views(self.board_dig_in_channels@),
            board_dig_out_channels: channel_views(self.board_dig_out_channels@),
            frequency_parameters: self.frequency_parameters,
            stim_parameters: self.stim_parameters,
        }
    }
}

impl RhsHeaderView {
    /// Whether the gathered parameter records repeat the flat fields, every
    /// amplifier channel has its spike trigger, and the block length is 128.
    pub open spec fn consistent(self) -> bool {
        &&& self.num_samples_per_data_block == 128
        &&& self.spike_triggers.len() == self.amplifier_channels.len()
        &&& self.frequency_parameters == (FrequencyParameters {
            amplifier_sample_rate: self.sample_rate,
            board_adc_sample_rate: self.sample_rate,
            board_dig_in_sample_rate: self.sample_rate,
            desired_dsp_cutoff_frequency: self.desired_dsp_cutoff_frequency,
            actual_dsp_cutoff_frequency: self.actual_dsp_cutoff_frequency,
            dsp_enabled: self.dsp_enabled,
            desired_lower_bandwidth: self.desired_lower_bandwidth,
            desired_lower_settle_bandwidth: self.desired_lower_settle_bandwidth,
            actual_lower_bandwidth: self.actual_lower_bandwidth,
            actual_lower_settle_bandwidth: self.actual_lower_settle_bandwidth,
            desired_upper_bandwidth: self.desired_upper_bandwidth,
            actual_upper_bandwidth: self.actual_upper_bandwidth,
            notch_filter_frequency: self.notch_filter_frequency,
            desired_impedance_test_frequency: self.desired_impedance_test_frequency,
            actual_impedance_test_frequency: self.actual_impedance_test_frequency,
        })
        &&& self.stim_parameters == (StimParameters {
            stim_step_size: self.stim_step_size,
            charge_recovery_current_limit: self.recovery_current_limit,
            charge_recovery_target_voltage: self.recovery_target_voltage,
            amp_settle_mode: self.amp_settle_mode,
            charge_recovery_mode: self.charge_recovery_mode,
        })
    }
}

/// The decoded signals of a recording.
///
/// Every matrix has one row per channel and one column per sample.
#[derive(Debug)]
pub struct RhsData {
    /// Sample counter of each sample
    pub timestamps: IntArray1,
    /// Amplifier signal in nanovolts
    pub amplifier_data: Option<IntArray2>,
    /// DC amplifier signal in units of 10 microvolts
    pub dc_amplifier_data: Option<IntArray2>,
    /// Stimulation current in signed steps of the header's step size
    pub stim_data: Option<IntArray2>,
    /// Whether the compliance limit was reached
    pub compliance_limit_data: Option<BoolArray2>,
    /// Whether charge recovery was active
    pub charge_recovery_data: Option<BoolArray2>,
    /// Whether amplifier settle was active
    pub amp_settle_data: Option<BoolArray2>,
    /// Board ADC signal in units of 100 nanovolts
    pub board_adc_data: Option<IntArray2>,
    /// Board DAC signal in units of 100 nanovolts
    pub board_dac_data: Option<IntArray2>,
    /// Board digital inputs, 0 or 1
    pub board_dig_in_data: Option<IntArray2>,
    /// Board digital outputs, 0 or 1
    pub board_dig_out_data: Option<IntArray2>,
}

/// Specification view of `RhsData`.
pub struct RhsDataView {
    pub timestamps: Seq<i32>,
    pub amplifier_data: Option<Seq<Seq<i32>>>,
    pub dc_amplifier_data: Option<Seq<Seq<i32>>>,
    pub stim_data: Option<Seq<Seq<i32>>>,
    pub compliance_limit_data: Option<Seq<Seq<bool>>>,
    pub charge_recovery_data: Option<Seq<Seq<bool>>>,
    pub amp_settle_data: Option<Seq<Seq<bool>>>,
    pub board_adc_data: Option<Seq<Seq<i32>>>,
    pub board_dac_data: Option<Seq<Seq<i32>>>,
    pub board_dig_in_data: Option<Seq<Seq<i32>>>,
    pub board_dig_out_data: Option<Seq<Seq<i32>>>,
}

/// The rows of an optional matrix of integers.
pub open spec fn int_rows(m: Option<IntArray2>) -> Option<Seq<Seq<i32>>> {
    match m {
        Some(a) => Some(a@),
        None => None,
    }
}

/// The rows of an optional matrix of flags.
pub open spec fn bool_rows(m: Option<BoolArray2>) -> Option<Seq<Seq<bool>>> {
    match m {
        Some(a) => Some(a@),
        None => None,
    }
}

/// Whether an optional matrix of integers, if there, has `samples` columns.
pub open spec fn int_matrix_spans(m: Option<IntArray2>, samples: nat) -> bool {
    m matches Some(a) ==> a.spec_ncols() == samples && is_rect(a@, samples)
}

/// Whether an optional matrix of flags, if there, has `samples` columns.
pub open spec fn bool_matrix_spans(m: Option<BoolArray2>, samples: nat) -> bool {
    m matches Some(a) ==> a.spec_ncols() == samples && is_rect(a@, samples)
}

impl View for RhsData {
    type V = RhsDataView;

    open spec fn view(&self) -> RhsDataView {
        RhsDataView {
            timestamps: self.timestamps@,
            amplifier_data: int_rows(self.amplifier_data),
            dc_amplifier_data: int_rows(self.dc_amplifier_data),
            stim_data: int_rows(self.stim_data),
            compliance_limit_data: bool_rows(self.compliance_limit_data),
            charge_recovery_data: bool_rows(self.charge_recovery_data),
            amp_settle_data: bool_rows(self.amp_settle_data),
            board_adc_data: int_rows(self.board_adc_data),
            board_dac_data: int_rows(self.board_dac_data),
            board_dig_in_data: int_rows(self.board_dig_in_data),
            board_dig_out_data: int_rows(self.board_dig_out_data),
        }
    }
}

impl RhsData {
    /// The number of samples: the length of the timestamp array.
    pub open spec fn spec_num_samples(&self) -> nat {
        self.timestamps@.len()
    }

    /// Every matrix that is there has one column per timestamp.
    pub open spec fn wf(&self) -> bool {
        let n = self.spec_num_samples();
        &&& int_matrix_spans(self.amplifier_data, n)
        &&& int_matrix_spans(self.dc_amplifier_data, n)
        &&& int_matrix_spans(self.stim_data, n)
        &&& bool_matrix_spans(self.compliance_limit_data, n)
        &&& bool_matrix_spans(self.charge_recovery_data, n)
        &&& bool_matrix_spans(self.amp_settle_data, n)
        &&& int_matrix_spans(self.board_adc_data, n)
        &&& int_matrix_spans(self.board_dac_data, n)
        &&& int_matrix_spans(self.board_dig_in_data, n)
        &&& int_matrix_spans(self.board_dig_out_data, n)
    }

    /// Decides whether every matrix that is there has one column per
    /// timestamp.
    pub fn is_well_formed(&self) -> (ok: bool)
        ensures
            ok == self.wf(),
    {
        let n: usize = self.timestamps.len();
        int_spans(&self.amplifier_data, n) && int_spans(&self.dc_amplifier_data, n) && int_spans(
            &self.stim_data,
            n,
        ) && bool_spans(&self.compliance_limit_data, n) && bool_spans(
            &self.charge_recovery_data,
            n,
        ) && bool_spans(&self.amp_settle_data, n) && int_spans(&self.board_adc_data, n)
            && int_spans(&self.board_dac_data, n) && int_spans(&self.board_dig_in_data, n)
            && int_spans(&self.board_dig_out_data, n)
    }
}

/// A copy of an optional matrix of integers.
fn clone_int_matrix(m: &Option<IntArray2>) -> (c: Option<IntArray2>)
    ensures
        int_rows(c) == int_rows(*m),
        forall|samples: nat| int_matrix_spans(c, samples) == int_matrix_spans(*m, samples),
{
    match m {
        Some(a) => Some(a.clone()),
        None => None,
    }
}

/// A copy of an optional matrix of flags.
fn clone_bool_matrix(m: &Option<BoolArray2>) -> (c: Option<BoolArray2>)
    ensures
        bool_rows(c) == bool_rows(*m),
        forall|samples: nat| bool_matrix_spans(c, samples) == bool_matrix_spans(*m, samples),
{
    match m {
        Some(a) => Some(a.clone()),
        None => None,
    }
}

impl Clone for RhsData {
    /// A copy that holds the same signals.
    fn clone(&self) -> (c: Self)
        ensures
            c@ == self@,
            c.wf() == self.wf(),
    {
        RhsData {
            timestamps: self.timestamps.clone(),
            amplifier_data: clone_int_matrix(&self.amplifier_data),
            dc_amplifier_data: clone_int_matrix(&self.dc_amplifier_data),
            stim_data: clone_int_matrix(&self.stim_data),
            compliance_limit_data: clone_bool_matrix(&self.compliance_limit_data),
            charge_recovery_data: clone_bool_matrix(&self.charge_recovery_data),
            amp_settle_data: clone_bool_matrix(&self.amp_settle_data),
            board_adc_data: clone_int_matrix(&self.board_adc_data),
            board_dac_data: clone_int_matrix(&self.board_dac_data),
            board_dig_in_data: clone_int_matrix(&self.board_dig_in_data),
            board_dig_out_data: clone_int_matrix(&self.board_dig_out_data),
        }
    }
}

/// Decides `int_matrix_spans`.
fn int_spans(m: &Option<IntArray2>, samples: usize) -> (ok: bool)
    ensures
        ok == int_matrix_spans(*m, samples as nat),
{
    match m {
        Some(a) => a.dim().1 == samples,
        None => true,
    }
}

/// Decides `bool_matrix_spans`.
fn bool_spans(m: &Option<BoolArray2>, samples: usize) -> (ok: bool)
    ensures
        ok == bool_matrix_spans(*m, samples as nat),
{
    match m {
        Some(a) => a.dim().1 == samples,
        None => true,
    }
}

/// A decoded recording: header, signals, and the files it was combined from.
#[derive(Debug, Clone)]
pub struct RhsFile {
    /// The header
    pub header: RhsHeader,
    /// The decoded signals, if the file holds any
    pub data: Option<RhsData>,
    /// Whether the file holds any data block
    pub data_present: bool,
    /// Paths of the files this recording was combined from, if it was
    pub source_files: Option<Vec<String>>,
}

/// Specification view of `RhsFile`.
pub struct RhsFileView {
    pub header: RhsHeaderView,
    pub data: Option<RhsDataView>,
    pub data_present: bool,
    pub source_files: Option<Seq<Seq<char>>>,
}

/// The views of a list of strings, in order.
pub open spec fn string_views(strings: Seq<String>) -> Seq<Seq<char>> {
    Seq::new(strings.len(), |i: int| strings[i]@)
}

impl View for RhsFile {
    type V = RhsFileView;

    open spec fn view(&self) -> RhsFileView {
        RhsFileView {
            header: self.header@,
            data: match self.data {
                Some(d) => Some(d@),
                None => None,
            },
            data_present: self.data_present,
            source_files: match self.source_files {
                Some(s) => Some(string_views(s@)),
                None => None,
            },
        }
    }
}

impl RhsFile {
    /// The signals, if any, are well formed.
    pub open spec fn wf(&self) -> bool {
        self.data matches Some(d) ==> d.wf()
    }

    /// The number of samples as a specification value.
    pub open spec fn spec_num_samples(&self) -> nat {
        match self.data {
            Some(d) => d.spec_num_samples(),
            None => 0,
        }
    }

    /// Decides whether the signals, if any, are well formed.
    pub fn is_well_formed(&self) -> (ok: bool)
        ensures
            ok == self.wf(),
    {
        match &self.data {
            Some(data) => data.is_well_formed(),
            None => true,
        }
    }

    /// The number of samples in the recording; 0 if it holds no data.
    pub fn num_samples(&self) -> (n: usize)
        ensures
            n == self.spec_num_samples(),
    {
        match &self.data {
            Some(data) => data.timestamps.len(),
            None => 0,
        }
    }
}

/// What can go wrong with an in-memory byte stream.
#[derive(Debug, Clone, Copy, PartialEq, Eq)]
pub enum IoErrorKind {
    /// The stream ended before a value was complete
    UnexpectedEof,
}

/// The ways in which decoding or combining can fail.
#[derive(Debug, Clone, PartialEq, Eq)]
pub enum IntanError {
    /// The file does not start with the magic number of the format
    UnrecognizedFileFormat,
    /// A channel has a signal type that is not supported
    InvalidChannelType,
    /// The size of the file does not fit its data blocks
    FileSizeError,
    /// A string could not be read
    StringReadError,
    /// A requested channel was not found
    ChannelNotFound,
    /// The byte stream failed
    IoError(IoErrorKind),
    /// Any other failure, with its description
    Other(String),
}

impl IntanError {
    /// The text that describes this error.
    pub open spec fn spec_message(&self) -> Seq<char> {
        match self {
            IntanError::UnrecognizedFileFormat => "Unrecognized file format"@,
            IntanError::InvalidChannelType => "Invalid channel type"@,
            IntanError::FileSizeError => "File size error"@,
            IntanError::StringReadError => "Error reading string from file"@,
            IntanError::ChannelNotFound => "Channel not found"@,
            IntanError::IoError(IoErrorKind::UnexpectedEof) =>
                "IO error: failed to fill whole buffer"@,
            IntanError::Other(msg) => msg@,
        }
    }

    /// Describes this error in words.
    pub fn to_string(&self) -> (text: String)
        ensures
            text@ == self.spec_message(),
    {
        match self {
            IntanError::UnrecognizedFileFormat => "Unrecognized file format".to_owned(),
            IntanError::InvalidChannelType => "Invalid channel type".to_owned(),
            IntanError::FileSizeError => "File size error".to_owned(),
            IntanError::StringReadError => "Error reading string from file".to_owned(),
            IntanError::ChannelNotFound => "Channel not found".to_owned(),
            IntanError::IoError(IoErrorKind::UnexpectedEof) =>
                "IO error: failed to fill whole buffer".to_owned(),
            IntanError::Other(msg) => msg.clone(),
        }
    }
}

} // verus!
