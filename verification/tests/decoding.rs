use intan_importer::arrays::{IntArray1, IntArray2};
use intan_importer::blocks::{
    read_all_data_blocks, read_analog_signal_type, read_digital_signal_type, read_timestamps,
};
use intan_importer::header::{
    add_channel_information, check_magic_number, read_header, read_qstring,
};
use intan_importer::layout::{
    bytes_per_signal_type, calculate_data_size, check_end_of_file, get_bytes_per_data_block,
};
use intan_importer::reader::load_file;
use intan_importer::types::{IntanError, IoErrorKind, RhsHeader};
use intan_importer::wire::{i16_at, i32_at, u16_at, ByteReader};

const MAGIC: u32 = 0xd69127ac;

fn put_u16(out: &mut Vec<u8>, v: u16) {
    out.extend_from_slice(&v.to_le_bytes());
}

fn put_i16(out: &mut Vec<u8>, v: i16) {
    out.extend_from_slice(&v.to_le_bytes());
}

fn put_u32(out: &mut Vec<u8>, v: u32) {
    out.extend_from_slice(&v.to_le_bytes());
}

fn put_i32(out: &mut Vec<u8>, v: i32) {
    out.extend_from_slice(&v.to_le_bytes());
}

fn put_f32(out: &mut Vec<u8>, v: f32) {
    put_u32(out, v.to_bits());
}

fn put_qstring(out: &mut Vec<u8>, text: &str) {
    if text.is_empty() {
        put_u32(out, 0xFFFF_FFFF);
        return;
    }
    let units: Vec<u16> = text.encode_utf16().collect();
    put_u32(out, (units.len() * 2) as u32);
    for u in units {
        put_u16(out, u);
    }
}

/// One channel of the catalog: name, native order, signal type, enabled flag.
struct Chan {
    name: &'static str,
    order: i16,
    signal_type: i16,
    enabled: i16,
}

fn chan(name: &'static str, order: i16, signal_type: i16) -> Chan {
    Chan { name, order, signal_type, enabled: 1 }
}

fn put_channel(out: &mut Vec<u8>, c: &Chan) {
    put_qstring(out, c.name);
    put_qstring(out, c.name);
    put_i16(out, c.order); // native order
    put_i16(out, c.order + 100); // custom order
    put_i16(out, c.signal_type);
    put_i16(out, c.enabled);
    put_i16(out, 7); // chip channel
    put_i16(out, 0); // reserved
    put_i16(out, 3); // board stream
    put_i16(out, 1); // voltage trigger mode
    put_i16(out, -70); // voltage threshold
    put_i16(out, 2); // digital trigger channel
    put_i16(out, 1); // digital edge polarity
    put_f32(out, 1234.5); // impedance magnitude
    put_f32(out, -0.25); // impedance phase
}

struct Spec {
    major: i16,
    notch_mode: i16,
    dc_saved: i16,
    groups: Vec<(&'static str, &'static str, i16, Vec<Chan>)>,
}

fn header_bytes(spec: &Spec) -> Vec<u8> {
    let mut out = Vec::new();
    put_u32(&mut out, MAGIC);
    put_i16(&mut out, spec.major);
    put_i16(&mut out, 1);
    put_f32(&mut out, 30000.0);
    put_i16(&mut out, 1); // dsp enabled
    put_f32(&mut out, 1.0);
    put_f32(&mut out, 2.0);
    put_f32(&mut out, 3.0);
    put_f32(&mut out, 4.0);
    put_f32(&mut out, 5.0);
    put_f32(&mut out, 6.0);
    put_f32(&mut out, 7.0);
    put_f32(&mut out, 8.0);
    put_i16(&mut out, spec.notch_mode);
    put_f32(&mut out, 1000.0);
    put_f32(&mut out, 999.5);
    put_i16(&mut out, 1); // amp settle mode
    put_i16(&mut out, 0); // charge recovery mode
    put_f32(&mut out, 10.0); // stim step size
    put_f32(&mut out, 20.0);
    put_f32(&mut out, 1.5);
    put_qstring(&mut out, "first note");
    put_qstring(&mut out, "");
    put_qstring(&mut out, "third");
    put_i16(&mut out, spec.dc_saved);
    put_i16(&mut out, 2); // eval board mode
    put_qstring(&mut out, "REF");
    put_i16(&mut out, spec.groups.len() as i16);
    for (name, prefix, enabled, channels) in &spec.groups {
        put_qstring(&mut out, name);
        put_qstring(&mut out, prefix);
        put_i16(&mut out, *enabled);
        put_i16(&mut out, channels.len() as i16);
        put_i16(&mut out, 0);
        if *enabled > 0 {
            for c in channels {
                put_channel(&mut out, c);
            }
        }
    }
    out
}

fn simple_spec(amps: usize) -> Spec {
    let names = ["A-000", "A-001", "A-002", "A-003"];
    let mut channels = Vec::new();
    for i in 0..amps {
        channels.push(chan(names[i], i as i16, 0));
    }
    Spec { major: 1, notch_mode: 0, dc_saved: 0, groups: vec![("Port A", "A", 1, channels)] }
}

fn rich_spec() -> Spec {
    Spec {
        major: 1,
        notch_mode: 2,
        dc_saved: 1,
        groups: vec![
            ("Port A", "A", 1, vec![chan("A-000", 0, 0), chan("A-001", 1, 0)]),
            ("ADC", "ANALOG-IN", 1, vec![chan("ADC-1", 0, 3)]),
            ("DAC", "ANALOG-OUT", 1, vec![chan("DAC-1", 0, 4)]),
            ("DIN", "DIGITAL-IN", 1, vec![chan("DIN-0", 0, 5), chan("DIN-2", 2, 5), chan("DIN-1", 1, 5)]),
            ("DOUT", "DIGITAL-OUT", 1, vec![chan("DOUT-3", 3, 6)]),
        ],
    }
}

/// The raw value the test files hold for a kind, a channel and a sample.
fn sample_value(kind: i32, ch: i32, s: i32) -> i16 {
    (kind * 1000 + ch * 100 + s) as i16
}

/// Appends `blocks` data blocks for a file with `amps` amplifier channels,
/// optionally DC data, `adcs` and `dacs` channels and optional digital words.
fn put_blocks(
    out: &mut Vec<u8>,
    blocks: usize,
    amps: usize,
    dc: bool,
    adcs: usize,
    dacs: usize,
    dig_in: bool,
    dig_out: bool,
    first_timestamp: i32,
) {
    for b in 0..blocks {
        for k in 0..128 {
            put_i32(out, first_timestamp + (b * 128 + k) as i32);
        }
        let mut kinds: Vec<(i32, usize)> = vec![(1, amps)];
        if dc {
            kinds.push((2, amps));
        }
        kinds.push((3, amps));
        kinds.push((4, adcs));
        kinds.push((5, dacs));
        for (kind, n) in kinds {
            for k in 0..128 {
                for ch in 0..n {
                    put_i16(out, sample_value(kind, ch as i32, (b * 128 + k) as i32));
                }
            }
        }
        if dig_in {
            for k in 0..128 {
                put_u16(out, ((b * 128 + k) % 8) as u16);
            }
        }
        if dig_out {
            for k in 0..128 {
                put_u16(out, 0x8008);
            }
        }
    }
}

fn parse(bytes: &[u8]) -> Result<RhsHeader, IntanError> {
    let mut reader = ByteReader::new(bytes);
    read_header(&mut reader)
}

// ---------------------------------------------------------------------------
// Little-endian integers
// ---------------------------------------------------------------------------

#[test]
fn reader_decodes_little_endian_integers() {
    let bytes = [0x78u8, 0x56, 0x34, 0x12, 0xFE, 0xFF, 0x01, 0x80, 0xFF, 0xFF, 0xFF, 0xFF];
    let mut reader = ByteReader::new(&bytes);
    assert_eq!(reader.read_u32(), Ok(0x12345678));
    assert_eq!(reader.read_i16(), Ok(-2));
    assert_eq!(reader.read_u16(), Ok(0x8001));
    assert_eq!(reader.read_i32(), Ok(-1));
    assert_eq!(reader.stream_position(), 12);
    assert_eq!(reader.stream_len(), 12);
    assert_eq!(reader.read_u16(), Err(IntanError::IoError(IoErrorKind::UnexpectedEof)));
    assert_eq!(reader.stream_position(), 12);
}

#[test]
fn integers_are_read_at_any_offset() {
    let bytes = [0u8, 0x34, 0x12, 0x00, 0x80, 0xFF, 0xFF, 0xFF, 0x7F];
    assert_eq!(i16_at(&bytes, 1), 0x1234);
    assert_eq!(i16_at(&bytes, 3), -32768);
    assert_eq!(u16_at(&bytes, 3), 0x8000);
    assert_eq!(i32_at(&bytes, 5), 0x7FFFFFFF);
}

#[test]
fn take_hands_out_the_next_bytes() {
    let bytes = [1u8, 2, 3, 4, 5];
    let mut reader = ByteReader::new(&bytes);
    assert_eq!(reader.take(2), Ok(0));
    assert_eq!(reader.take(0), Ok(2));
    assert_eq!(reader.take(3), Ok(2));
    assert_eq!(reader.take(1), Err(IntanError::IoError(IoErrorKind::UnexpectedEof)));
    assert_eq!(reader.take(0), Ok(5));
}

// ---------------------------------------------------------------------------
// Tagged strings
// ---------------------------------------------------------------------------

#[test]
fn tagged_string_is_decoded_from_utf16() {
    let mut bytes = Vec::new();
    put_qstring(&mut bytes, "Port A \u{00e9}");
    bytes.push(0xAA);
    let mut reader = ByteReader::new(&bytes);
    assert_eq!(read_qstring(&mut reader), Ok("Port A \u{00e9}".to_string()));
    assert_eq!(reader.stream_position(), 4 + 16);
}

#[test]
fn tagged_string_sentinel_is_empty() {
    let bytes = [0xFFu8, 0xFF, 0xFF, 0xFF, 0x41, 0x00];
    let mut reader = ByteReader::new(&bytes);
    assert_eq!(read_qstring(&mut reader), Ok(String::new()));
    assert_eq!(reader.stream_position(), 4);
}

#[test]
fn tagged_string_of_length_zero_is_empty() {
    let bytes = [0u8, 0, 0, 0];
    let mut reader = ByteReader::new(&bytes);
    assert_eq!(read_qstring(&mut reader), Ok(String::new()));
}

#[test]
fn tagged_string_longer_than_the_stream_is_refused() {
    let mut bytes = Vec::new();
    put_u32(&mut bytes, 6);
    put_u16(&mut bytes, 0x41);
    put_u16(&mut bytes, 0x42);
    let mut reader = ByteReader::new(&bytes);
    assert_eq!(read_qstring(&mut reader), Err(IntanError::StringReadError));
    // Only the length was read.
    assert_eq!(reader.stream_position(), 4);
}

#[test]
fn tagged_string_that_just_fits_is_read() {
    let mut bytes = Vec::new();
    put_u32(&mut bytes, 4);
    put_u16(&mut bytes, 0x41);
    put_u16(&mut bytes, 0x42);
    let mut reader = ByteReader::new(&bytes);
    assert_eq!(read_qstring(&mut reader), Ok("AB".to_string()));
}

#[test]
fn tagged_string_of_odd_length_leaves_the_last_byte() {
    let mut bytes = Vec::new();
    put_u32(&mut bytes, 3);
    put_u16(&mut bytes, 0x41);
    bytes.push(0x42);
    let mut reader = ByteReader::new(&bytes);
    assert_eq!(read_qstring(&mut reader), Ok("A".to_string()));
    assert_eq!(reader.stream_position(), 6);
}

#[test]
fn tagged_string_with_a_surrogate_is_refused() {
    let mut bytes = Vec::new();
    put_u32(&mut bytes, 4);
    put_u16(&mut bytes, 0x41);
    put_u16(&mut bytes, 0xD800);
    bytes.push(0x43);
    let mut reader = ByteReader::new(&bytes);
    assert_eq!(read_qstring(&mut reader), Err(IntanError::StringReadError));
    // The code units were read before any was found wanting.
    assert_eq!(reader.stream_position(), 8);
}

#[test]
fn tagged_string_without_its_length_is_an_io_error() {
    let bytes = [4u8, 0, 0];
    let mut reader = ByteReader::new(&bytes);
    assert_eq!(
        read_qstring(&mut reader),
        Err(IntanError::IoError(IoErrorKind::UnexpectedEof))
    );
    assert_eq!(reader.stream_position(), 0);
}

// ---------------------------------------------------------------------------
// Header
// ---------------------------------------------------------------------------

#[test]
fn magic_number_is_checked() {
    let good = MAGIC.to_le_bytes();
    let mut reader = ByteReader::new(&good);
    assert_eq!(check_magic_number(&mut reader), Ok(()));
    assert_eq!(reader.stream_position(), 4);
    let short = [0xacu8, 0x27, 0x91];
    let mut reader = ByteReader::new(&short);
    assert_eq!(
        check_magic_number(&mut reader),
        Err(IntanError::IoError(IoErrorKind::UnexpectedEof))
    );
    assert_eq!(reader.stream_position(), 0);
}

#[test]
fn magic_number_is_consumed_whether_it_matches_or_not() {
    let bytes = [0xacu8, 0x27, 0x91, 0xd6, 0xac, 0x27, 0x91, 0xd7, 9];
    let mut reader = ByteReader::new(&bytes);
    assert_eq!(check_magic_number(&mut reader), Ok(()));
    assert_eq!(reader.stream_position(), 4);
    assert_eq!(check_magic_number(&mut reader), Err(IntanError::UnrecognizedFileFormat));
    assert_eq!(reader.stream_position(), 8);
    assert_eq!(
        check_magic_number(&mut reader),
        Err(IntanError::IoError(IoErrorKind::UnexpectedEof))
    );
    assert_eq!(reader.stream_position(), 8);
}

#[test]
fn altered_magic_number_is_unrecognized() {
    let bytes = header_bytes(&simple_spec(1));
    assert!(load_file(&bytes).is_ok());
    for i in 0..4 {
        for delta in [1u8, 0x80, 0xFF] {
            let mut altered = bytes.clone();
            altered[i] = altered[i].wrapping_add(delta);
            assert!(matches!(load_file(&altered), Err(IntanError::UnrecognizedFileFormat)));
        }
    }
}

#[test]
fn altered_magic_number_wins_over_truncation() {
    let bytes = [0u8, 0, 0, 0, 1];
    assert!(matches!(load_file(&bytes), Err(IntanError::UnrecognizedFileFormat)));
}

#[test]
fn truncated_header_is_an_io_error() {
    let bytes = header_bytes(&simple_spec(2));
    for len in [0usize, 3, 4, 40, 71, 72, 75, bytes.len() - 1] {
        let r = load_file(&bytes[..len]);
        assert!(
            matches!(r, Err(IntanError::IoError(IoErrorKind::UnexpectedEof))),
            "length {}",
            len
        );
    }
}

#[test]
fn header_truncated_inside_a_string_is_a_string_error() {
    let bytes = header_bytes(&simple_spec(2));
    // The first note starts at offset 72 and declares twenty bytes.
    for len in [76usize, 80, 95] {
        let r = load_file(&bytes[..len]);
        assert!(matches!(r, Err(IntanError::StringReadError)), "length {}", len);
    }
}

#[test]
fn header_fields_are_read_in_order() {
    let header = parse(&header_bytes(&rich_spec())).unwrap();
    assert_eq!(header.version.major, 1);
    assert_eq!(header.version.minor, 1);
    assert_eq!(f32::from_bits(header.sample_rate), 30000.0);
    assert_eq!(header.num_samples_per_data_block, 128);
    assert_eq!(header.dsp_enabled, 1);
    assert_eq!(f32::from_bits(header.actual_dsp_cutoff_frequency), 1.0);
    assert_eq!(f32::from_bits(header.actual_lower_bandwidth), 2.0);
    assert_eq!(f32::from_bits(header.actual_lower_settle_bandwidth), 3.0);
    assert_eq!(f32::from_bits(header.actual_upper_bandwidth), 4.0);
    assert_eq!(f32::from_bits(header.desired_dsp_cutoff_frequency), 5.0);
    assert_eq!(f32::from_bits(header.desired_lower_bandwidth), 6.0);
    assert_eq!(f32::from_bits(header.desired_lower_settle_bandwidth), 7.0);
    assert_eq!(f32::from_bits(header.desired_upper_bandwidth), 8.0);
    assert_eq!(header.notch_filter_frequency, Some(60));
    assert_eq!(f32::from_bits(header.desired_impedance_test_frequency), 1000.0);
    assert_eq!(f32::from_bits(header.actual_impedance_test_frequency), 999.5);
    assert_eq!(header.amp_settle_mode, 1);
    assert_eq!(header.charge_recovery_mode, 0);
    assert_eq!(f32::from_bits(header.stim_step_size), 10.0);
    assert_eq!(f32::from_bits(header.recovery_current_limit), 20.0);
    assert_eq!(f32::from_bits(header.recovery_target_voltage), 1.5);
    assert_eq!(header.notes.note1, "first note");
    assert_eq!(header.notes.note2, "");
    assert_eq!(header.notes.note3, "third");
    assert!(header.dc_amplifier_data_saved);
    assert_eq!(header.eval_board_mode, 2);
    assert_eq!(header.reference_channel, "REF");
}

#[test]
fn header_mirrors_its_fields_in_the_parameter_records() {
    let header = parse(&header_bytes(&rich_spec())).unwrap();
    let f = header.frequency_parameters;
    assert_eq!(f.amplifier_sample_rate, header.sample_rate);
    assert_eq!(f.board_adc_sample_rate, header.sample_rate);
    assert_eq!(f.board_dig_in_sample_rate, header.sample_rate);
    assert_eq!(f.dsp_enabled, header.dsp_enabled);
    assert_eq!(f.actual_dsp_cutoff_frequency, header.actual_dsp_cutoff_frequency);
    assert_eq!(f.actual_lower_bandwidth, header.actual_lower_bandwidth);
    assert_eq!(f.actual_lower_settle_bandwidth, header.actual_lower_settle_bandwidth);
    assert_eq!(f.actual_upper_bandwidth, header.actual_upper_bandwidth);
    assert_eq!(f.desired_dsp_cutoff_frequency, header.desired_dsp_cutoff_frequency);
    assert_eq!(f.desired_lower_bandwidth, header.desired_lower_bandwidth);
    assert_eq!(f.desired_lower_settle_bandwidth, header.desired_lower_settle_bandwidth);
    assert_eq!(f.desired_upper_bandwidth, header.desired_upper_bandwidth);
    assert_eq!(f.notch_filter_frequency, header.notch_filter_frequency);
    assert_eq!(f.desired_impedance_test_frequency, header.desired_impedance_test_frequency);
    assert_eq!(f.actual_impedance_test_frequency, header.actual_impedance_test_frequency);
    let s = header.stim_parameters;
    assert_eq!(s.stim_step_size, header.stim_step_size);
    assert_eq!(s.charge_recovery_current_limit, header.recovery_current_limit);
    assert_eq!(s.charge_recovery_target_voltage, header.recovery_target_voltage);
    assert_eq!(s.amp_settle_mode, header.amp_settle_mode);
    assert_eq!(s.charge_recovery_mode, header.charge_recovery_mode);
    assert_eq!(header.spike_triggers.len(), header.amplifier_channels.len());
}

#[test]
fn notch_mode_selects_the_frequency() {
    for (mode, expected) in [(0i16, None), (1, Some(50)), (2, Some(60)), (3, None), (-1, None)] {
        let mut spec = simple_spec(1);
        spec.notch_mode = mode;
        let header = parse(&header_bytes(&spec)).unwrap();
        assert_eq!(header.notch_filter_frequency, expected);
        assert_eq!(header.frequency_parameters.notch_filter_frequency, expected);
    }
}

#[test]
fn channels_are_filed_by_signal_type() {
    let header = parse(&header_bytes(&rich_spec())).unwrap();
    assert_eq!(header.amplifier_channels.len(), 2);
    assert_eq!(header.spike_triggers.len(), 2);
    assert_eq!(header.board_adc_channels.len(), 1);
    assert_eq!(header.board_dac_channels.len(), 1);
    assert_eq!(header.board_dig_in_channels.len(), 3);
    assert_eq!(header.board_dig_out_channels.len(), 1);
    let c = &header.amplifier_channels[1];
    assert_eq!(c.port_name, "Port A");
    assert_eq!(c.port_prefix, "A");
    assert_eq!(c.port_number, 0);
    assert_eq!(c.native_channel_name, "A-001");
    assert_eq!(c.custom_channel_name, "A-001");
    assert_eq!(c.native_order, 1);
    assert_eq!(c.custom_order, 101);
    assert_eq!(c.chip_channel, 7);
    assert_eq!(c.board_stream, 3);
    assert_eq!(f32::from_bits(c.electrode_impedance_magnitude), 1234.5);
    assert_eq!(f32::from_bits(c.electrode_impedance_phase), -0.25);
    let t = header.spike_triggers[0];
    assert_eq!(t.voltage_trigger_mode, 1);
    assert_eq!(t.voltage_threshold, -70);
    assert_eq!(t.digital_trigger_channel, 2);
    assert_eq!(t.digital_edge_polarity, 1);
    assert_eq!(header.board_dig_in_channels[1].native_channel_name, "DIN-2");
    assert_eq!(header.board_dig_in_channels[1].native_order, 2);
    assert_eq!(header.board_dig_out_channels[0].port_name, "DOUT");
}

#[test]
fn disabled_channels_are_dropped() {
    let mut spec = simple_spec(3);
    spec.groups[0].3[1].enabled = 0;
    // A disabled channel may even have an unsupported signal type.
    spec.groups[0].3[1].signal_type = 1;
    let header = parse(&header_bytes(&spec)).unwrap();
    assert_eq!(header.amplifier_channels.len(), 2);
    assert_eq!(header.amplifier_channels[0].native_channel_name, "A-000");
    assert_eq!(header.amplifier_channels[1].native_channel_name, "A-002");
    assert_eq!(header.spike_triggers.len(), 2);
}

#[test]
fn disabled_groups_hold_no_channel_records() {
    let mut spec = simple_spec(1);
    spec.groups.push(("Port B", "B", 0, vec![chan("B-000", 0, 0), chan("B-001", 1, 0)]));
    spec.groups.push(("Port C", "C", 1, vec![chan("C-000", 0, 0)]));
    let header = parse(&header_bytes(&spec)).unwrap();
    assert_eq!(header.amplifier_channels.len(), 2);
    assert_eq!(header.amplifier_channels[1].port_name, "Port C");
}

#[test]
fn unsupported_signal_types_are_refused() {
    for signal_type in [1i16, 2, 7, -1, 100] {
        let mut spec = simple_spec(2);
        spec.groups[0].3[1].signal_type = signal_type;
        let r = load_file(&header_bytes(&spec));
        assert!(matches!(r, Err(IntanError::InvalidChannelType)), "type {}", signal_type);
    }
}

#[test]
fn a_refused_channel_leaves_the_header_as_it_was() {
    let mut header = parse(&header_bytes(&simple_spec(2))).unwrap();
    for (signal_type, expected) in [
        (1i16, IntanError::InvalidChannelType),
        (2, IntanError::InvalidChannelType),
        (7, IntanError::InvalidChannelType),
        (-1, IntanError::InvalidChannelType),
    ] {
        let mut record = Vec::new();
        put_channel(&mut record, &chan("X-000", 5, signal_type));
        let mut reader = ByteReader::new(&record);
        assert_eq!(
            add_channel_information(&mut header, &mut reader, "Port X", "X"),
            Err(expected)
        );
        assert_eq!(header.amplifier_channels.len(), 2);
        assert_eq!(header.spike_triggers.len(), 2);
        assert_eq!(header.board_adc_channels.len(), 0);
        assert_eq!(header.board_dac_channels.len(), 0);
        assert_eq!(header.board_dig_in_channels.len(), 0);
        assert_eq!(header.board_dig_out_channels.len(), 0);
    }

    // A record that is cut short is refused too, and files nothing.
    let mut record = Vec::new();
    put_channel(&mut record, &chan("X-000", 5, 0));
    record.pop();
    let mut reader = ByteReader::new(&record);
    assert_eq!(
        add_channel_information(&mut header, &mut reader, "Port X", "X"),
        Err(IntanError::IoError(IoErrorKind::UnexpectedEof))
    );
    assert_eq!(header.amplifier_channels.len(), 2);
    assert_eq!(header.spike_triggers.len(), 2);

    // A disabled channel of an unsupported type is dropped without an error.
    let mut record = Vec::new();
    put_channel(&mut record, &Chan { name: "X-001", order: 1, signal_type: 2, enabled: 0 });
    let mut reader = ByteReader::new(&record);
    assert_eq!(add_channel_information(&mut header, &mut reader, "Port X", "X"), Ok(()));
    assert_eq!(header.amplifier_channels.len(), 2);

    // An enabled amplifier channel is filed with its trigger.
    let mut record = Vec::new();
    put_channel(&mut record, &chan("X-002", 2, 0));
    let mut reader = ByteReader::new(&record);
    assert_eq!(add_channel_information(&mut header, &mut reader, "Port X", "X"), Ok(()));
    assert_eq!(header.amplifier_channels.len(), 3);
    assert_eq!(header.spike_triggers.len(), 3);
    assert_eq!(header.amplifier_channels[2].native_channel_name, "X-002");
    assert_eq!(header.amplifier_channels[2].port_name, "Port X");
}

#[test]
fn a_block_changes_only_its_own_columns() {
    // Two channels, room for three samples; one sample is read into column 1.
    let mut dest = IntArray2::zeros(2, 3);
    for ch in 0..2 {
        for s in 0..3 {
            dest.set(ch, s, 100 + (ch * 10 + s) as i32);
        }
    }
    let bytes = [0x01u8, 0x00, 0xFE, 0xFF, 0x55];
    let mut reader = ByteReader::new(&bytes);
    assert_eq!(read_analog_signal_type(&mut reader, &mut dest, 1, 1, 2), Ok(()));
    assert_eq!(reader.stream_position(), 4);
    assert_eq!(dest.get(0, 0), Some(100));
    assert_eq!(dest.get(0, 1), Some(1));
    assert_eq!(dest.get(0, 2), Some(102));
    assert_eq!(dest.get(1, 0), Some(110));
    assert_eq!(dest.get(1, 1), Some(-2));
    assert_eq!(dest.get(1, 2), Some(112));

    // A read that fails changes nothing.
    assert_eq!(
        read_analog_signal_type(&mut reader, &mut dest, 0, 1, 2),
        Err(IntanError::IoError(IoErrorKind::UnexpectedEof))
    );
    assert_eq!(dest.get(0, 0), Some(100));
    assert_eq!(dest.get(1, 0), Some(110));

    let mut timestamps = IntArray1::zeros(4);
    for i in 0..4 {
        timestamps.set(i, -7);
    }
    let bytes = [1u8, 0, 0, 0, 2, 0, 0, 0];
    let mut reader = ByteReader::new(&bytes);
    assert_eq!(read_timestamps(&mut reader, &mut timestamps, 1, 2), Ok(()));
    assert_eq!(timestamps.get(0), Some(-7));
    assert_eq!(timestamps.get(1), Some(1));
    assert_eq!(timestamps.get(2), Some(2));
    assert_eq!(timestamps.get(3), Some(-7));

    let mut words = Some(IntArray2::zeros(2, 3));
    let bytes = [0xFFu8, 0xFF];
    let mut reader = ByteReader::new(&bytes);
    assert_eq!(read_digital_signal_type(&mut reader, &mut words, 2, 1), Ok(()));
    let words = words.unwrap();
    for ch in 0..2 {
        assert_eq!(words.get(ch, 0), Some(0));
        assert_eq!(words.get(ch, 1), Some(0));
        assert_eq!(words.get(ch, 2), Some(65535));
    }
}

#[test]
fn header_without_groups_is_read() {
    let spec = Spec { major: 3, notch_mode: 1, dc_saved: 0, groups: vec![] };
    let header = parse(&header_bytes(&spec)).unwrap();
    assert_eq!(header.version.major, 3);
    assert!(header.amplifier_channels.is_empty());
    assert!(header.board_dig_out_channels.is_empty());
}

// ---------------------------------------------------------------------------
// Block layout
// ---------------------------------------------------------------------------

#[test]
fn bytes_per_signal_type_is_the_product() {
    assert_eq!(bytes_per_signal_type(128, 1, 4), 512);
    assert_eq!(bytes_per_signal_type(128, 3, 2), 768);
    assert_eq!(bytes_per_signal_type(128, 0, 2), 0);
    assert_eq!(bytes_per_signal_type(5, 7, 0), 0);
}

#[test]
fn bytes_per_block_follows_the_channel_counts() {
    // No channel at all: the timestamps alone.
    let none = Spec { major: 1, notch_mode: 0, dc_saved: 0, groups: vec![] };
    assert_eq!(get_bytes_per_data_block(&parse(&header_bytes(&none)).unwrap()), Ok(512));
    // One amplifier channel: amplifier and stimulation.
    assert_eq!(
        get_bytes_per_data_block(&parse(&header_bytes(&simple_spec(1))).unwrap()),
        Ok(512 + 2 * 256)
    );
    // Four amplifier channels.
    assert_eq!(
        get_bytes_per_data_block(&parse(&header_bytes(&simple_spec(4))).unwrap()),
        Ok(512 + 4 * 2 * 256)
    );
    // With the DC amplifier saved, three kinds per amplifier channel.
    let mut dc = simple_spec(4);
    dc.dc_saved = 1;
    assert_eq!(
        get_bytes_per_data_block(&parse(&header_bytes(&dc)).unwrap()),
        Ok(512 + 4 * 3 * 256)
    );
    // Every kind: 2 amplifiers with DC, 1 ADC, 1 DAC, digital in and out.
    assert_eq!(
        get_bytes_per_data_block(&parse(&header_bytes(&rich_spec())).unwrap()),
        Ok(512 + 2 * 3 * 256 + 256 + 256 + 256 + 256)
    );
}

#[test]
fn digital_words_do_not_depend_on_the_number_of_lines() {
    let one = Spec {
        major: 1,
        notch_mode: 0,
        dc_saved: 0,
        groups: vec![("DIN", "D", 1, vec![chan("DIN-0", 0, 5)])],
    };
    let three = Spec {
        major: 1,
        notch_mode: 0,
        dc_saved: 0,
        groups: vec![(
            "DIN",
            "D",
            1,
            vec![chan("DIN-0", 0, 5), chan("DIN-1", 1, 5), chan("DIN-2", 2, 5)],
        )],
    };
    assert_eq!(get_bytes_per_data_block(&parse(&header_bytes(&one)).unwrap()), Ok(768));
    assert_eq!(get_bytes_per_data_block(&parse(&header_bytes(&three)).unwrap()), Ok(768));
}

#[test]
fn data_size_is_worked_out_from_the_stream_length() {
    let bytes = header_bytes(&simple_spec(1));
    let mut reader = ByteReader::new(&bytes);
    let header = read_header(&mut reader).unwrap();
    let at = bytes.len() as u64;
    assert_eq!(calculate_data_size(&header, at, &reader), Ok((false, 0, 0)));
    assert_eq!(calculate_data_size(&header, at + 1024, &reader), Ok((true, 1, 128)));
    assert_eq!(calculate_data_size(&header, at + 3 * 1024, &reader), Ok((true, 3, 384)));
    assert_eq!(calculate_data_size(&header, at + 1, &reader), Err(IntanError::FileSizeError));
    assert_eq!(calculate_data_size(&header, at + 1023, &reader), Err(IntanError::FileSizeError));
    assert_eq!(calculate_data_size(&header, at - 1, &reader), Err(IntanError::FileSizeError));
}

#[test]
fn end_of_file_is_checked() {
    let bytes = [0u8; 10];
    let mut reader = ByteReader::new(&bytes);
    reader.take(10).unwrap();
    assert_eq!(check_end_of_file(10, &reader), Ok(()));
    assert_eq!(check_end_of_file(11, &reader), Err(IntanError::FileSizeError));
    assert_eq!(check_end_of_file(9, &reader), Err(IntanError::FileSizeError));
}

#[test]
fn one_extra_byte_is_a_size_error() {
    for blocks in 0..3 {
        let mut bytes = header_bytes(&simple_spec(2));
        put_blocks(&mut bytes, blocks, 2, false, 0, 0, false, false, 0);
        assert!(load_file(&bytes).is_ok());
        bytes.push(0);
        assert!(matches!(load_file(&bytes), Err(IntanError::FileSizeError)), "blocks {}", blocks);
    }
}

// ---------------------------------------------------------------------------
// Data blocks
// ---------------------------------------------------------------------------

#[test]
fn header_only_file_holds_no_data() {
    let file = load_file(&header_bytes(&rich_spec())).unwrap();
    assert!(!file.data_present);
    assert!(file.data.is_none());
    assert!(file.source_files.is_none());
    assert_eq!(file.num_samples(), 0);
}

#[test]
fn blocks_are_deinterleaved_into_raw_matrices() {
    let mut bytes = header_bytes(&rich_spec());
    let start = bytes.len();
    put_blocks(&mut bytes, 2, 2, true, 1, 1, true, true, 500);
    let mut reader = ByteReader::new(&bytes);
    let header = read_header(&mut reader).unwrap();
    assert_eq!(reader.stream_position(), start as u64);
    let raw = read_all_data_blocks(&header, 256, 2, &mut reader).unwrap();
    assert_eq!(reader.stream_position(), bytes.len() as u64);
    assert_eq!(raw.timestamps.len(), 256);
    for s in [0usize, 1, 127, 128, 255] {
        assert_eq!(raw.timestamps.get(s), Some(500 + s as i32));
        let amp = raw.amplifier_data_raw.as_ref().unwrap();
        assert_eq!(amp.dim(), (2, 256));
        assert_eq!(amp.get(0, s), Some(sample_value(1, 0, s as i32) as i32));
        assert_eq!(amp.get(1, s), Some(sample_value(1, 1, s as i32) as i32));
        let dc = raw.dc_amplifier_data_raw.as_ref().unwrap();
        assert_eq!(dc.get(1, s), Some(sample_value(2, 1, s as i32) as i32));
        let stim = raw.stim_data_raw.as_ref().unwrap();
        assert_eq!(stim.get(0, s), Some(sample_value(3, 0, s as i32) as i32));
        let adc = raw.board_adc_data_raw.as_ref().unwrap();
        assert_eq!(adc.dim(), (1, 256));
        assert_eq!(adc.get(0, s), Some(sample_value(4, 0, s as i32) as i32));
        let dac = raw.board_dac_data_raw.as_ref().unwrap();
        assert_eq!(dac.get(0, s), Some(sample_value(5, 0, s as i32) as i32));
        let din = raw.board_dig_in_raw.as_ref().unwrap();
        assert_eq!(din.dim(), (3, 256));
        for row in 0..3 {
            assert_eq!(din.get(row, s), Some((s % 8) as i32));
        }
        let dout = raw.board_dig_out_raw.as_ref().unwrap();
        assert_eq!(dout.dim(), (1, 256));
        // The shared word is unsigned.
        assert_eq!(dout.get(0, s), Some(0x8008));
    }
}

#[test]
fn absent_kinds_have_no_raw_matrix() {
    let mut bytes = header_bytes(&simple_spec(1));
    put_blocks(&mut bytes, 1, 1, false, 0, 0, false, false, 0);
    let mut reader = ByteReader::new(&bytes);
    let header = read_header(&mut reader).unwrap();
    let raw = read_all_data_blocks(&header, 128, 1, &mut reader).unwrap();
    assert!(raw.amplifier_data_raw.is_some());
    assert!(raw.stim_data_raw.is_some());
    assert!(raw.dc_amplifier_data_raw.is_none());
    assert!(raw.board_adc_data_raw.is_none());
    assert!(raw.board_dac_data_raw.is_none());
    assert!(raw.board_dig_in_raw.is_none());
    assert!(raw.board_dig_out_raw.is_none());
}

#[test]
fn missing_block_is_an_io_error() {
    let mut bytes = header_bytes(&simple_spec(1));
    put_blocks(&mut bytes, 1, 1, false, 0, 0, false, false, 0);
    let mut reader = ByteReader::new(&bytes);
    let header = read_header(&mut reader).unwrap();
    let r = read_all_data_blocks(&header, 256, 2, &mut reader);
    assert!(matches!(r, Err(IntanError::IoError(IoErrorKind::UnexpectedEof))));
}

#[test]
fn loaded_file_holds_scaled_signals() {
    let mut bytes = header_bytes(&rich_spec());
    put_blocks(&mut bytes, 2, 2, true, 1, 1, true, true, 0);
    let file = load_file(&bytes).unwrap();
    assert!(file.data_present);
    assert!(file.source_files.is_none());
    assert_eq!(file.num_samples(), 256);
    let data = file.data.as_ref().unwrap();
    for s in [0usize, 5, 128, 255] {
        assert_eq!(data.timestamps.get(s), Some(s as i32));
        let amp_code = sample_value(1, 1, s as i32) as i32;
        assert_eq!(
            data.amplifier_data.as_ref().unwrap().get(1, s),
            Some((amp_code - 32768) * 195)
        );
        let dc_code = sample_value(2, 0, s as i32) as i32;
        assert_eq!(
            data.dc_amplifier_data.as_ref().unwrap().get(0, s),
            Some((dc_code - 512) * 1923)
        );
        let adc_code = sample_value(4, 0, s as i32) as i32;
        assert_eq!(
            data.board_adc_data.as_ref().unwrap().get(0, s),
            Some((adc_code - 32768) * 3125)
        );
        let dac_code = sample_value(5, 0, s as i32) as i32;
        assert_eq!(
            data.board_dac_data.as_ref().unwrap().get(0, s),
            Some((dac_code - 32768) * 3125)
        );
        // Digital inputs: channels with native orders 0, 2 and 1.
        let word = (s % 8) as i32;
        let din = data.board_dig_in_data.as_ref().unwrap();
        assert_eq!(din.get(0, s), Some(word & 1));
        assert_eq!(din.get(1, s), Some((word >> 2) & 1));
        assert_eq!(din.get(2, s), Some((word >> 1) & 1));
        // Digital output: the channel with native order 3 of the word 0x8008.
        assert_eq!(data.board_dig_out_data.as_ref().unwrap().get(0, s), Some(1));
    }
    assert_eq!(data.amplifier_data.as_ref().unwrap().dim(), (2, 256));
    assert_eq!(data.stim_data.as_ref().unwrap().dim(), (2, 256));
    assert_eq!(data.compliance_limit_data.as_ref().unwrap().dim(), (2, 256));
    assert_eq!(data.charge_recovery_data.as_ref().unwrap().dim(), (2, 256));
    assert_eq!(data.amp_settle_data.as_ref().unwrap().dim(), (2, 256));
    assert_eq!(data.board_dig_in_data.as_ref().unwrap().dim(), (3, 256));
}
