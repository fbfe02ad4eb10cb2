use intan_importer::arrays::{shape_fits_exec, BoolArray2, IntArray1, IntArray2};
use intan_importer::signal::{
    apply_notch_filter, check_timestamps, extract_digital_data, extract_stim_data,
    scale_adc_data, scale_amplifier_data, scale_dac_data, scale_dc_amplifier_data,
};
use intan_importer::types::{
    ChannelInfo, FrequencyParameters, IntanError, IoErrorKind, Notes, RhsHeader, StimParameters,
    Version,
};

fn matrix(rows: &[&[i32]]) -> IntArray2 {
    let cols = if rows.is_empty() { 0 } else { rows[0].len() };
    let mut m = IntArray2::zeros(rows.len(), cols);
    for (r, row) in rows.iter().enumerate() {
        for (c, v) in row.iter().enumerate() {
            m.set(r, c, *v);
        }
    }
    m
}

fn series(values: &[i32]) -> IntArray1 {
    let mut a = IntArray1::zeros(values.len());
    for (i, v) in values.iter().enumerate() {
        a.set(i, *v);
    }
    a
}

fn channel(order: i32) -> ChannelInfo {
    ChannelInfo {
        port_name: String::new(),
        port_prefix: String::new(),
        port_number: 0,
        native_channel_name: String::new(),
        custom_channel_name: String::new(),
        native_order: order,
        custom_order: 0,
        chip_channel: 0,
        board_stream: 0,
        electrode_impedance_magnitude: 0,
        electrode_impedance_phase: 0,
    }
}

fn header(major: i32, notch: Option<i32>) -> RhsHeader {
    RhsHeader {
        version: Version { major, minor: 0 },
        sample_rate: 0,
        num_samples_per_data_block: 128,
        dsp_enabled: 0,
        actual_dsp_cutoff_frequency: 0,
        actual_lower_bandwidth: 0,
        actual_lower_settle_bandwidth: 0,
        actual_upper_bandwidth: 0,
        desired_dsp_cutoff_frequency: 0,
        desired_lower_bandwidth: 0,
        desired_lower_settle_bandwidth: 0,
        desired_upper_bandwidth: 0,
        notch_filter_frequency: notch,
        desired_impedance_test_frequency: 0,
        actual_impedance_test_frequency: 0,
        amp_settle_mode: 0,
        charge_recovery_mode: 0,
        stim_step_size: 0,
        recovery_current_limit: 0,
        recovery_target_voltage: 0,
        notes: Notes { note1: String::new(), note2: String::new(), note3: String::new() },
        dc_amplifier_data_saved: false,
        eval_board_mode: 0,
        reference_channel: String::new(),
        amplifier_channels: Vec::new(),
        spike_triggers: Vec::new(),
        board_adc_channels: Vec::new(),
        board_dac_channels: Vec::new(),
        board_dig_in_channels: Vec::new(),
        board_dig_out_channels: Vec::new(),
        frequency_parameters: FrequencyParameters {
            amplifier_sample_rate: 0,
            board_adc_sample_rate: 0,
            board_dig_in_sample_rate: 0,
            desired_dsp_cutoff_frequency: 0,
            actual_dsp_cutoff_frequency: 0,
            dsp_enabled: 0,
            desired_lower_bandwidth: 0,
            desired_lower_settle_bandwidth: 0,
            actual_lower_bandwidth: 0,
            actual_lower_settle_bandwidth: 0,
            desired_upper_bandwidth: 0,
            actual_upper_bandwidth: 0,
            notch_filter_frequency: notch,
            desired_impedance_test_frequency: 0,
            actual_impedance_test_frequency: 0,
        },
        stim_parameters: StimParameters {
            stim_step_size: 0,
            charge_recovery_current_limit: 0,
            charge_recovery_target_voltage: 0,
            amp_settle_mode: 0,
            charge_recovery_mode: 0,
        },
    }
}

// ---------------------------------------------------------------------------
// Arrays
// ---------------------------------------------------------------------------

#[test]
fn int_matrix_keeps_what_is_stored() {
    let mut m = IntArray2::zeros(2, 3);
    assert_eq!(m.dim(), (2, 3));
    assert_eq!(m.get(1, 2), Some(0));
    m.set(1, 2, 42);
    m.set(0, 0, -7);
    assert_eq!(m.get(1, 2), Some(42));
    assert_eq!(m.at(0, 0), -7);
    assert_eq!(m.get(0, 1), Some(0));
    assert_eq!(m.get(2, 0), None);
    assert_eq!(m.get(0, 3), None);
}

#[test]
fn int_matrices_are_joined_row_by_row() {
    let a = matrix(&[&[1, 2], &[3, 4]]);
    let b = matrix(&[&[5, 6, 7], &[8, 9, 10]]);
    let c = a.concat(&b).unwrap();
    assert_eq!(c.dim(), (2, 5));
    let expected = [[1, 2, 5, 6, 7], [3, 4, 8, 9, 10]];
    for r in 0..2 {
        for col in 0..5 {
            assert_eq!(c.get(r, col), Some(expected[r][col]));
        }
    }
    let d = matrix(&[&[1, 2, 3]]);
    assert!(a.concat(&d).is_none());
}

#[test]
fn bool_matrix_keeps_what_is_stored() {
    let mut m = BoolArray2::from_elem(2, 2, false);
    assert_eq!(m.dim(), (2, 2));
    assert_eq!(m.get(0, 1), Some(false));
    m.set(0, 1, true);
    assert_eq!(m.get(0, 1), Some(true));
    assert_eq!(m.get(1, 1), Some(false));
    assert_eq!(m.get(2, 1), None);
    let t = BoolArray2::from_elem(2, 1, true);
    let c = m.concat(&t).unwrap();
    assert_eq!(c.dim(), (2, 3));
    assert_eq!(c.get(0, 0), Some(false));
    assert_eq!(c.get(0, 1), Some(true));
    assert_eq!(c.get(0, 2), Some(true));
    assert_eq!(c.get(1, 2), Some(true));
    assert!(m.concat(&BoolArray2::from_elem(1, 1, true)).is_none());
}

#[test]
fn int_series_keeps_what_is_stored() {
    let mut a = IntArray1::zeros(3);
    assert_eq!(a.len(), 3);
    a.set(1, 9);
    assert_eq!(a.get(0), Some(0));
    assert_eq!(a.at(1), 9);
    assert_eq!(a.get(3), None);
    let b = series(&[4, 5]);
    let c = a.concat(&b);
    assert_eq!(c.len(), 5);
    assert_eq!(
        (0..5).map(|i| c.at(i)).collect::<Vec<i32>>(),
        vec![0, 9, 0, 4, 5]
    );
}

#[test]
fn a_cloned_array_is_a_copy_of_its_own() {
    let mut m = matrix(&[&[1, 2, 3], &[4, 5, 6]]);
    let copy = m.clone();
    m.set(0, 0, 99);
    assert_eq!(copy.dim(), (2, 3));
    assert_eq!(copy.get(0, 0), Some(1));
    assert_eq!(copy.get(1, 2), Some(6));
    assert_eq!(m.get(0, 0), Some(99));

    let mut flags = BoolArray2::from_elem(1, 2, false);
    flags.set(0, 1, true);
    let flags_copy = flags.clone();
    flags.set(0, 0, true);
    assert_eq!(flags_copy.dim(), (1, 2));
    assert_eq!(flags_copy.get(0, 0), Some(false));
    assert_eq!(flags_copy.get(0, 1), Some(true));

    let mut s = series(&[7, 8, 9]);
    let s_copy = s.clone();
    s.set(2, 0);
    assert_eq!(s_copy.len(), 3);
    assert_eq!(s_copy.get(2), Some(9));
    assert_eq!(s.get(2), Some(0));
}

#[test]
fn shapes_that_overflow_do_not_fit() {
    assert!(shape_fits_exec(0, 0));
    assert!(shape_fits_exec(16, 1_000_000));
    assert!(!shape_fits_exec(usize::MAX, 2));
    assert!(!shape_fits_exec(usize::MAX / 2, 1));
    assert!(!shape_fits_exec(0, usize::MAX));
}

// ---------------------------------------------------------------------------
// Scaling
// ---------------------------------------------------------------------------

#[test]
fn amplifier_code_32768_is_zero_volts() {
    // The code 32768 was read as the signed value -32768.
    let out = scale_amplifier_data(&matrix(&[&[-32768]]));
    assert_eq!(out.get(0, 0), Some(0));
}

#[test]
fn amplifier_code_32968_is_39_microvolts() {
    // The code 32968 was read as the signed value 32968 - 65536.
    let out = scale_amplifier_data(&matrix(&[&[32968 - 65536]]));
    assert_eq!(out.get(0, 0), Some(39_000));
}

#[test]
fn negative_amplifier_samples_are_reinterpreted_as_unsigned() {
    // -200 stands for the code 65336, which is 32568 steps above the centre.
    let out = scale_amplifier_data(&matrix(&[&[-200, -1, 0, 1, 32767, -32767]]));
    assert_eq!(out.dim(), (1, 6));
    assert_eq!(out.get(0, 0), Some(32568 * 195));
    assert_eq!(out.get(0, 1), Some(32767 * 195));
    assert_eq!(out.get(0, 2), Some(-32768 * 195));
    assert_eq!(out.get(0, 3), Some(-32767 * 195));
    assert_eq!(out.get(0, 4), Some(-195));
    assert_eq!(out.get(0, 5), Some(195));
}

#[test]
fn amplifier_scaling_covers_every_code() {
    for code in (0..65536).step_by(257) {
        let stored = if code >= 32768 { code - 65536 } else { code };
        let out = scale_amplifier_data(&matrix(&[&[stored]]));
        assert_eq!(out.get(0, 0), Some((code - 32768) * 195));
        // 0.195 microvolts per step.
        let microvolts = out.get(0, 0).unwrap() as f64 / 1000.0;
        assert!((microvolts - (code as f64 - 32768.0) * 0.195).abs() < 1e-6);
    }
}

#[test]
fn dc_amplifier_is_scaled_from_512() {
    let out = scale_dc_amplifier_data(&matrix(&[&[512, 513, 0, 1023], &[-1, 511, 612, 0]]));
    assert_eq!(out.dim(), (2, 4));
    assert_eq!(out.get(0, 0), Some(0));
    assert_eq!(out.get(0, 1), Some(1923));
    assert_eq!(out.get(0, 2), Some(-512 * 1923));
    assert_eq!(out.get(0, 3), Some(511 * 1923));
    assert_eq!(out.get(1, 0), Some((65535 - 512) * 1923));
    assert_eq!(out.get(1, 1), Some(-1923));
    // 100 steps are 1.923 volts, with a positive sign.
    assert_eq!(out.get(1, 2), Some(192_300));
}

#[test]
fn adc_and_dac_are_scaled_alike() {
    let raw = matrix(&[&[-32768, -32767, 0, 32767, -1]]);
    let adc = scale_adc_data(&raw);
    let dac = scale_dac_data(&raw);
    let expected = [0, 3125, -32768 * 3125, -3125, 32767 * 3125];
    for (i, e) in expected.iter().enumerate() {
        assert_eq!(adc.get(0, i), Some(*e));
        assert_eq!(dac.get(0, i), Some(*e));
    }
}

#[test]
fn scaling_an_empty_matrix_gives_an_empty_matrix() {
    let out = scale_amplifier_data(&IntArray2::zeros(0, 0));
    assert_eq!(out.dim(), (0, 0));
    let out = scale_adc_data(&IntArray2::zeros(3, 0));
    assert_eq!(out.dim(), (3, 0));
}

// ---------------------------------------------------------------------------
// Stimulation words
// ---------------------------------------------------------------------------

#[test]
fn stim_word_is_unpacked() {
    // 0b1000001100000101 read as a signed 16-bit value
    let word = 0b1000_0011_0000_0101u16 as i16 as i32;
    let (steps, compliance, recovery, settle) = extract_stim_data(&matrix(&[&[word]]));
    assert_eq!(compliance.get(0, 0), Some(true));
    assert_eq!(recovery.get(0, 0), Some(false));
    assert_eq!(settle.get(0, 0), Some(false));
    assert_eq!(steps.get(0, 0), Some(-5));
    // With a step size of 10 the current is -50.
    assert_eq!(steps.get(0, 0).unwrap() as f32 * 10.0, -50.0);
}

#[test]
fn stim_flags_follow_their_bits() {
    let words: [i32; 6] = [
        0x0000,
        0x00FF,
        0x01FF,
        0x4000,
        0x2000,
        0xE17Fu16 as i16 as i32,
    ];
    let (steps, compliance, recovery, settle) = extract_stim_data(&matrix(&[&words]));
    let expected_steps = [0, 255, -255, 0, 0, -127];
    let expected_compliance = [false, false, false, false, false, true];
    let expected_recovery = [false, false, false, true, false, true];
    let expected_settle = [false, false, false, false, true, true];
    for i in 0..6 {
        assert_eq!(steps.get(0, i), Some(expected_steps[i]), "word {}", i);
        assert_eq!(compliance.get(0, i), Some(expected_compliance[i]), "word {}", i);
        assert_eq!(recovery.get(0, i), Some(expected_recovery[i]), "word {}", i);
        assert_eq!(settle.get(0, i), Some(expected_settle[i]), "word {}", i);
    }
}

#[test]
fn stim_outputs_have_the_shape_of_the_input() {
    let (steps, compliance, recovery, settle) =
        extract_stim_data(&matrix(&[&[1, 2, 3], &[4, 5, 6]]));
    assert_eq!(steps.dim(), (2, 3));
    assert_eq!(compliance.dim(), (2, 3));
    assert_eq!(recovery.dim(), (2, 3));
    assert_eq!(settle.dim(), (2, 3));
    assert_eq!(steps.get(1, 2), Some(6));
}

// ---------------------------------------------------------------------------
// Digital lines
// ---------------------------------------------------------------------------

#[test]
fn digital_word_is_unpacked_by_native_order() {
    let raw = matrix(&[&[0b101], &[0b101], &[0b101]]);
    let channels = vec![channel(0), channel(2), channel(1)];
    let out = extract_digital_data(&raw, &channels).unwrap();
    assert_eq!(out.dim(), (3, 1));
    assert_eq!(out.get(0, 0), Some(1));
    assert_eq!(out.get(1, 0), Some(1));
    assert_eq!(out.get(2, 0), Some(0));
}

#[test]
fn digital_lines_follow_the_words_of_each_sample() {
    let raw = matrix(&[&[0, 1, 2, 3, 0x8000, 0xFFFF]]);
    let channels = vec![channel(0), channel(1), channel(15)];
    let out = extract_digital_data(&raw, &channels).unwrap();
    assert_eq!(out.dim(), (3, 6));
    let expected = [[0, 1, 0, 1, 0, 1], [0, 0, 1, 1, 0, 1], [0, 0, 0, 0, 1, 1]];
    for r in 0..3 {
        for c in 0..6 {
            assert_eq!(out.get(r, c), Some(expected[r][c]), "row {} column {}", r, c);
        }
    }
}

#[test]
fn digital_line_outside_the_word_reads_as_zero() {
    let raw = matrix(&[&[0xFFFF, 1]]);
    let channels = vec![channel(16), channel(31), channel(32), channel(-1)];
    let out = extract_digital_data(&raw, &channels).unwrap();
    for r in 0..4 {
        assert_eq!(out.get(r, 0), Some(0));
        assert_eq!(out.get(r, 1), Some(0));
    }
}

// ---------------------------------------------------------------------------
// Timestamps and the notch filter
// ---------------------------------------------------------------------------

#[test]
fn consecutive_timestamps_have_no_gap() {
    assert_eq!(check_timestamps(&series(&[5, 6, 7, 8])), 0);
    assert_eq!(check_timestamps(&series(&[])), 0);
    assert_eq!(check_timestamps(&series(&[3])), 0);
    assert_eq!(check_timestamps(&series(&[-2, -1, 0, 1])), 0);
}

#[test]
fn gaps_in_timestamps_are_counted() {
    assert_eq!(check_timestamps(&series(&[0, 1, 3, 4, 4, 5, 2])), 3);
    assert_eq!(check_timestamps(&series(&[i32::MIN, i32::MAX])), 1);
    assert_eq!(check_timestamps(&series(&[i32::MAX, i32::MIN])), 1);
}

#[test]
fn notch_filter_is_applied_to_old_files_only() {
    assert_eq!(apply_notch_filter(&header(1, Some(50))), Some(50));
    assert_eq!(apply_notch_filter(&header(2, Some(60))), Some(60));
    assert_eq!(apply_notch_filter(&header(3, Some(60))), None);
    assert_eq!(apply_notch_filter(&header(4, Some(50))), None);
    assert_eq!(apply_notch_filter(&header(1, None)), None);
    assert_eq!(apply_notch_filter(&header(3, None)), None);
}

// ---------------------------------------------------------------------------
// Errors
// ---------------------------------------------------------------------------

#[test]
fn errors_describe_themselves() {
    assert_eq!(IntanError::UnrecognizedFileFormat.to_string(), "Unrecognized file format");
    assert_eq!(IntanError::InvalidChannelType.to_string(), "Invalid channel type");
    assert_eq!(IntanError::FileSizeError.to_string(), "File size error");
    assert_eq!(IntanError::StringReadError.to_string(), "Error reading string from file");
    assert_eq!(IntanError::ChannelNotFound.to_string(), "Channel not found");
    assert_eq!(
        IntanError::IoError(IoErrorKind::UnexpectedEof).to_string(),
        "IO error: failed to fill whole buffer"
    );
    assert_eq!(IntanError::Other("anything".to_string()).to_string(), "anything");
}
