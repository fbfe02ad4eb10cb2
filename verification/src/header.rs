//! Parsing of the file header and its channel catalog.
//!
//! What a header says is defined by specification functions on the bytes of
//! the stream; the parsing functions are proved to return exactly that. A
//! function that reads fixed-size fields or notes leaves the header as it was
//! when the stream ends early, and the functions that read the channel
//! catalog only ever add channels.

use crate::types::{
    channel_views, ChannelInfo, ChannelInfoView, FrequencyParameters, IntanError, IoErrorKind,
    Notes, NotesView, RhsHeader, RhsHeaderView, SpikeTrigger, StimParameters, Version,
};
use crate::wire::{has_bytes, le_i16, le_u16, le_u32, ByteReader};
use vstd::prelude::*;

verus! {

/// The four bytes, read as a little-endian integer, that open every file.
pub const RHS_MAGIC_NUMBER: u32 = 0xd69127ac;

/// The length prefix that stands for an empty string.
pub const EMPTY_STRING_MARK: u32 = 0xFFFF_FFFF;

/// Whether `code` is a Unicode scalar value: a code point that is not a
/// surrogate.
pub open spec fn is_scalar_value(code: int) -> bool {
    0 <= code <= 0xD7FF || 0xE000 <= code <= 0x10FFFF
}

/// `char::from_u32` returns the character with the given code, and `None`
/// exactly for the codes that are no Unicode scalar value.
pub assume_specification[ char::from_u32 ](code: u32) -> (r: Option<char>)
    ensures
        r is Some <==> is_scalar_value(code as int),
        r matches Some(c) ==> c as u32 == code,
;

/// `String::push` appends one character.
pub assume_specification[ String::push ](s: &mut String, ch: char)
    ensures
        final(s)@ == old(s)@.push(ch),
;

// ---------------------------------------------------------------------------
// Tagged strings
// ---------------------------------------------------------------------------

/// The 16-bit code unit number `k` of a string whose length prefix is at
/// `pos`.
pub open spec fn code_unit(bytes: Seq<u8>, pos: int, k: int) -> int {
    le_u16(bytes, pos + 4 + 2 * k)
}

/// The character whose code is `code`.
pub open spec fn char_of_code(code: int) -> char {
    (code as u32) as char
}

/// What reading a tagged string at `pos` gives: the text and the position
/// after it, or the error.
///
/// A tagged string is a 32-bit length in bytes followed by that many bytes of
/// 16-bit code units. The length `0xFFFFFFFF` stands for the empty string. A
/// length beyond the bytes that remain, or a code unit that is no character by
/// itself, makes the string unreadable.
pub open spec fn spec_qstring(bytes: Seq<u8>, pos: int) -> Result<(Seq<char>, int), IntanError> {
    if !has_bytes(bytes, pos, 4) {
        Err(IntanError::IoError(IoErrorKind::UnexpectedEof))
    } else {
        let declared = le_u32(bytes, pos);
        let units = declared / 2;
        if declared == EMPTY_STRING_MARK {
            Ok((Seq::empty(), pos + 4))
        } else if declared > bytes.len() - (pos + 4) {
            Err(IntanError::StringReadError)
        } else if exists|k: int| 0 <= k < units && !is_scalar_value(code_unit(bytes, pos, k)) {
            Err(IntanError::StringReadError)
        } else {
            Ok(
                (
                    Seq::new(units as nat, |k: int| char_of_code(code_unit(bytes, pos, k))),
                    pos + 4 + 2 * units,
                ),
            )
        }
    }
}

/// Where reading a tagged string at `pos` stops when it fails: where it
/// started if the length is not all there, after the length if that is more
/// than what remains, and after the code units if one of them is no
/// character by itself.
pub open spec fn spec_qstring_stop(bytes: Seq<u8>, pos: int) -> int {
    if !has_bytes(bytes, pos, 4) {
        pos
    } else if le_u32(bytes, pos) > bytes.len() - (pos + 4) {
        pos + 4
    } else {
        pos + 4 + 2 * (le_u32(bytes, pos) / 2)
    }
}

/// Reads a tagged string.
pub fn read_qstring(reader: &mut ByteReader) -> (r: Result<String, IntanError>)
    ensures
        final(reader).bytes@ == old(reader).bytes@,
        match spec_qstring(old(reader).bytes@, old(reader).pos as int) {
            Ok((text, next)) => r matches Ok(s) && s@ == text && final(reader).pos == next,
            Err(e) => r == Err::<String, IntanError>(e) && final(reader).pos == spec_qstring_stop(
                old(reader).bytes@,
                old(reader).pos as int,
            ),
        },
{
    let ghost bytes = reader.bytes@;
    let ghost start = reader.pos as int;
    let declared: u32 = reader.read_u32()?;
    if declared == EMPTY_STRING_MARK {
        return Ok(String::new());
    }
    // The declared length must not exceed what is left of the stream.
    let total: usize = reader.bytes.len();
    if declared as u64 > (total - reader.pos) as u64 {
        return Err(IntanError::StringReadError);
    }
    let length: usize = (declared / 2) as usize;

    let mut data: Vec<u16> = Vec::with_capacity(length);
    let mut i: usize = 0;
    while i < length
        invariant
            bytes == old(reader).bytes@,
            start == old(reader).pos,
            reader.bytes@ == bytes,
            has_bytes(bytes, start, 4),
            declared as int == le_u32(bytes, start),
            declared <= bytes.len() - (start + 4),
            length == declared / 2,
            i <= length,
            reader.pos == start + 4 + 2 * i,
            data@.len() == i,
            forall|k: int| 0 <= k < i ==> data@[k] as int == code_unit(bytes, start, k),
        decreases length - i,
    {
        match reader.read_u16() {
            Ok(unit) => {
                data.push(unit);
            },
            Err(e) => {
                return Err(e);
            },
        }
        i = i + 1;
    }

    let mut result: String = String::new();
    let mut j: usize = 0;
    while j < length
        invariant
            bytes == old(reader).bytes@,
            start == old(reader).pos,
            reader.bytes@ == bytes,
            has_bytes(bytes, start, 4),
            declared as int == le_u32(bytes, start),
            declared != EMPTY_STRING_MARK,
            declared <= bytes.len() - (start + 4),
            length == declared / 2,
            reader.pos == start + 4 + 2 * length,
            j <= length,
            data@.len() == length,
            result@.len() == j,
            forall|k: int| 0 <= k < length ==> data@[k] as int == code_unit(bytes, start, k),
            forall|k: int| 0 <= k < j ==> is_scalar_value(code_unit(bytes, start, k)),
            forall|k: int| 0 <= k < j ==> result@[k] == char_of_code(code_unit(bytes, start, k)),
        decreases length - j,
    {
        match char::from_u32(data[j] as u32) {
            Some(ch) => {
                proof {
                    vstd::utf8::char_u32_cast(ch, data[j as int] as u32);
                }
                result.push(ch);
            },
            None => {
                assert(!is_scalar_value(code_unit(bytes, start, j as int)));
                return Err(IntanError::StringReadError);
            },
        }
        j = j + 1;
    }
    assert(result@ =~= Seq::new(
        length as nat,
        |k: int| char_of_code(code_unit(bytes, start, k)),
    ));
    Ok(result)
}

// ---------------------------------------------------------------------------
// Channel records
// ---------------------------------------------------------------------------

/// One channel record of the catalog, as read, before it is filed.
pub struct ChannelRecord {
    /// The description of the channel
    pub channel: ChannelInfoView,
    /// Its spike trigger settings
    pub trigger: SpikeTrigger,
    /// The code of its signal type
    pub signal_type: int,
    /// Whether the channel is enabled
    pub enabled: bool,
}

/// The channel record whose fixed-size part starts at `pos`, given the names
/// that were read before it.
pub open spec fn channel_record_at(
    bytes: Seq<u8>,
    pos: int,
    port_name: Seq<char>,
    port_prefix: Seq<char>,
    native_name: Seq<char>,
    custom_name: Seq<char>,
) -> ChannelRecord {
    ChannelRecord {
        channel: ChannelInfoView {
            port_name,
            port_prefix,
            port_number: 0,
            native_channel_name: native_name,
            custom_channel_name: custom_name,
            native_order: le_i16(bytes, pos) as i32,
            custom_order: le_i16(bytes, pos + 2) as i32,
            chip_channel: le_i16(bytes, pos + 8) as i32,
            board_stream: le_i16(bytes, pos + 12) as i32,
            electrode_impedance_magnitude: le_u32(bytes, pos + 22) as u32,
            electrode_impedance_phase: le_u32(bytes, pos + 26) as u32,
        },
        trigger: SpikeTrigger {
            voltage_trigger_mode: le_i16(bytes, pos + 14) as i32,
            voltage_threshold: le_i16(bytes, pos + 16) as i32,
            digital_trigger_channel: le_i16(bytes, pos + 18) as i32,
            digital_edge_polarity: le_i16(bytes, pos + 20) as i32,
        },
        signal_type: le_i16(bytes, pos + 4),
        enabled: le_i16(bytes, pos + 6) != 0,
    }
}

/// What reading one channel record at `pos` gives: the record and the
/// position after it, or the error.
///
/// A record is two tagged strings (native and custom name) followed by
/// thirty bytes: native order, custom order, signal type, enabled flag, chip
/// channel, a reserved word, board stream, the four spike trigger fields (all
/// 16-bit), and impedance magnitude and phase (32-bit each).
pub open spec fn spec_channel_record(
    bytes: Seq<u8>,
    pos: int,
    port_name: Seq<char>,
    port_prefix: Seq<char>,
) -> Result<(ChannelRecord, int), IntanError> {
    match spec_qstring(bytes, pos) {
        Err(e) => Err(e),
        Ok((native_name, custom_at)) => match spec_qstring(bytes, custom_at) {
            Err(e) => Err(e),
            Ok((custom_name, fields_at)) => if !has_bytes(bytes, fields_at, 30) {
                Err(IntanError::IoError(IoErrorKind::UnexpectedEof))
            } else {
                Ok(
                    (
                        channel_record_at(
                            bytes,
                            fields_at,
                            port_name,
                            port_prefix,
                            native_name,
                            custom_name,
                        ),
                        fields_at + 30,
                    ),
                )
            },
        },
    }
}

/// The header after `record` has been filed.
///
/// A disabled channel is dropped. An enabled one goes to the list of its
/// signal type: 0 amplifier (with its spike trigger), 3 board ADC, 4 board
/// DAC, 5 digital input, 6 digital output. Any other signal type is refused.
pub open spec fn spec_file_channel(header: RhsHeaderView, record: ChannelRecord) -> Result<
    RhsHeaderView,
    IntanError,
> {
    if !record.enabled {
        Ok(header)
    } else if record.signal_type == 0 {
        Ok(
            RhsHeaderView {
                amplifier_channels: header.amplifier_channels.push(record.channel),
                spike_triggers: header.spike_triggers.push(record.trigger),
                ..header
            },
        )
    } else if record.signal_type == 3 {
        Ok(
            RhsHeaderView {
                board_adc_channels: header.board_adc_channels.push(record.channel),
                ..header
            },
        )
    } else if record.signal_type == 4 {
        Ok(
            RhsHeaderView {
                board_dac_channels: header.board_dac_channels.push(record.channel),
                ..header
            },
        )
    } else if record.signal_type == 5 {
        Ok(
            RhsHeaderView {
                board_dig_in_channels: header.board_dig_in_channels.push(record.channel),
                ..header
            },
        )
    } else if record.signal_type == 6 {
        Ok(
            RhsHeaderView {
                board_dig_out_channels: header.board_dig_out_channels.push(record.channel),
                ..header
            },
        )
    } else {
        Err(IntanError::InvalidChannelType)
    }
}

/// Whether `longer` starts with the elements of `shorter`.
pub open spec fn starts_with<T>(longer: Seq<T>, shorter: Seq<T>) -> bool {
    &&& shorter.len() <= longer.len()
    &&& forall|i: int| 0 <= i < shorter.len() ==> longer[i] == shorter[i]
}

/// Whether `after` is `before` with channels added and nothing else changed:
/// every list starts with what it held before, as many spike triggers were
/// added as amplifier channels, and all other fields are the same.
pub open spec fn only_channels_added(after: RhsHeaderView, before: RhsHeaderView) -> bool {
    &&& after == (RhsHeaderView {
        amplifier_channels: after.amplifier_channels,
        spike_triggers: after.spike_triggers,
        board_adc_channels: after.board_adc_channels,
        board_dac_channels: after.board_dac_channels,
        board_dig_in_channels: after.board_dig_in_channels,
        board_dig_out_channels: after.board_dig_out_channels,
        ..before
    })
    &&& starts_with(after.amplifier_channels, before.amplifier_channels)
    &&& starts_with(after.spike_triggers, before.spike_triggers)
    &&& starts_with(after.board_adc_channels, before.board_adc_channels)
    &&& starts_with(after.board_dac_channels, before.board_dac_channels)
    &&& starts_with(after.board_dig_in_channels, before.board_dig_in_channels)
    &&& starts_with(after.board_dig_out_channels, before.board_dig_out_channels)
    &&& after.amplifier_channels.len() - before.amplifier_channels.len()
        == after.spike_triggers.len() - before.spike_triggers.len()
}

/// Filing a channel adds at most that channel, and nothing else changes.
pub proof fn lemma_filing_only_adds(header: RhsHeaderView, record: ChannelRecord)
    ensures
        spec_file_channel(header, record) matches Ok(filed) ==> only_channels_added(filed, header),
{
}

/// Channels added after channels were added are channels added.
pub proof fn lemma_adding_goes_on(
    last: RhsHeaderView,
    middle: RhsHeaderView,
    first: RhsHeaderView,
)
    requires
        only_channels_added(middle, first),
        only_channels_added(last, middle),
    ensures
        only_channels_added(last, first),
{
}

/// Adding channels keeps a header consistent: no list shrinks, and every
/// amplifier channel still has its spike trigger.
pub proof fn lemma_adding_keeps_consistency(after: RhsHeaderView, before: RhsHeaderView)
    requires
        only_channels_added(after, before),
    ensures
        before.consistent() ==> after.consistent(),
        before.spike_triggers.len() == before.amplifier_channels.len()
            ==> after.spike_triggers.len() == after.amplifier_channels.len(),
        after.amplifier_channels.len() >= before.amplifier_channels.len(),
        after.spike_triggers.len() >= before.spike_triggers.len(),
        after.board_adc_channels.len() >= before.board_adc_channels.len(),
        after.board_dac_channels.len() >= before.board_dac_channels.len(),
        after.board_dig_in_channels.len() >= before.board_dig_in_channels.len(),
        after.board_dig_out_channels.len() >= before.board_dig_out_channels.len(),
{
}

/// What reading and filing one channel record at `pos` gives: the header
/// with the channel filed and the position after the record, or the error.
pub open spec fn spec_add_channel(
    bytes: Seq<u8>,
    pos: int,
    header: RhsHeaderView,
    port_name: Seq<char>,
    port_prefix: Seq<char>,
) -> Result<(RhsHeaderView, int), IntanError> {
    match spec_channel_record(bytes, pos, port_name, port_prefix) {
        Err(e) => Err(e),
        Ok((record, next)) => match spec_file_channel(header, record) {
            Err(e) => Err(e),
            Ok(filed) => Ok((filed, next)),
        },
    }
}

/// Pushing a channel onto a list pushes its view onto the list's view.
proof fn lemma_channel_views_push(channels: Seq<ChannelInfo>, channel: ChannelInfo)
    ensures
        channel_views(channels.push(channel)) == channel_views(channels).push(channel@),
{
    assert(channel_views(channels.push(channel)) =~= channel_views(channels).push(channel@));
}

/// Reads one channel record and files the channel in the header. On an
/// error the header is left as it was; otherwise at most this channel is
/// added to it.
pub fn add_channel_information(
    header: &mut RhsHeader,
    reader: &mut ByteReader,
    signal_group_name: &str,
    signal_group_prefix: &str,
) -> (r: Result<(), IntanError>)
    ensures
        final(reader).bytes@ == old(reader).bytes@,
        match spec_add_channel(
            old(reader).bytes@,
            old(reader).pos as int,
            old(header)@,
            signal_group_name@,
            signal_group_prefix@,
        ) {
            Ok((filed, next)) => r is Ok && final(header)@ == filed && final(reader).pos == next,
            Err(e) => r == Err::<(), IntanError>(e) && final(header)@ == old(header)@,
        },
        only_channels_added(final(header)@, old(header)@),
{
    let ghost bytes = reader.bytes@;
    let native_channel_name: String = read_qstring(reader)?;
    let custom_channel_name: String = read_qstring(reader)?;
    let ghost fields_at = reader.pos as int;

    let native_order: i32 = reader.read_i16()? as i32;
    let custom_order: i32 = reader.read_i16()? as i32;

    let signal_type: i32 = reader.read_i16()? as i32;
    let channel_enabled: i32 = reader.read_i16()? as i32;

    let chip_channel: i32 = reader.read_i16()? as i32;
    let _reserved: i16 = reader.read_i16()?;
    let board_stream: i32 = reader.read_i16()? as i32;

    let new_trigger = SpikeTrigger {
        voltage_trigger_mode: reader.read_i16()? as i32,
        voltage_threshold: reader.read_i16()? as i32,
        digital_trigger_channel: reader.read_i16()? as i32,
        digital_edge_polarity: reader.read_i16()? as i32,
    };

    let electrode_impedance_magnitude: u32 = reader.read_u32()?;
    let electrode_impedance_phase: u32 = reader.read_u32()?;

    let new_channel = ChannelInfo {
        port_name: signal_group_name.to_owned(),
        port_prefix: signal_group_prefix.to_owned(),
        port_number: 0,
        native_channel_name,
        custom_channel_name,
        native_order,
        custom_order,
        chip_channel,
        board_stream,
        electrode_impedance_magnitude,
        electrode_impedance_phase,
    };
    let ghost record = channel_record_at(
        bytes,
        fields_at,
        signal_group_name@,
        signal_group_prefix@,
        new_channel.native_channel_name@,
        new_channel.custom_channel_name@,
    );
    assert(new_channel@ == record.channel);
    assert(new_trigger == record.trigger);
    proof {
        lemma_filing_only_adds(header@, record);
    }

    // A disabled channel is parsed and dropped.
    if channel_enabled == 0 {
        return Ok(());
    }
    match signal_type {
        0 => {
            proof {
                lemma_channel_views_push(header.amplifier_channels@, new_channel);
            }
            header.amplifier_channels.push(new_channel);
            header.spike_triggers.push(new_trigger);
        },
        3 => {
            proof {
                lemma_channel_views_push(header.board_adc_channels@, new_channel);
            }
            header.board_adc_channels.push(new_channel);
        },
        4 => {
            proof {
                lemma_channel_views_push(header.board_dac_channels@, new_channel);
            }
            header.board_dac_channels.push(new_channel);
        },
        5 => {
            proof {
                lemma_channel_views_push(header.board_dig_in_channels@, new_channel);
            }
            header.board_dig_in_channels.push(new_channel);
        },
        6 => {
            proof {
                lemma_channel_views_push(header.board_dig_out_channels@, new_channel);
            }
            header.board_dig_out_channels.push(new_channel);
        },
        _ => {
            return Err(IntanError::InvalidChannelType);
        },
    }
    Ok(())
}

// ---------------------------------------------------------------------------
// Signal groups
// ---------------------------------------------------------------------------

/// What reading `count` channel records in a row gives, starting at `pos`
/// with `header`.
pub open spec fn spec_add_channels(
    bytes: Seq<u8>,
    pos: int,
    header: RhsHeaderView,
    port_name: Seq<char>,
    port_prefix: Seq<char>,
    count: nat,
) -> Result<(RhsHeaderView, int), IntanError>
    decreases count,
{
    if count == 0 {
        Ok((header, pos))
    } else {
        match spec_add_channel(bytes, pos, header, port_name, port_prefix) {
            Err(e) => Err(e),
            Ok((filed, next)) => spec_add_channels(
                bytes,
                next,
                filed,
                port_name,
                port_prefix,
                (count - 1) as nat,
            ),
        }
    }
}

/// What reading one signal group at `pos` gives.
///
/// A group is two tagged strings (name and prefix) and three 16-bit words:
/// an enabled flag, the number of channels, and a word that is not used. The
/// channel records follow only if the group is enabled and the number is
/// positive.
pub open spec fn spec_add_group(bytes: Seq<u8>, pos: int, header: RhsHeaderView) -> Result<
    (RhsHeaderView, int),
    IntanError,
> {
    match spec_qstring(bytes, pos) {
        Err(e) => Err(e),
        Ok((name, prefix_at)) => match spec_qstring(bytes, prefix_at) {
            Err(e) => Err(e),
            Ok((prefix, flags_at)) => if !has_bytes(bytes, flags_at, 6) {
                Err(IntanError::IoError(IoErrorKind::UnexpectedEof))
            } else if le_i16(bytes, flags_at + 2) > 0 && le_i16(bytes, flags_at) > 0 {
                spec_add_channels(
                    bytes,
                    flags_at + 6,
                    header,
                    name,
                    prefix,
                    le_i16(bytes, flags_at + 2) as nat,
                )
            } else {
                Ok((header, flags_at + 6))
            },
        },
    }
}

/// What reading `count` signal groups in a row gives, starting at `pos` with
/// `header`.
pub open spec fn spec_add_groups(
    bytes: Seq<u8>,
    pos: int,
    header: RhsHeaderView,
    count: nat,
) -> Result<(RhsHeaderView, int), IntanError>
    decreases count,
{
    if count == 0 {
        Ok((header, pos))
    } else {
        match spec_add_group(bytes, pos, header) {
            Err(e) => Err(e),
            Ok((filed, next)) => spec_add_groups(bytes, next, filed, (count - 1) as nat),
        }
    }
}

/// What reading the signal summary at `pos` gives: a 16-bit number of groups
/// and then the groups.
pub open spec fn spec_signal_summary(bytes: Seq<u8>, pos: int, header: RhsHeaderView) -> Result<
    (RhsHeaderView, int),
    IntanError,
> {
    if !has_bytes(bytes, pos, 2) {
        Err(IntanError::IoError(IoErrorKind::UnexpectedEof))
    } else if le_i16(bytes, pos) <= 0 {
        Ok((header, pos + 2))
    } else {
        spec_add_groups(bytes, pos + 2, header, le_i16(bytes, pos) as nat)
    }
}

/// Reads one signal group and files its enabled channels in the header.
/// Whether it succeeds or not, channels are only ever added.
pub fn add_signal_group_information(header: &mut RhsHeader, reader: &mut ByteReader) -> (r: Result<
    (),
    IntanError,
>)
    ensures
        final(reader).bytes@ == old(reader).bytes@,
        match spec_add_group(old(reader).bytes@, old(reader).pos as int, old(header)@) {
            Ok((filed, next)) => r is Ok && final(header)@ == filed && final(reader).pos == next,
            Err(e) => r == Err::<(), IntanError>(e),
        },
        only_channels_added(final(header)@, old(header)@),
{
    let ghost bytes = reader.bytes@;
    let signal_group_name: String = read_qstring(reader)?;
    let signal_group_prefix: String = read_qstring(reader)?;

    let signal_group_enabled: i16 = reader.read_i16()?;
    let signal_group_num_channels: i16 = reader.read_i16()?;
    let _unused: i16 = reader.read_i16()?;

    if signal_group_num_channels > 0 && signal_group_enabled > 0 {
        let ghost first = reader.pos as int;
        let ghost initial = header@;
        let ghost name = signal_group_name@;
        let ghost prefix = signal_group_prefix@;
        let mut i: i16 = 0;
        while i < signal_group_num_channels
            invariant
                reader.bytes@ == bytes,
                bytes == old(reader).bytes@,
                name == signal_group_name@,
                prefix == signal_group_prefix@,
                0 <= i <= signal_group_num_channels,
                only_channels_added(header@, old(header)@),
                spec_add_channels(
                    bytes,
                    first,
                    initial,
                    name,
                    prefix,
                    signal_group_num_channels as nat,
                ) == spec_add_channels(
                    bytes,
                    reader.pos as int,
                    header@,
                    name,
                    prefix,
                    (signal_group_num_channels - i) as nat,
                ),
                spec_add_group(old(reader).bytes@, old(reader).pos as int, old(header)@)
                    == spec_add_channels(
                    bytes,
                    first,
                    initial,
                    name,
                    prefix,
                    signal_group_num_channels as nat,
                ),
            decreases signal_group_num_channels - i,
        {
            let ghost before = header@;
            let filed = add_channel_information(
                header,
                reader,
                signal_group_name.as_str(),
                signal_group_prefix.as_str(),
            );
            proof {
                lemma_adding_goes_on(header@, before, old(header)@);
            }
            filed?;
            i = i + 1;
        }
    }
    Ok(())
}

/// Reads the signal summary: the number of signal groups and each group.
/// Whether it succeeds or not, channels are only ever added.
pub fn read_signal_summary(reader: &mut ByteReader, header: &mut RhsHeader) -> (r: Result<
    (),
    IntanError,
>)
    ensures
        final(reader).bytes@ == old(reader).bytes@,
        match spec_signal_summary(old(reader).bytes@, old(reader).pos as int, old(header)@) {
            Ok((filed, next)) => r is Ok && final(header)@ == filed && final(reader).pos == next,
            Err(e) => r == Err::<(), IntanError>(e),
        },
        only_channels_added(final(header)@, old(header)@),
{
    let ghost bytes = reader.bytes@;
    let number_of_signal_groups: i16 = reader.read_i16()?;
    let ghost first = reader.pos as int;
    let ghost initial = header@;

    let mut i: i16 = 0;
    while i < number_of_signal_groups
        invariant
            reader.bytes@ == bytes,
            bytes == old(reader).bytes@,
            0 <= i,
            only_channels_added(header@, old(header)@),
            number_of_signal_groups > 0 ==> i <= number_of_signal_groups,
            number_of_signal_groups > 0 ==> spec_add_groups(
                bytes,
                first,
                initial,
                number_of_signal_groups as nat,
            ) == spec_add_groups(
                bytes,
                reader.pos as int,
                header@,
                (number_of_signal_groups - i) as nat,
            ),
            number_of_signal_groups > 0 ==> spec_signal_summary(
                old(reader).bytes@,
                old(reader).pos as int,
                old(header)@,
            ) == spec_add_groups(bytes, first, initial, number_of_signal_groups as nat),
            number_of_signal_groups <= 0 ==> reader.pos == first && header@ == initial,
            number_of_signal_groups <= 0 ==> spec_signal_summary(
                old(reader).bytes@,
                old(reader).pos as int,
                old(header)@,
            ) == Ok::<(RhsHeaderView, int), IntanError>((initial, first)),
        decreases number_of_signal_groups - i,
    {
        let ghost before = header@;
        let filed = add_signal_group_information(header, reader);
        proof {
            lemma_adding_goes_on(header@, before, old(header)@);
        }
        filed?;
        i = i + 1;
    }
    Ok(())
}

// ---------------------------------------------------------------------------
// The fixed-size fields
// ---------------------------------------------------------------------------

/// The 32-bit pattern stored little-endian at `pos`.
pub open spec fn bits_at(bytes: Seq<u8>, pos: int) -> u32 {
    le_u32(bytes, pos) as u32
}

/// The signed 16-bit integer stored little-endian at `pos`, widened.
pub open spec fn word_at(bytes: Seq<u8>, pos: int) -> i32 {
    le_i16(bytes, pos) as i32
}

/// The notch filter frequency that a mode code selects: 1 is 50 Hz, 2 is
/// 60 Hz, anything else is no filter.
pub open spec fn notch_frequency_of_mode(mode: int) -> Option<i32> {
    if mode == 1 {
        Some(50i32)
    } else if mode == 2 {
        Some(60i32)
    } else {
        None
    }
}

/// A header in which nothing has been read yet.
pub open spec fn blank_header() -> RhsHeaderView {
    RhsHeaderView {
        version: Version { major: 0, minor: 0 },
        sample_rate: 0,
        num_samples_per_data_block: 128,
        dsp_enabled: 0,
        actual_dsp_cutoff_frequency: 0,
        actual_lower_bandwidth: 0,
        actual_lower_settle_bandwidth: 0,
        actual_upper_bandwidth: 0,
        desired_dsp_cutoff_frequency: 0,
        desired_lower_bandwidth: 0,
        desired_lower_settle_bandwidth: 0,
        desired_upper_bandwidth: 0,
        notch_filter_frequency: None,
        desired_impedance_test_frequency: 0,
        actual_impedance_test_frequency: 0,
        amp_settle_mode: 0,
        charge_recovery_mode: 0,
        stim_step_size: 0,
        recovery_current_limit: 0,
        recovery_target_voltage: 0,
        notes: NotesView { note1: Seq::empty(), note2: Seq::empty(), note3: Seq::empty() },
        dc_amplifier_data_saved: false,
        eval_board_mode: 0,
        reference_channel: Seq::empty(),
        amplifier_channels: Seq::empty(),
        spike_triggers: Seq::empty(),
        board_adc_channels: Seq::empty(),
        board_dac_channels: Seq::empty(),
        board_dig_in_channels: Seq::empty(),
        board_dig_out_channels: Seq::empty(),
        frequency_parameters: FrequencyParameters {
            amplifier_sample_rate: 0,
            board_adc_sample_rate: 0,
            board_dig_in_sample_rate: 0,
            desired_dsp_cutoff_frequency: 0,
            actual_dsp_cutoff_frequency: 0,
            dsp_enabled: 0,
            desired_lower_bandwidth: 0,
            desired_lower_settle_bandwidth: 0,
            actual_lower_bandwidth: 0,
            actual_lower_settle_bandwidth: 0,
            desired_upper_bandwidth: 0,
            actual_upper_bandwidth: 0,
            notch_filter_frequency: None,
            desired_impedance_test_frequency: 0,
            actual_impedance_test_frequency: 0,
        },
        stim_parameters: StimParameters {
            stim_step_size: 0,
            charge_recovery_current_limit: 0,
            charge_recovery_target_voltage: 0,
            amp_settle_mode: 0,
            charge_recovery_mode: 0,
        },
    }
}

/// The header after the fixed-size fields of a header that starts at `pos`
/// have been read: everything else is still blank.
///
/// Offsets from `pos`: 4 version (two 16-bit words), 8 sample rate,
/// 12 DSP enabled (16-bit), 14 to 42 the eight bandwidth settings, 46 notch
/// filter mode (16-bit), 48 and 52 impedance test frequencies, 56 and 58
/// amplifier settle and charge recovery modes (16-bit), 60 to 68 the three
/// stimulation settings.
pub open spec fn fixed_header(bytes: Seq<u8>, pos: int) -> RhsHeaderView {
    RhsHeaderView {
        version: Version { major: word_at(bytes, pos + 4), minor: word_at(bytes, pos + 6) },
        sample_rate: bits_at(bytes, pos + 8),
        dsp_enabled: word_at(bytes, pos + 12),
        actual_dsp_cutoff_frequency: bits_at(bytes, pos + 14),
        actual_lower_bandwidth: bits_at(bytes, pos + 18),
        actual_lower_settle_bandwidth: bits_at(bytes, pos + 22),
        actual_upper_bandwidth: bits_at(bytes, pos + 26),
        desired_dsp_cutoff_frequency: bits_at(bytes, pos + 30),
        desired_lower_bandwidth: bits_at(bytes, pos + 34),
        desired_lower_settle_bandwidth: bits_at(bytes, pos + 38),
        desired_upper_bandwidth: bits_at(bytes, pos + 42),
        notch_filter_frequency: notch_frequency_of_mode(le_i16(bytes, pos + 46)),
        desired_impedance_test_frequency: bits_at(bytes, pos + 48),
        actual_impedance_test_frequency: bits_at(bytes, pos + 52),
        amp_settle_mode: word_at(bytes, pos + 56),
        charge_recovery_mode: word_at(bytes, pos + 58),
        stim_step_size: bits_at(bytes, pos + 60),
        recovery_current_limit: bits_at(bytes, pos + 64),
        recovery_target_voltage: bits_at(bytes, pos + 68),
        frequency_parameters: FrequencyParameters {
            amplifier_sample_rate: bits_at(bytes, pos + 8),
            board_adc_sample_rate: bits_at(bytes, pos + 8),
            board_dig_in_sample_rate: bits_at(bytes, pos + 8),
            desired_dsp_cutoff_frequency: bits_at(bytes, pos + 30),
            actual_dsp_cutoff_frequency: bits_at(bytes, pos + 14),
            dsp_enabled: word_at(bytes, pos + 12),
            desired_lower_bandwidth: bits_at(bytes, pos + 34),
            desired_lower_settle_bandwidth: bits_at(bytes, pos + 38),
            actual_lower_bandwidth: bits_at(bytes, pos + 18),
            actual_lower_settle_bandwidth: bits_at(bytes, pos + 22),
            desired_upper_bandwidth: bits_at(bytes, pos + 42),
            actual_upper_bandwidth: bits_at(bytes, pos + 26),
            notch_filter_frequency: notch_frequency_of_mode(le_i16(bytes, pos + 46)),
            desired_impedance_test_frequency: bits_at(bytes, pos + 48),
            actual_impedance_test_frequency: bits_at(bytes, pos + 52),
        },
        stim_parameters: StimParameters {
            stim_step_size: bits_at(bytes, pos + 60),
            charge_recovery_current_limit: bits_at(bytes, pos + 64),
            charge_recovery_target_voltage: bits_at(bytes, pos + 68),
            amp_settle_mode: word_at(bytes, pos + 56),
            charge_recovery_mode: word_at(bytes, pos + 58),
        },
        ..blank_header()
    }
}

/// The header as it stands before the channel catalog is read: the
/// fixed-size fields of a header that starts at `pos`, the notes and the name
/// of the reference channel, which were read as strings, and between them, at
/// `flags_pos`, the DC-amplifier-saved flag (set by any non-zero word) and the
/// board mode. The channel lists are empty.
pub open spec fn header_before_catalog(
    bytes: Seq<u8>,
    pos: int,
    notes: NotesView,
    flags_pos: int,
    reference_channel: Seq<char>,
) -> RhsHeaderView {
    RhsHeaderView {
        notes,
        dc_amplifier_data_saved: le_i16(bytes, flags_pos) != 0,
        eval_board_mode: word_at(bytes, flags_pos + 2),
        reference_channel,
        ..fixed_header(bytes, pos)
    }
}

/// What reading the three notes at `pos` gives.
pub open spec fn spec_notes(bytes: Seq<u8>, pos: int) -> Result<(NotesView, int), IntanError> {
    match spec_qstring(bytes, pos) {
        Err(e) => Err(e),
        Ok((note1, second_at)) => match spec_qstring(bytes, second_at) {
            Err(e) => Err(e),
            Ok((note2, third_at)) => match spec_qstring(bytes, third_at) {
                Err(e) => Err(e),
                Ok((note3, end)) => Ok((NotesView { note1, note2, note3 }, end)),
            },
        },
    }
}

/// What reading a header at `pos` gives: the header and the position of the
/// first data block, or the error.
///
/// The stream must start with the magic number. The fixed-size fields follow,
/// then the three notes, the DC-amplifier-saved flag and the board mode, the
/// name of the reference channel, and the channel catalog.
pub open spec fn spec_read_header(bytes: Seq<u8>, pos: int) -> Result<
    (RhsHeaderView, int),
    IntanError,
> {
    if !has_bytes(bytes, pos, 4) {
        Err(IntanError::IoError(IoErrorKind::UnexpectedEof))
    } else if le_u32(bytes, pos) != RHS_MAGIC_NUMBER {
        Err(IntanError::UnrecognizedFileFormat)
    } else if !has_bytes(bytes, pos, 72) {
        Err(IntanError::IoError(IoErrorKind::UnexpectedEof))
    } else {
        match spec_notes(bytes, pos + 72) {
            Err(e) => Err(e),
            Ok((notes, flags_pos)) => if !has_bytes(bytes, flags_pos, 4) {
                Err(IntanError::IoError(IoErrorKind::UnexpectedEof))
            } else {
                match spec_qstring(bytes, flags_pos + 4) {
                    Err(e) => Err(e),
                    Ok((reference_channel, catalog_pos)) => spec_signal_summary(
                        bytes,
                        catalog_pos,
                        header_before_catalog(bytes, pos, notes, flags_pos, reference_channel),
                    ),
                }
            },
        }
    }
}

/// Checks the magic number that opens the stream. Its four bytes are
/// consumed whether they match or not; a stream without four bytes is left
/// where it was.
pub fn check_magic_number(reader: &mut ByteReader) -> (r: Result<(), IntanError>)
    ensures
        final(reader).bytes@ == old(reader).bytes@,
        r == (if !old(reader).can_read(4) {
            Err::<(), IntanError>(IntanError::IoError(IoErrorKind::UnexpectedEof))
        } else if le_u32(old(reader).bytes@, old(reader).pos as int) != RHS_MAGIC_NUMBER {
            Err(IntanError::UnrecognizedFileFormat)
        } else {
            Ok(())
        }),
        if old(reader).can_read(4) {
            final(reader).pos == old(reader).pos + 4
        } else {
            *final(reader) == *old(reader)
        },
{
    let magic_number: u32 = reader.read_u32()?;
    if magic_number != RHS_MAGIC_NUMBER {
        return Err(IntanError::UnrecognizedFileFormat);
    }
    Ok(())
}

/// Reads the two components of the format version.
pub fn read_version_number(reader: &mut ByteReader, header: &mut RhsHeader) -> (r: Result<
    (),
    IntanError,
>)
    ensures
        final(reader).bytes@ == old(reader).bytes@,
        match r {
            Ok(_) => {
                &&& old(reader).can_read(4)
                &&& final(reader).pos == old(reader).pos + 4
                &&& final(header)@ == (RhsHeaderView {
                    version: Version {
                        major: word_at(old(reader).bytes@, old(reader).pos as int),
                        minor: word_at(old(reader).bytes@, old(reader).pos + 2),
                    },
                    ..old(header)@
                })
            },
            Err(e) => !old(reader).can_read(4) && e == IntanError::IoError(
                IoErrorKind::UnexpectedEof,
            ) && final(header)@ == old(header)@,
        },
{
    let major: i16 = reader.read_i16()?;
    let minor: i16 = reader.read_i16()?;
    header.version.major = major as i32;
    header.version.minor = minor as i32;
    Ok(())
}

/// The header after the DSP and bandwidth settings at `pos` have been read
/// into it, both as flat fields and in the gathered frequency parameters.
pub open spec fn with_freq_settings(header: RhsHeaderView, bytes: Seq<u8>, pos: int)
    -> RhsHeaderView {
    RhsHeaderView {
        dsp_enabled: word_at(bytes, pos),
        actual_dsp_cutoff_frequency: bits_at(bytes, pos + 2),
        actual_lower_bandwidth: bits_at(bytes, pos + 6),
        actual_lower_settle_bandwidth: bits_at(bytes, pos + 10),
        actual_upper_bandwidth: bits_at(bytes, pos + 14),
        desired_dsp_cutoff_frequency: bits_at(bytes, pos + 18),
        desired_lower_bandwidth: bits_at(bytes, pos + 22),
        desired_lower_settle_bandwidth: bits_at(bytes, pos + 26),
        desired_upper_bandwidth: bits_at(bytes, pos + 30),
        frequency_parameters: FrequencyParameters {
            dsp_enabled: word_at(bytes, pos),
            actual_dsp_cutoff_frequency: bits_at(bytes, pos + 2),
            actual_lower_bandwidth: bits_at(bytes, pos + 6),
            actual_lower_settle_bandwidth: bits_at(bytes, pos + 10),
            actual_upper_bandwidth: bits_at(bytes, pos + 14),
            desired_dsp_cutoff_frequency: bits_at(bytes, pos + 18),
            desired_lower_bandwidth: bits_at(bytes, pos + 22),
            desired_lower_settle_bandwidth: bits_at(bytes, pos + 26),
            desired_upper_bandwidth: bits_at(bytes, pos + 30),
            ..header.frequency_parameters
        },
        ..header
    }
}

/// Reads the DSP flag and the eight bandwidth settings.
pub fn read_freq_settings(reader: &mut ByteReader, header: &mut RhsHeader) -> (r: Result<
    (),
    IntanError,
>)
    ensures
        final(reader).bytes@ == old(reader).bytes@,
        match r {
            Ok(_) => {
                &&& old(reader).can_read(34)
                &&& final(reader).pos == old(reader).pos + 34
                &&& final(header)@ == with_freq_settings(
                    old(header)@,
                    old(reader).bytes@,
                    old(reader).pos as int,
                )
            },
            Err(e) => !old(reader).can_read(34) && e == IntanError::IoError(
                IoErrorKind::UnexpectedEof,
            ) && final(header)@ == old(header)@,
        },
{
    // Everything is read before anything is stored, so that a stream that
    // ends early leaves the header as it was.
    let dsp_enabled: i32 = reader.read_i16()? as i32;
    let actual_dsp_cutoff_frequency: u32 = reader.read_u32()?;
    let actual_lower_bandwidth: u32 = reader.read_u32()?;
    let actual_lower_settle_bandwidth: u32 = reader.read_u32()?;
    let actual_upper_bandwidth: u32 = reader.read_u32()?;
    let desired_dsp_cutoff_frequency: u32 = reader.read_u32()?;
    let desired_lower_bandwidth: u32 = reader.read_u32()?;
    let desired_lower_settle_bandwidth: u32 = reader.read_u32()?;
    let desired_upper_bandwidth: u32 = reader.read_u32()?;

    header.dsp_enabled = dsp_enabled;
    header.frequency_parameters.dsp_enabled = dsp_enabled;

    header.actual_dsp_cutoff_frequency = actual_dsp_cutoff_frequency;
    header.frequency_parameters.actual_dsp_cutoff_frequency = actual_dsp_cutoff_frequency;

    header.actual_lower_bandwidth = actual_lower_bandwidth;
    header.frequency_parameters.actual_lower_bandwidth = actual_lower_bandwidth;

    header.actual_lower_settle_bandwidth = actual_lower_settle_bandwidth;
    header.frequency_parameters.actual_lower_settle_bandwidth = actual_lower_settle_bandwidth;

    header.actual_upper_bandwidth = actual_upper_bandwidth;
    header.frequency_parameters.actual_upper_bandwidth = actual_upper_bandwidth;

    header.desired_dsp_cutoff_frequency = desired_dsp_cutoff_frequency;
    header.frequency_parameters.desired_dsp_cutoff_frequency = desired_dsp_cutoff_frequency;

    header.desired_lower_bandwidth = desired_lower_bandwidth;
    header.frequency_parameters.desired_lower_bandwidth = desired_lower_bandwidth;

    header.desired_lower_settle_bandwidth = desired_lower_settle_bandwidth;
    header.frequency_parameters.desired_lower_settle_bandwidth = desired_lower_settle_bandwidth;

    header.desired_upper_bandwidth = desired_upper_bandwidth;
    header.frequency_parameters.desired_upper_bandwidth = desired_upper_bandwidth;

    Ok(())
}

/// Reads the notch filter mode and turns it into a frequency.
pub fn read_notch_filter_frequency(reader: &mut ByteReader, header: &mut RhsHeader) -> (r: Result<
    (),
    IntanError,
>)
    ensures
        final(reader).bytes@ == old(reader).bytes@,
        match r {
            Ok(_) => {
                let frequency = notch_frequency_of_mode(
                    le_i16(old(reader).bytes@, old(reader).pos as int),
                );
                &&& old(reader).can_read(2)
                &&& final(reader).pos == old(reader).pos + 2
                &&& final(header)@ == (RhsHeaderView {
                    notch_filter_frequency: frequency,
                    frequency_parameters: FrequencyParameters {
                        notch_filter_frequency: frequency,
                        ..old(header)@.frequency_parameters
                    },
                    ..old(header)@
                })
            },
            Err(e) => !old(reader).can_read(2) && e == IntanError::IoError(
                IoErrorKind::UnexpectedEof,
            ) && final(header)@ == old(header)@,
        },
{
    let notch_filter_mode: i32 = reader.read_i16()? as i32;

    header.notch_filter_frequency = match notch_filter_mode {
        1 => Some(50),
        2 => Some(60),
        _ => None,
    };
    header.frequency_parameters.notch_filter_frequency = header.notch_filter_frequency;

    Ok(())
}

/// Reads the requested and the achieved impedance test frequency.
pub fn read_impedance_test_frequencies(reader: &mut ByteReader, header: &mut RhsHeader) -> (r:
    Result<(), IntanError>)
    ensures
        final(reader).bytes@ == old(reader).bytes@,
        match r {
            Ok(_) => {
                let desired = bits_at(old(reader).bytes@, old(reader).pos as int);
                let actual = bits_at(old(reader).bytes@, old(reader).pos + 4);
                &&& old(reader).can_read(8)
                &&& final(reader).pos == old(reader).pos + 8
                &&& final(header)@ == (RhsHeaderView {
                    desired_impedance_test_frequency: desired,
                    actual_impedance_test_frequency: actual,
                    frequency_parameters: FrequencyParameters {
                        desired_impedance_test_frequency: desired,
                        actual_impedance_test_frequency: actual,
                        ..old(header)@.frequency_parameters
                    },
                    ..old(header)@
                })
            },
            Err(e) => !old(reader).can_read(8) && e == IntanError::IoError(
                IoErrorKind::UnexpectedEof,
            ) && final(header)@ == old(header)@,
        },
{
    let desired: u32 = reader.read_u32()?;
    let actual: u32 = reader.read_u32()?;

    header.desired_impedance_test_frequency = desired;
    header.actual_impedance_test_frequency = actual;

    header.frequency_parameters.desired_impedance_test_frequency = desired;
    header.frequency_parameters.actual_impedance_test_frequency = actual;

    Ok(())
}

/// Reads the three notes.
pub fn read_notes(reader: &mut ByteReader, header: &mut RhsHeader) -> (r: Result<(), IntanError>)
    ensures
        final(reader).bytes@ == old(reader).bytes@,
        match spec_notes(old(reader).bytes@, old(reader).pos as int) {
            Ok((notes, next)) => {
                &&& r is Ok
                &&& final(reader).pos == next
                &&& final(header)@ == (RhsHeaderView { notes, ..old(header)@ })
            },
            Err(e) => r == Err::<(), IntanError>(e) && final(header)@ == old(header)@,
        },
{
    let note1: String = read_qstring(reader)?;
    let note2: String = read_qstring(reader)?;
    let note3: String = read_qstring(reader)?;

    header.notes.note1 = note1;
    header.notes.note2 = note2;
    header.notes.note3 = note3;

    Ok(())
}

/// Reads the sample rate, which is also the rate of every kind of channel.
fn read_sample_rate(reader: &mut ByteReader, header: &mut RhsHeader) -> (r: Result<(), IntanError>)
    ensures
        final(reader).bytes@ == old(reader).bytes@,
        match r {
            Ok(_) => {
                let rate = bits_at(old(reader).bytes@, old(reader).pos as int);
                &&& old(reader).can_read(4)
                &&& final(reader).pos == old(reader).pos + 4
                &&& final(header)@ == (RhsHeaderView {
                    sample_rate: rate,
                    frequency_parameters: FrequencyParameters {
                        amplifier_sample_rate: rate,
                        board_adc_sample_rate: rate,
                        board_dig_in_sample_rate: rate,
                        ..old(header)@.frequency_parameters
                    },
                    ..old(header)@
                })
            },
            Err(e) => !old(reader).can_read(4) && e == IntanError::IoError(
                IoErrorKind::UnexpectedEof,
            ) && final(header)@ == old(header)@,
        },
{
    header.sample_rate = reader.read_u32()?;
    header.frequency_parameters.amplifier_sample_rate = header.sample_rate;
    header.frequency_parameters.board_adc_sample_rate = header.sample_rate;
    header.frequency_parameters.board_dig_in_sample_rate = header.sample_rate;
    Ok(())
}

/// The header after the stimulation settings at `pos` have been read into
/// it, both as flat fields and in the gathered stimulation parameters.
pub open spec fn with_stim_settings(header: RhsHeaderView, bytes: Seq<u8>, pos: int)
    -> RhsHeaderView {
    RhsHeaderView {
        amp_settle_mode: word_at(bytes, pos),
        charge_recovery_mode: word_at(bytes, pos + 2),
        stim_step_size: bits_at(bytes, pos + 4),
        recovery_current_limit: bits_at(bytes, pos + 8),
        recovery_target_voltage: bits_at(bytes, pos + 12),
        stim_parameters: StimParameters {
            stim_step_size: bits_at(bytes, pos + 4),
            charge_recovery_current_limit: bits_at(bytes, pos + 8),
            charge_recovery_target_voltage: bits_at(bytes, pos + 12),
            amp_settle_mode: word_at(bytes, pos),
            charge_recovery_mode: word_at(bytes, pos + 2),
        },
        ..header
    }
}

/// Reads the settle and recovery modes and the three stimulation settings.
fn read_stim_settings(reader: &mut ByteReader, header: &mut RhsHeader) -> (r: Result<
    (),
    IntanError,
>)
    ensures
        final(reader).bytes@ == old(reader).bytes@,
        match r {
            Ok(_) => {
                &&& old(reader).can_read(16)
                &&& final(reader).pos == old(reader).pos + 16
                &&& final(header)@ == with_stim_settings(
                    old(header)@,
                    old(reader).bytes@,
                    old(reader).pos as int,
                )
            },
            Err(e) => !old(reader).can_read(16) && e == IntanError::IoError(
                IoErrorKind::UnexpectedEof,
            ),
        },
{
    header.amp_settle_mode = reader.read_i16()? as i32;
    header.stim_parameters.amp_settle_mode = header.amp_settle_mode;

    header.charge_recovery_mode = reader.read_i16()? as i32;
    header.stim_parameters.charge_recovery_mode = header.charge_recovery_mode;

    header.stim_step_size = reader.read_u32()?;
    header.stim_parameters.stim_step_size = header.stim_step_size;

    header.recovery_current_limit = reader.read_u32()?;
    header.stim_parameters.charge_recovery_current_limit = header.recovery_current_limit;

    header.recovery_target_voltage = reader.read_u32()?;
    header.stim_parameters.charge_recovery_target_voltage = header.recovery_target_voltage;

    Ok(())
}

/// Reads the fixed-size fields that follow the magic number.
fn read_fixed_fields(reader: &mut ByteReader, header: &mut RhsHeader) -> (r: Result<
    (),
    IntanError,
>)
    requires
        old(header)@ == blank_header(),
        old(reader).pos >= 4,
    ensures
        final(reader).bytes@ == old(reader).bytes@,
        match r {
            Ok(_) => {
                &&& old(reader).can_read(68)
                &&& final(reader).pos == old(reader).pos + 68
                &&& final(header)@ == fixed_header(old(reader).bytes@, old(reader).pos - 4)
            },
            Err(e) => !old(reader).can_read(68) && e == IntanError::IoError(
                IoErrorKind::UnexpectedEof,
            ),
        },
{
    read_version_number(reader, header)?;
    read_sample_rate(reader, header)?;
    read_freq_settings(reader, header)?;
    read_notch_filter_frequency(reader, header)?;
    read_impedance_test_frequencies(reader, header)?;
    read_stim_settings(reader, header)?;
    Ok(())
}

/// Reads the DC-amplifier-saved flag, the board mode and the name of the
/// reference channel.
fn read_board_settings(reader: &mut ByteReader, header: &mut RhsHeader) -> (r: Result<
    (),
    IntanError,
>)
    ensures
        final(reader).bytes@ == old(reader).bytes@,
        match (if !old(reader).can_read(4) {
            Err::<(Seq<char>, int), IntanError>(IntanError::IoError(IoErrorKind::UnexpectedEof))
        } else {
            spec_qstring(old(reader).bytes@, old(reader).pos + 4)
        }) {
            Ok((reference_channel, next)) => {
                &&& r is Ok
                &&& final(reader).pos == next
                &&& final(header)@ == (RhsHeaderView {
                    dc_amplifier_data_saved: le_i16(old(reader).bytes@, old(reader).pos as int)
                        != 0,
                    eval_board_mode: word_at(old(reader).bytes@, old(reader).pos + 2),
                    reference_channel,
                    ..old(header)@
                })
            },
            Err(e) => r == Err::<(), IntanError>(e),
        },
{
    header.dc_amplifier_data_saved = reader.read_i16()? != 0;
    header.eval_board_mode = reader.read_i16()? as i32;
    header.reference_channel = read_qstring(reader)?;
    Ok(())
}

/// Reads a whole header.
pub fn read_header(reader: &mut ByteReader) -> (r: Result<RhsHeader, IntanError>)
    ensures
        final(reader).bytes@ == old(reader).bytes@,
        match spec_read_header(old(reader).bytes@, old(reader).pos as int) {
            Ok((parsed, next)) => r matches Ok(header) && header@ == parsed && final(reader).pos
                == next,
            Err(e) => r == Err::<RhsHeader, IntanError>(e),
        },
        r matches Ok(header) ==> header@.consistent(),
{
    let ghost bytes = reader.bytes@;
    let ghost start = reader.pos as int;
    proof {
        lemma_parsed_header_is_consistent(bytes, start);
    }
    let mut header = RhsHeader {
        version: Version { major: 0, minor: 0 },
        sample_rate: 0,
        num_samples_per_data_block: 128,
        dsp_enabled: 0,
        actual_dsp_cutoff_frequency: 0,
        actual_lower_bandwidth: 0,
        actual_lower_settle_bandwidth: 0,
        actual_upper_bandwidth: 0,
        desired_dsp_cutoff_frequency: 0,
        desired_lower_bandwidth: 0,
        desired_lower_settle_bandwidth: 0,
        desired_upper_bandwidth: 0,
        notch_filter_frequency: None,
        desired_impedance_test_frequency: 0,
        actual_impedance_test_frequency: 0,
        amp_settle_mode: 0,
        charge_recovery_mode: 0,
        stim_step_size: 0,
        recovery_current_limit: 0,
        recovery_target_voltage: 0,
        notes: Notes { note1: String::new(), note2: String::new(), note3: String::new() },
        dc_amplifier_data_saved: false,
        eval_board_mode: 0,
        reference_channel: String::new(),
        amplifier_channels: Vec::new(),
        spike_triggers: Vec::new(),
        board_adc_channels: Vec::new(),
        board_dac_channels: Vec::new(),
        board_dig_in_channels: Vec::new(),
        board_dig_out_channels: Vec::new(),
        frequency_parameters: FrequencyParameters {
            amplifier_sample_rate: 0,
            board_adc_sample_rate: 0,
            board_dig_in_sample_rate: 0,
            desired_dsp_cutoff_frequency: 0,
            actual_dsp_cutoff_frequency: 0,
            dsp_enabled: 0,
            desired_lower_bandwidth: 0,
            desired_lower_settle_bandwidth: 0,
            actual_lower_bandwidth: 0,
            actual_lower_settle_bandwidth: 0,
            desired_upper_bandwidth: 0,
            actual_upper_bandwidth: 0,
            notch_filter_frequency: None,
            desired_impedance_test_frequency: 0,
            actual_impedance_test_frequency: 0,
        },
        stim_parameters: StimParameters {
            stim_step_size: 0,
            charge_recovery_current_limit: 0,
            charge_recovery_target_voltage: 0,
            amp_settle_mode: 0,
            charge_recovery_mode: 0,
        },
    };
    assert(header@ == blank_header()) by {
        let empty = Seq::<ChannelInfoView>::empty();
        assert(channel_views(header.amplifier_channels@) =~= empty);
        assert(channel_views(header.board_adc_channels@) =~= empty);
        assert(channel_views(header.board_dac_channels@) =~= empty);
        assert(channel_views(header.board_dig_in_channels@) =~= empty);
        assert(channel_views(header.board_dig_out_channels@) =~= empty);
        assert(header.spike_triggers@ =~= Seq::<SpikeTrigger>::empty());
    }

    check_magic_number(reader)?;
    read_fixed_fields(reader, &mut header)?;
    read_notes(reader, &mut header)?;
    let ghost flags_pos = reader.pos as int;
    read_board_settings(reader, &mut header)?;
    assert(header@ == header_before_catalog(
        bytes,
        start,
        header.notes@,
        flags_pos,
        header.reference_channel@,
    ));
    read_signal_summary(reader, &mut header)?;

    Ok(header)
}

// ---------------------------------------------------------------------------
// What every parsed header satisfies
// ---------------------------------------------------------------------------

/// Reading channel records keeps a consistent header consistent.
proof fn lemma_add_channels_consistent(
    bytes: Seq<u8>,
    pos: int,
    header: RhsHeaderView,
    port_name: Seq<char>,
    port_prefix: Seq<char>,
    count: nat,
)
    requires
        header.consistent(),
    ensures
        spec_add_channels(bytes, pos, header, port_name, port_prefix, count) matches Ok(
            (filed, _),
        ) ==> filed.consistent(),
    decreases count,
{
    if count > 0 {
        if let Ok((filed, next)) = spec_add_channel(bytes, pos, header, port_name, port_prefix) {
            lemma_add_channels_consistent(
                bytes,
                next,
                filed,
                port_name,
                port_prefix,
                (count - 1) as nat,
            );
        }
    }
}

/// Reading signal groups keeps a consistent header consistent.
proof fn lemma_add_groups_consistent(bytes: Seq<u8>, pos: int, header: RhsHeaderView, count: nat)
    requires
        header.consistent(),
    ensures
        spec_add_groups(bytes, pos, header, count) matches Ok((filed, _)) ==> filed.consistent(),
    decreases count,
{
    if count > 0 {
        if let Ok((name, prefix_at)) = spec_qstring(bytes, pos) {
            if let Ok((prefix, flags_at)) = spec_qstring(bytes, prefix_at) {
                if has_bytes(bytes, flags_at, 6) && le_i16(bytes, flags_at + 2) > 0 && le_i16(
                    bytes,
                    flags_at,
                ) > 0 {
                    lemma_add_channels_consistent(
                        bytes,
                        flags_at + 6,
                        header,
                        name,
                        prefix,
                        le_i16(bytes, flags_at + 2) as nat,
                    );
                }
            }
        }
        if let Ok((filed, next)) = spec_add_group(bytes, pos, header) {
            lemma_add_groups_consistent(bytes, next, filed, (count - 1) as nat);
        }
    }
}

/// Every header that parses is consistent: its gathered frequency and
/// stimulation parameters repeat its flat fields, every amplifier channel has
/// its spike trigger, and a block has 128 samples.
pub proof fn lemma_parsed_header_is_consistent(bytes: Seq<u8>, pos: int)
    ensures
        spec_read_header(bytes, pos) matches Ok((header, _)) ==> header.consistent(),
{
    if let Ok((header, _)) = spec_read_header(bytes, pos) {
        let (notes, flags_pos) = spec_notes(bytes, pos + 72)->Ok_0;
        let (reference_channel, catalog_pos) = spec_qstring(bytes, flags_pos + 4)->Ok_0;
        let before = header_before_catalog(bytes, pos, notes, flags_pos, reference_channel);
        assert(before.consistent());
        if le_i16(bytes, catalog_pos) > 0 {
            lemma_add_groups_consistent(
                bytes,
                catalog_pos + 2,
                before,
                le_i16(bytes, catalog_pos) as nat,
            );
        }
    }
}

} // verus!
