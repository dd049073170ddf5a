//! What the codec does, stated over the bytes of the UART protocol with
//! literal opcodes, offsets and values.

use vstd::prelude::*;

use super::{
    lemma_decode_sent_frame, lemma_le_bytes_roundtrip, spec_error_description, spec_le_bytes,
    spec_le_u32, spec_mode_from_status, spec_mode_name, spec_mode_set_value, spec_next_frame,
    spec_parse_scanned_stations, spec_parse_status, spec_parse_text_message, spec_split_nul,
    FrameModel, Mode, ServiceModel,
};
use crate::text::{spec_decimal, spec_trim_end_nul, spec_utf8_lossy};

verus! {

/// The module's numbering of demodulator modes, and the set-mode values:
/// DRM 0, AM wide 1, AM narrow 2, FM 3, scanner 4, AFS search 5, emergency
/// warning 6; DRM is selected with 0, AM wide and FM with 1, AM narrow with 2,
/// and the other modes cannot be selected.
pub proof fn lemma_mode_numbering(value: u8)
    ensures
        spec_mode_from_status(0) == Some(Mode::Drm),
        spec_mode_from_status(1) == Some(Mode::AmWide),
        spec_mode_from_status(2) == Some(Mode::AmNarrow),
        spec_mode_from_status(3) == Some(Mode::Fm),
        spec_mode_from_status(4) == Some(Mode::Scanner),
        spec_mode_from_status(5) == Some(Mode::AfsSearch),
        spec_mode_from_status(6) == Some(Mode::EmergencyWarning),
        value > 6 ==> spec_mode_from_status(value) is None,
        spec_mode_set_value(Mode::Drm) == Some(0u8),
        spec_mode_set_value(Mode::AmWide) == Some(1u8),
        spec_mode_set_value(Mode::Fm) == Some(1u8),
        spec_mode_set_value(Mode::AmNarrow) == Some(2u8),
        spec_mode_set_value(Mode::Scanner) is None,
        spec_mode_set_value(Mode::AfsSearch) is None,
        spec_mode_set_value(Mode::EmergencyWarning) is None,
        spec_mode_name(Mode::Drm) == "DRM"@,
        spec_mode_name(Mode::AmWide) == "AM wide"@,
        spec_mode_name(Mode::AmNarrow) == "AM narrow"@,
        spec_mode_name(Mode::Fm) == "FM"@,
        spec_mode_name(Mode::Scanner) == "Scanner"@,
        spec_mode_name(Mode::AfsSearch) == "AFS search"@,
        spec_mode_name(Mode::EmergencyWarning) == "Emergency warning"@,
{
}

/// The module's error codes and their texts.
pub proof fn lemma_error_texts(code: u8)
    ensures
        spec_error_description(0) == "no error"@,
        spec_error_description(3) == "invalid frequency"@,
        spec_error_description(4) == "no station found"@,
        spec_error_description(5) == "station load failed: no station"@,
        spec_error_description(6) == "station load failed: flash error"@,
        spec_error_description(7) == "station store failed: flash error"@,
        spec_error_description(8) == "station store failed: current station invalid"@,
        spec_error_description(9) == "persistent configuration contains an invalid parameter"@,
        spec_error_description(10) == "persistent configuration write failed"@,
        spec_error_description(11) == "persistent configuration is invalid"@,
        spec_error_description(12) == "persistent configuration read failed"@,
        spec_error_description(13) == "scanner is in progress"@,
        spec_error_description(14) == "invalid demodulation mode"@,
        spec_error_description(15) == "invalid volume"@,
        spec_error_description(16) == "screen not present"@,
        spec_error_description(17) == "scanner is not in progress"@,
        spec_error_description(18) == "buttons disabled in headless mode"@,
        (code == 1 || code == 2 || code > 18) ==> spec_error_description(code)
            == "unknown module error"@,
{
}

/// Every reply the module sends is delivered: a frame whose opcode is one of
/// 0x00..=0x16, 0x18..=0x27, 0x50, 0x51, 0x60..=0x62 or 0x7f, whose error
/// code is at most 18 and whose total length (six header bytes plus the
/// payload) is at most 1 MiB, is decoded from the head of the buffer exactly
/// as sent, and the bytes after it stay.
pub proof fn lemma_reply_opcodes_are_delivered(
    opcode: u8,
    error: u8,
    payload: Seq<u8>,
    rest: Seq<u8>,
)
    requires
        opcode <= 0x16 || (0x18 <= opcode && opcode <= 0x27) || opcode == 0x50 || opcode == 0x51
            || (0x60 <= opcode && opcode <= 0x62) || opcode == 0x7f,
        error <= 18,
        6 + payload.len() <= 1_048_576,
    ensures
        spec_next_frame(
            seq![opcode, error] + spec_le_bytes((6 + payload.len()) as u32) + payload + rest,
        ) == (Some(FrameModel { opcode, error, payload }), rest),
{
    lemma_decode_sent_frame(opcode, error, payload, rest);
}

/// A buffer whose first six bytes cannot be a reply header loses its first
/// byte and nothing else: the opcode is not a reply opcode (0x17, 0x28..=0x4f,
/// 0x52..=0x5f, 0x63..=0x7e, 0x80 and above), or the error code exceeds 18,
/// or the announced length is below six or above 1 MiB.
pub proof fn lemma_non_headers_are_skipped(buffer: Seq<u8>)
    requires
        buffer.len() >= 6,
        buffer[0] == 0x17 || (0x28 <= buffer[0] && buffer[0] <= 0x4f) || (0x52 <= buffer[0]
            && buffer[0] <= 0x5f) || (0x63 <= buffer[0] && buffer[0] <= 0x7e) || buffer[0] >= 0x80
            || buffer[1] > 18 || spec_le_u32(buffer, 2) < 6 || spec_le_u32(buffer, 2) > 1_048_576,
    ensures
        spec_next_frame(buffer) == spec_next_frame(buffer.drop_first()),
{
}

/// A full word is read from four bytes little-endian: the first byte is the
/// least significant.
pub proof fn lemma_le_u32_reads_little_endian(bytes: Seq<u8>, offset: int)
    requires
        0 <= offset,
        offset + 4 <= bytes.len(),
    ensures
        spec_le_u32(bytes, offset) == bytes[offset] + 256 * bytes[offset + 1] + 65536 * bytes[offset
            + 2] + 16777216 * bytes[offset + 3],
{
    let b0 = bytes[offset];
    let b1 = bytes[offset + 1];
    let b2 = bytes[offset + 2];
    let b3 = bytes[offset + 3];
    assert((b0 as u32) | ((b1 as u32) << 8u32) | ((b2 as u32) << 16u32) | ((b3 as u32) << 24u32)
        == b0 + 256 * b1 + 65536 * b2 + 16777216 * b3) by (bit_vector);
}

/// The status packet layout: for an error-free reply of 409 bytes with a
/// known mode byte, byte 0 is the mode, bytes 1, 2, 3, 12 and 21 are the
/// frame-sync, signal, FAC, SDC and MSC flags, the MERs are the words at 4, 13
/// and 22, byte 30 is the robustness mode, the sample-rate offset is the word
/// at 37, the frequency offset the signed word at 41, byte 45 counts the
/// services (at most four are read), service `i` is the 84-byte record at
/// 46 + 84 * i, and the frame RMS and RSSI are the words at 398 and 402.
/// Other replies are errors: the module's error, a wrong size, an unknown
/// mode.
pub proof fn lemma_status_layout(frame: FrameModel)
    ensures
        frame.error != 0 ==> spec_parse_status(frame) == Err::<super::StatusModel, Seq<char>>(
            spec_error_description(frame.error),
        ),
        frame.error == 0 && frame.payload.len() != 409 ==> spec_parse_status(frame) is Err,
        frame.error == 0 && frame.payload.len() == 409 && frame.payload[0] > 6 ==> spec_parse_status(
            frame,
        ) == Err::<super::StatusModel, Seq<char>>(
            "unknown mode "@ + spec_decimal(frame.payload[0] as nat),
        ),
        frame.error == 0 && frame.payload.len() == 409 && frame.payload[0] <= 6 ==> ({
            let p = frame.payload;
            let st = spec_parse_status(frame)->Ok_0;
            let count: int = if p[45] < 4 {
                p[45] as int
            } else {
                4
            };
            &&& spec_parse_status(frame) is Ok
            &&& spec_mode_from_status(p[0]) == Some(st.mode)
            &&& st.frame_synced == (p[1] != 0)
            &&& st.signal_detected == (p[2] != 0)
            &&& st.fac_crc_valid == (p[3] != 0)
            &&& st.sdc_crc_valid == (p[12] != 0)
            &&& st.msc_crc_valid == (p[21] != 0)
            &&& st.fac_mer_db_bits == spec_le_u32(p, 4)
            &&& st.sdc_mer_db_bits == spec_le_u32(p, 13)
            &&& st.msc_mer_db_bits == spec_le_u32(p, 22)
            &&& st.robustness_mode == p[30]
            &&& st.sample_rate_offset_ppm_bits == spec_le_u32(p, 37)
            &&& st.frequency_offset_raw == spec_le_u32(p, 41) as i32
            &&& st.frame_rms_dbfs_bits == spec_le_u32(p, 398)
            &&& st.rssi_dbm_bits == spec_le_u32(p, 402)
            &&& st.services.len() == count
            &&& forall|i: int|
                0 <= i < count ==> {
                    let base = 46 + 84 * i;
                    let label_length: int = if p[base + 83] < 65 {
                        p[base + 83] as int
                    } else {
                        65
                    };
                    &&& (#[trigger] st.services[i]).id == spec_le_u32(p, base) & 0x000f_ffff
                    &&& st.services[i].short_id == p[base + 4]
                    &&& st.services[i].is_data == (p[base + 6] != 0)
                    &&& st.services[i].text_available == (p[base + 14] != 0)
                    &&& st.services[i].label == spec_trim_end_nul(
                        spec_utf8_lossy(p.subrange(base + 18, base + 18 + label_length)),
                    )
                }
        }),
{
}

proof fn lemma_packed_bits(x: u32)
    by (bit_vector)
    ensures
        (x >> 25u32) & 0x7f == x >> 25u32,
        (x & (1u32 << 24u32) != 0) == ((x >> 24u32) & 1 == 1),
        x >> 30u32 <= 3,
{
}

/// The station-list layout: the first word counts the stations (at most
/// 100); station `i` is the 24-byte record at 4 + 24 * i, whose first word
/// holds the mode in its top two bits and the frequency in the other thirty,
/// whose byte 20 counts its services (at most four are read), and whose
/// words at 4 + 4 * j describe service `j`: identifier in bits 0..=23, data
/// flag in bit 24, and in bits 25..=31 the index of its label in the NUL
/// separated table after the records (empty where there is no such entry).
pub proof fn lemma_station_list_layout(frame: FrameModel)
    ensures
        frame.error != 0 ==> spec_parse_scanned_stations(frame) == Err::<
            Seq<super::StationModel>,
            Seq<char>,
        >(spec_error_description(frame.error)),
        frame.error == 0 && frame.payload.len() < 4 ==> spec_parse_scanned_stations(frame) is Err,
        frame.error == 0 && frame.payload.len() >= 4 && (spec_le_u32(frame.payload, 0) > 100
            || frame.payload.len() < 4 + 24 * spec_le_u32(frame.payload, 0))
            ==> spec_parse_scanned_stations(frame) is Err,
        frame.error == 0 && frame.payload.len() >= 4 && spec_le_u32(frame.payload, 0) <= 100
            && frame.payload.len() >= 4 + 24 * spec_le_u32(frame.payload, 0) ==> ({
            let p = frame.payload;
            let count = spec_le_u32(p, 0) as int;
            let labels = spec_split_nul(p.subrange(4 + 24 * count, p.len() as int));
            let stations = spec_parse_scanned_stations(frame)->Ok_0;
            &&& spec_parse_scanned_stations(frame) is Ok
            &&& stations.len() == count
            &&& forall|i: int|
                0 <= i < count ==> {
                    let base = 4 + 24 * i;
                    let word = spec_le_u32(p, base);
                    let service_count: int = if p[base + 20] < 4 {
                        p[base + 20] as int
                    } else {
                        4
                    };
                    &&& (#[trigger] stations[i]).frequency_hz == word & 0x3fff_ffff
                    &&& stations[i].mode == (if word >> 30u32 == 0 {
                        Mode::Drm
                    } else if word >> 30u32 == 1 {
                        Mode::AmWide
                    } else if word >> 30u32 == 2 {
                        Mode::AmNarrow
                    } else {
                        Mode::Fm
                    })
                    &&& stations[i].services.len() == service_count
                    &&& forall|j: int|
                        0 <= j < service_count ==> {
                            let packed = spec_le_u32(p, base + 4 + 4 * j);
                            let label_index = (packed >> 25u32) as int;
                            let service: ServiceModel = #[trigger] stations[i].services[j];
                            &&& service.id == packed & 0x00ff_ffff
                            &&& service.is_data == ((packed >> 24u32) & 1 == 1)
                            &&& service.short_id == 0
                            &&& !service.text_available
                            &&& service.label == if label_index < labels.len() {
                                spec_utf8_lossy(labels[label_index])
                            } else {
                                Seq::<char>::empty()
                            }
                        }
                }
        }),
{
    let p = frame.payload;
    if frame.error == 0 && p.len() >= 4 && spec_le_u32(p, 0) <= 100 && p.len() >= 4 + 24
        * spec_le_u32(p, 0) {
        let count = spec_le_u32(p, 0) as int;
        let stations = spec_parse_scanned_stations(frame)->Ok_0;
        assert forall|i: int| 0 <= i < count implies {
            let base = 4 + 24 * i;
            let word = spec_le_u32(p, base);
            (#[trigger] stations[i]).mode == (if word >> 30u32 == 0 {
                Mode::Drm
            } else if word >> 30u32 == 1 {
                Mode::AmWide
            } else if word >> 30u32 == 2 {
                Mode::AmNarrow
            } else {
                Mode::Fm
            })
        } by {
            let word = spec_le_u32(p, 4 + 24 * i);
            lemma_packed_bits(word);
        }
        assert forall|i: int, j: int|
            #![trigger stations[i].services[j]]
            0 <= i < count && 0 <= j < stations[i].services.len() implies {
                let packed = spec_le_u32(p, 4 + 24 * i + 4 + 4 * j);
                &&& (packed >> 25u32) & 0x7f == packed >> 25u32
                &&& (packed & (1u32 << 24u32) != 0) == ((packed >> 24u32) & 1 == 1)
            } by {
            lemma_packed_bits(spec_le_u32(p, 4 + 24 * i + 4 + 4 * j));
        }
    }
}

/// A broadcast-text reply: the module's error, too short below two bytes,
/// no message when its first byte is 1, otherwise the text after the two
/// leading bytes.
pub proof fn lemma_text_message_layout(frame: FrameModel)
    ensures
        frame.error != 0 ==> spec_parse_text_message(frame) == Err::<Option<Seq<char>>, Seq<char>>(
            spec_error_description(frame.error),
        ),
        frame.error == 0 && frame.payload.len() < 2 ==> spec_parse_text_message(frame) == Err::<
            Option<Seq<char>>,
            Seq<char>,
        >("text message response is too short"@),
        frame.error == 0 && frame.payload.len() >= 2 && frame.payload[0] == 1
            ==> spec_parse_text_message(frame) == Ok::<Option<Seq<char>>, Seq<char>>(None),
        frame.error == 0 && frame.payload.len() >= 2 && frame.payload[0] != 1
            ==> spec_parse_text_message(frame) == Ok::<Option<Seq<char>>, Seq<char>>(
            Some(spec_utf8_lossy(frame.payload.subrange(2, frame.payload.len() as int))),
        ),
{
}

} // verus!
