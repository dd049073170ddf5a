use drm1000_gui::protocol::opcode;
use drm1000_gui::protocol::{
    error_description, le_u32, parse_scanned_stations, parse_status, parse_text_message, Frame,
    FrameDecoder, Mode, ReceiverStatus, Request, HEADER_LEN,
};

fn response(opcode: u8, error: u8, payload: &[u8]) -> Vec<u8> {
    let mut result = vec![opcode, error];
    result.extend_from_slice(&((HEADER_LEN + payload.len()) as u32).to_le_bytes());
    result.extend_from_slice(payload);
    result
}

fn frame(opcode: u8, error: u8, payload: Vec<u8>) -> Frame {
    Frame {
        opcode,
        error,
        payload,
    }
}

#[test]
fn request_words_are_little_endian() {
    assert_eq!(
        Request::word(opcode::TUNE_TO_FREQUENCY, 1_000_000).encode(),
        vec![4, 0x40, 0x42, 0x0f, 0]
    );
}

#[test]
fn decoder_handles_fragmented_frames_and_noise() {
    let bytes = response(opcode::GET_VOLUME, 0, &[72]);
    let mut decoder = FrameDecoder::default();
    decoder.push(b"OK");
    decoder.push(&bytes[..3]);
    assert!(decoder.next_frame().is_none());
    decoder.push(&bytes[3..]);
    let frame = decoder.next_frame().unwrap();
    assert_eq!(frame.opcode, opcode::GET_VOLUME);
    assert_eq!(frame.payload, vec![72]);
}

#[test]
fn parses_key_status_fields() {
    let mut payload = vec![0; 409];
    payload[0] = 0;
    payload[1] = 1;
    payload[2] = 1;
    payload[3] = 1;
    payload[4..8].copy_from_slice(&18.5f32.to_le_bytes());
    payload[45] = 1;
    payload[46..50].copy_from_slice(&0x12345u32.to_le_bytes());
    payload[50] = 2;
    payload[60] = 1;
    payload[64..68].copy_from_slice(b"Test");
    payload[129] = 4;
    let tail = 382;
    payload[tail + 20..tail + 24].copy_from_slice(&(-73.25f32).to_le_bytes());
    let frame = Frame {
        opcode: opcode::GET_STATUS,
        error: 0,
        payload,
    };
    let status = parse_status(&frame).unwrap();
    assert_eq!(status.mode, Mode::Drm);
    assert!(status.frame_synced);
    assert_eq!(status.services[0].label, "Test");
    assert_eq!(f32::from_bits(status.rssi_dbm_bits), -73.25);
}

#[test]
fn scanned_station_label_indexes_keep_empty_entries() {
    let mut payload = 1u32.to_le_bytes().to_vec();
    payload.extend_from_slice(&(1_000_000u32).to_le_bytes());
    payload.extend_from_slice(&((1u32 << 25) | 0x123456).to_le_bytes());
    payload.extend_from_slice(&[0; 12]);
    payload.push(1);
    payload.extend_from_slice(&[0; 3]);
    payload.extend_from_slice(b"\0Radio One\0");
    let frame = Frame {
        opcode: opcode::GET_SCANNED_STATIONS,
        error: 0,
        payload,
    };
    let stations = parse_scanned_stations(&frame).unwrap();
    assert_eq!(stations[0].services[0].label, "Radio One");
}

#[test]
fn request_constructors_and_encoding() {
    let r = Request::new(opcode::GET_VERSION);
    assert_eq!(r.encode(), vec![0x10]);
    let r = Request::byte(opcode::SET_VOLUME, 65);
    assert_eq!(r.encode(), vec![0x1e, 65]);
    let r = Request::bytes(opcode::CMX918_REG_WRITE, &[0x3d, 0x55]);
    assert_eq!(r.parameters, vec![0x3d, 0x55]);
    assert_eq!(r.encode(), vec![0x0e, 0x3d, 0x55]);
    let r = Request::word(opcode::START_SCAN, 0x0102_0304);
    assert_eq!(r.encode(), vec![0x1a, 4, 3, 2, 1]);
}

#[test]
fn word_round_trips_through_le_u32() {
    for value in [0u32, 1, 0x1234_5678, u32::MAX, 1_000_000] {
        let r = Request::word(opcode::TUNE_TO_FREQUENCY, value);
        assert_eq!(le_u32(&r.parameters, 0), Ok(value));
    }
}

#[test]
fn le_u32_reports_truncation() {
    assert_eq!(le_u32(&[1, 2, 3, 4, 5], 1), Ok(0x0504_0302));
    assert_eq!(le_u32(&[1, 2, 3], 0), Err("truncated u32 field".to_owned()));
    assert_eq!(le_u32(&[1, 2, 3, 4], 1), Err("truncated u32 field".to_owned()));
}

#[test]
fn mode_status_values_and_set_values() {
    assert_eq!(Mode::from_status(0), Some(Mode::Drm));
    assert_eq!(Mode::from_status(3), Some(Mode::Fm));
    assert_eq!(Mode::from_status(6), Some(Mode::EmergencyWarning));
    assert_eq!(Mode::from_status(7), None);
    assert_eq!(Mode::Drm.set_value(), Some(0));
    assert_eq!(Mode::AmWide.set_value(), Some(1));
    assert_eq!(Mode::Fm.set_value(), Some(1));
    assert_eq!(Mode::AmNarrow.set_value(), Some(2));
    assert_eq!(Mode::Scanner.set_value(), None);
    assert_eq!(Mode::default(), Mode::Drm);
    assert_eq!(Mode::AmNarrow.to_string(), "AM narrow");
    assert_eq!(Mode::EmergencyWarning.to_string(), "Emergency warning");
}

#[test]
fn error_descriptions_and_require_ok() {
    assert_eq!(error_description(0), "no error");
    assert_eq!(error_description(13), "scanner is in progress");
    assert_eq!(error_description(18), "buttons disabled in headless mode");
    assert_eq!(error_description(1), "unknown module error");
    assert_eq!(error_description(200), "unknown module error");
    assert_eq!(frame(4, 0, vec![]).require_ok(), Ok(()));
    assert_eq!(
        frame(4, 3, vec![]).require_ok(),
        Err("invalid frequency".to_owned())
    );
}

#[test]
fn decoder_returns_frame_and_keeps_following_bytes() {
    let mut bytes = response(opcode::GET_TUNED_FREQ, 0, &[1, 2, 3, 4]);
    bytes.extend_from_slice(&response(opcode::GET_VOLUME, 0, &[9]));
    let mut decoder = FrameDecoder::default();
    decoder.push(&bytes);
    let first = decoder.next_frame().unwrap();
    assert_eq!(first.opcode, opcode::GET_TUNED_FREQ);
    assert_eq!(first.payload, vec![1, 2, 3, 4]);
    let second = decoder.next_frame().unwrap();
    assert_eq!(second.opcode, opcode::GET_VOLUME);
    assert_eq!(second.payload, vec![9]);
    assert!(decoder.next_frame().is_none());
}

#[test]
fn decoder_keeps_error_byte_and_skips_bad_headers() {
    let mut decoder = FrameDecoder::default();
    // An unknown error code, then a length beyond the largest frame.
    decoder.push(&[0x1d, 19, 0x99, 0x99, 0x99, 0x99]);
    decoder.push(&[0x1d, 0, 0xff, 0xff, 0xff, 0xff]);
    decoder.push(&response(opcode::GET_SCANNED_STATIONS, 4, &[]));
    let frame = decoder.next_frame().unwrap();
    assert_eq!(frame.opcode, opcode::GET_SCANNED_STATIONS);
    assert_eq!(frame.error, 4);
    assert!(frame.payload.is_empty());
    assert!(decoder.next_frame().is_none());
}

#[test]
fn decoder_waits_on_short_buffer() {
    let mut decoder = FrameDecoder::default();
    decoder.push(&[0x1d, 0, 7]);
    assert!(decoder.next_frame().is_none());
    decoder.push(&[0, 0, 0]);
    assert!(decoder.next_frame().is_none());
    decoder.push(&[50]);
    assert_eq!(decoder.next_frame().unwrap().payload, vec![50]);
}

#[test]
fn status_errors() {
    assert_eq!(
        parse_status(&frame(opcode::GET_STATUS, 16, vec![0; 409])).unwrap_err(),
        "screen not present"
    );
    assert_eq!(
        parse_status(&frame(opcode::GET_STATUS, 0, vec![0; 12])).unwrap_err(),
        "status payload is 12 bytes, expected 409"
    );
    let mut payload = vec![0; 409];
    payload[0] = 9;
    assert_eq!(
        parse_status(&frame(opcode::GET_STATUS, 0, payload)).unwrap_err(),
        "unknown mode 9"
    );
}

#[test]
fn status_fields_and_service_cap() {
    let mut payload = vec![0; 409];
    payload[0] = 3;
    payload[12] = 1;
    payload[30] = 2;
    payload[41..45].copy_from_slice(&(-65_536i32).to_le_bytes());
    payload[45] = 9;
    for index in 0..4 {
        let base = 46 + index * 84;
        payload[base..base + 4].copy_from_slice(&(0xfff0_0001u32 + index as u32).to_le_bytes());
        payload[base + 6] = 1;
        payload[base + 18..base + 21].copy_from_slice(b"A\0\0");
        payload[base + 83] = 200;
    }
    payload[382 + 16..382 + 20].copy_from_slice(&(-12.0f32).to_le_bytes());
    let status = parse_status(&frame(opcode::GET_STATUS, 0, payload)).unwrap();
    assert_eq!(status.mode, Mode::Fm);
    assert!(status.sdc_crc_valid);
    assert!(!status.msc_crc_valid);
    assert_eq!(status.robustness_mode, 2);
    assert_eq!(status.frequency_offset_raw as f32 / 65_536.0, -1.0);
    assert_eq!(status.services.len(), 4);
    assert_eq!(status.services[2].id, 0x00003);
    assert!(status.services[2].is_data);
    assert!(!status.services[2].text_available);
    assert_eq!(status.services[1].label, "A");
    assert_eq!(f32::from_bits(status.frame_rms_dbfs_bits), -12.0);
}

#[test]
fn status_labels_decode_lossily() {
    let mut payload = vec![0; 409];
    payload[45] = 1;
    payload[64..67].copy_from_slice(&[b'X', 0xff, b'Y']);
    payload[129] = 3;
    let status = parse_status(&frame(opcode::GET_STATUS, 0, payload)).unwrap();
    assert_eq!(status.services[0].label, "X\u{fffd}Y");
}

#[test]
fn default_status_is_empty() {
    let status = ReceiverStatus::default();
    assert_eq!(status.mode, Mode::Drm);
    assert_eq!(status.rssi_dbm_bits, 0);
    assert!(status.services.is_empty());
}

#[test]
fn station_list_errors() {
    assert_eq!(
        parse_scanned_stations(&frame(opcode::GET_SCANNED_STATIONS, 4, vec![])).unwrap_err(),
        "no station found"
    );
    assert_eq!(
        parse_scanned_stations(&frame(opcode::GET_SCANNED_STATIONS, 0, vec![1, 0])).unwrap_err(),
        "station response is too short"
    );
    assert_eq!(
        parse_scanned_stations(&frame(opcode::GET_SCANNED_STATIONS, 0, vec![101, 0, 0, 0]))
            .unwrap_err(),
        "invalid station count or truncated station table"
    );
    assert_eq!(
        parse_scanned_stations(&frame(opcode::GET_SCANNED_STATIONS, 0, vec![1, 0, 0, 0, 0]))
            .unwrap_err(),
        "invalid station count or truncated station table"
    );
}

#[test]
fn station_records_decode_mode_frequency_and_services() {
    let mut payload = 2u32.to_le_bytes().to_vec();
    // Station 0: FM (mode 3) at 98.5 MHz, two services.
    payload.extend_from_slice(&((3u32 << 30) | 98_500_000).to_le_bytes());
    payload.extend_from_slice(&((2u32 << 25) | (1 << 24) | 0xabcdef).to_le_bytes());
    payload.extend_from_slice(&((9u32 << 25) | 0x000001).to_le_bytes());
    payload.extend_from_slice(&[0; 8]);
    payload.push(2);
    payload.extend_from_slice(&[0; 3]);
    // Station 1: DRM at 15.2 MHz, service count capped at four.
    payload.extend_from_slice(&15_200_000u32.to_le_bytes());
    payload.extend_from_slice(&[0; 16]);
    payload.push(9);
    payload.extend_from_slice(&[0; 3]);
    payload.extend_from_slice(b"one\0two\0three");
    let stations = parse_scanned_stations(&frame(opcode::GET_SCANNED_STATIONS, 0, payload)).unwrap();
    assert_eq!(stations.len(), 2);
    assert_eq!(stations[0].mode, Mode::Fm);
    assert_eq!(stations[0].frequency_hz, 98_500_000);
    assert_eq!(stations[0].services.len(), 2);
    assert_eq!(stations[0].services[0].id, 0xabcdef);
    assert!(stations[0].services[0].is_data);
    assert_eq!(stations[0].services[0].label, "three");
    assert_eq!(stations[0].services[1].label, "");
    assert!(!stations[0].services[1].is_data);
    assert_eq!(stations[1].mode, Mode::Drm);
    assert_eq!(stations[1].frequency_hz, 15_200_000);
    assert_eq!(stations[1].services.len(), 4);
    assert_eq!(stations[1].services[0].label, "one");
}

#[test]
fn text_messages() {
    assert_eq!(
        parse_text_message(&frame(opcode::TEXT_MSG_SERVICE, 0, vec![0, 0, b'H', b'i'])),
        Ok(Some("Hi".to_owned()))
    );
    assert_eq!(
        parse_text_message(&frame(opcode::TEXT_MSG_SERVICE, 0, vec![1, 0, b'H'])),
        Ok(None)
    );
    assert_eq!(
        parse_text_message(&frame(opcode::TEXT_MSG_SERVICE, 0, vec![0])),
        Err("text message response is too short".to_owned())
    );
    assert_eq!(
        parse_text_message(&frame(opcode::TEXT_MSG_SERVICE, 17, vec![])),
        Err("scanner is not in progress".to_owned())
    );
}

#[test]
fn session_starts_with_uart_init_byte() {
    assert_eq!(Request::new(opcode::UART_INIT).encode(), vec![0x7f]);
}

#[test]
fn label_table_keeps_empty_entries() {
    // Labels "", "", "B": the service that points at index 2 gets "B".
    let mut payload = 1u32.to_le_bytes().to_vec();
    payload.extend_from_slice(&7_000_000u32.to_le_bytes());
    payload.extend_from_slice(&(2u32 << 25).to_le_bytes());
    payload.extend_from_slice(&[0; 12]);
    payload.push(1);
    payload.extend_from_slice(&[0; 3]);
    payload.extend_from_slice(b"\0\0B");
    let stations = parse_scanned_stations(&frame(opcode::GET_SCANNED_STATIONS, 0, payload)).unwrap();
    assert_eq!(stations[0].services[0].label, "B");
}

#[test]
fn byte_by_byte_delivery_decodes_the_same_frames() {
    let mut stream = vec![b'x', 0x99];
    stream.extend_from_slice(&response(opcode::GET_TUNED_FREQ, 0, &[1, 2, 3, 4]));
    stream.push(0x88);
    stream.extend_from_slice(&response(opcode::RSSI_GET, 0, &[5, 6, 7, 8]));
    let mut whole = FrameDecoder::default();
    whole.push(&stream);
    let mut expected = Vec::new();
    while let Some(frame) = whole.next_frame() {
        expected.push(frame);
    }
    let mut chunked = FrameDecoder::default();
    let mut received = Vec::new();
    for byte in &stream {
        chunked.push(&[*byte]);
        while let Some(frame) = chunked.next_frame() {
            received.push(frame);
        }
    }
    assert_eq!(expected.len(), 2);
    assert_eq!(received, expected);
}

#[test]
fn selected_modes_read_back() {
    for mode in [Mode::Drm, Mode::AmWide, Mode::AmNarrow] {
        assert_eq!(Mode::from_status(mode.set_value().unwrap()), Some(mode));
    }
    assert_eq!(Mode::from_status(Mode::Fm.set_value().unwrap()), Some(Mode::AmWide));
}

#[test]
fn chunking_and_polling_do_not_change_frames() {
    let a = {
        let mut a = vec![0x88];
        a.extend_from_slice(&response(opcode::GET_VOLUME, 0, &[1]));
        a.extend_from_slice(&response(opcode::GET_TUNED_FREQ, 0, &[1, 2, 3, 4])[..4]);
        a
    };
    let b = {
        let mut b = response(opcode::GET_TUNED_FREQ, 0, &[1, 2, 3, 4])[4..].to_vec();
        b.extend_from_slice(&response(opcode::RSSI_GET, 2, &[]));
        b
    };
    let drain = |decoder: &mut FrameDecoder, frames: &mut Vec<Frame>| {
        while let Some(frame) = decoder.next_frame() {
            frames.push(frame);
        }
    };
    let mut whole = FrameDecoder::default();
    whole.push(&[a.clone(), b.clone()].concat());
    let mut whole_frames = Vec::new();
    drain(&mut whole, &mut whole_frames);
    let mut polled = FrameDecoder::default();
    let mut polled_frames = Vec::new();
    polled.push(&a);
    drain(&mut polled, &mut polled_frames);
    assert_eq!(polled_frames.len(), 1);
    polled.push(&b);
    drain(&mut polled, &mut polled_frames);
    assert_eq!(polled_frames, whole_frames);
    assert_eq!(whole_frames.len(), 3);
    assert_eq!(whole_frames[2].error, 2);
}
