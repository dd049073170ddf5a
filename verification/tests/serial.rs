use drm1000_gui::protocol::opcode;
use drm1000_gui::protocol::{Frame, Mode, Request};
use drm1000_gui::serial::{
    disconnect_requests, initial_requests, poll_requests, prepare_send, process_frame, push_log,
    record_connect_failed, record_connected, record_connecting, record_connection_lost,
    record_disconnected, record_not_connected, record_send_result, scan_completed_requests,
    scan_poll_requests, summarize_port, PortKind, SerialSnapshot, MAX_LOG_LINES,
};

fn frame(opcode: u8, error: u8, payload: Vec<u8>) -> Frame {
    Frame {
        opcode,
        error,
        payload,
    }
}

fn opcodes(requests: &[Request]) -> Vec<(u8, Vec<u8>)> {
    requests
        .iter()
        .map(|r| (r.opcode, r.parameters.clone()))
        .collect()
}

#[test]
fn unrelated_frames_do_not_refresh_frequency_or_volume_editors() {
    let mut snapshot = SerialSnapshot::default();
    process_frame(
        Frame {
            opcode: opcode::GET_VERSION,
            error: 0,
            payload: b"test".to_vec(),
        },
        &mut snapshot,
    );
    assert_eq!(snapshot.frequency_generation, 0);
    assert_eq!(snapshot.volume_generation, 0);

    process_frame(
        Frame {
            opcode: opcode::GET_VOLUME,
            error: 0,
            payload: vec![42],
        },
        &mut snapshot,
    );
    assert_eq!(snapshot.volume, Some(42));
    assert_eq!(snapshot.volume_generation, 1);
}

#[test]
fn station_results_finish_legacy_scan() {
    let mut snapshot = SerialSnapshot {
        scan_active: true,
        ..Default::default()
    };
    let completed = process_frame(
        Frame {
            opcode: opcode::GET_SCANNED_STATIONS,
            error: 0,
            payload: 0u32.to_le_bytes().to_vec(),
        },
        &mut snapshot,
    );
    assert!(completed);
    assert!(!snapshot.scan_active);
    assert_eq!(snapshot.scanner_progress, Some(100));
}

#[test]
fn no_stations_error_finishes_legacy_scan() {
    let mut snapshot = SerialSnapshot {
        scan_active: true,
        ..Default::default()
    };
    let completed = process_frame(
        Frame {
            opcode: opcode::GET_SCANNED_STATIONS,
            error: 4,
            payload: Vec::new(),
        },
        &mut snapshot,
    );
    assert!(completed);
    assert!(!snapshot.scan_active);
}

#[test]
fn default_snapshot() {
    let snapshot = SerialSnapshot::default();
    assert_eq!(snapshot.connection_status, "idle");
    assert_eq!(snapshot.log_lines, vec!["serial controller started".to_owned()]);
    assert!(snapshot.ports.is_empty());
    assert!(snapshot.status.is_none());
    assert_eq!(snapshot.generation, 0);
}

#[test]
fn every_frame_is_logged() {
    let mut snapshot = SerialSnapshot::default();
    process_frame(frame(0x1d, 0, vec![7, 8]), &mut snapshot);
    process_frame(frame(0x0a, 0, vec![0; 20]), &mut snapshot);
    assert_eq!(snapshot.log_lines.len(), 3);
    assert_eq!(snapshot.log_lines[1], "< opcode 0x1D, 2 data bytes");
    assert_eq!(snapshot.log_lines[2], "< opcode 0x0A, 20 data bytes");
}

#[test]
fn log_keeps_newest_lines() {
    let mut snapshot = SerialSnapshot::default();
    for index in 0..200 {
        push_log(&mut snapshot, format!("line {index}"));
    }
    assert_eq!(snapshot.log_lines.len(), MAX_LOG_LINES);
    assert_eq!(snapshot.log_lines[0], "line 40");
    assert_eq!(snapshot.log_lines[MAX_LOG_LINES - 1], "line 199");
}

#[test]
fn module_errors_are_recorded() {
    let mut snapshot = SerialSnapshot::default();
    let completed = process_frame(frame(opcode::TUNE_TO_FREQUENCY, 3, vec![]), &mut snapshot);
    assert!(!completed);
    assert_eq!(snapshot.last_error.as_deref(), Some("0x03: invalid frequency"));
}

#[test]
fn scan_in_progress_reply_is_ignored_during_scan() {
    let mut snapshot = SerialSnapshot {
        scan_active: true,
        ..Default::default()
    };
    let completed = process_frame(frame(opcode::GET_SCANNED_STATIONS, 13, vec![]), &mut snapshot);
    assert!(!completed);
    assert!(snapshot.scan_active);
    assert!(snapshot.last_error.is_none());
}

#[test]
fn failed_scan_start_reply_stops_scan() {
    let mut snapshot = SerialSnapshot {
        scan_active: true,
        ..Default::default()
    };
    process_frame(frame(opcode::START_SCAN, 13, vec![]), &mut snapshot);
    assert!(!snapshot.scan_active);
    assert_eq!(snapshot.last_error.as_deref(), Some("0x0D: scanner is in progress"));
}

#[test]
fn frequency_mode_and_register_replies() {
    let mut snapshot = SerialSnapshot::default();
    process_frame(frame(opcode::GET_TUNED_FREQ, 0, 15_200_000u32.to_le_bytes().to_vec()), &mut snapshot);
    assert_eq!(snapshot.frequency_hz, Some(15_200_000));
    assert_eq!(snapshot.frequency_generation, 1);
    process_frame(frame(opcode::GET_TUNED_FREQ, 0, vec![1, 2]), &mut snapshot);
    assert_eq!(snapshot.frequency_hz, Some(15_200_000));
    assert_eq!(snapshot.frequency_generation, 1);
    assert_eq!(snapshot.last_error.as_deref(), Some("truncated u32 field"));
    process_frame(frame(opcode::GET_DEMOD_MODE, 0, vec![2]), &mut snapshot);
    assert_eq!(snapshot.mode, Some(Mode::AmNarrow));
    process_frame(frame(opcode::GET_DEMOD_MODE, 0, vec![]), &mut snapshot);
    assert_eq!(snapshot.mode, None);
    prepare_send(&mut snapshot, &Request::byte(opcode::CMX918_REG_READ, 0x3d));
    assert_eq!(snapshot.last_register, Some((0x3d, 0)));
    process_frame(frame(opcode::CMX918_REG_READ, 0, vec![0x55]), &mut snapshot);
    assert_eq!(snapshot.last_register, Some((0x3d, 0x55)));
}

#[test]
fn version_rssi_progress_and_text_replies() {
    let mut snapshot = SerialSnapshot::default();
    process_frame(frame(opcode::GET_VERSION, 0, b"\0v1.2\0\0".to_vec()), &mut snapshot);
    assert_eq!(snapshot.firmware_version.as_deref(), Some("v1.2"));
    process_frame(frame(opcode::RSSI_GET, 0, (-50.5f32).to_bits().to_le_bytes().to_vec()), &mut snapshot);
    let status = snapshot.status.as_ref().unwrap();
    assert_eq!(f32::from_bits(status.rssi_dbm_bits), -50.5);
    assert_eq!(status.mode, Mode::Drm);
    process_frame(frame(opcode::GET_SCANNER_PROGRESS, 0, vec![40]), &mut snapshot);
    assert_eq!(snapshot.scanner_progress, Some(40));
    process_frame(frame(opcode::TEXT_MSG_SERVICE, 0, vec![0, 0, b'O', b'K']), &mut snapshot);
    assert_eq!(snapshot.text_message.as_deref(), Some("OK"));
    process_frame(frame(opcode::TEXT_MSG_SERVICE, 0, vec![1, 0]), &mut snapshot);
    assert_eq!(snapshot.text_message, None);
}

#[test]
fn progress_of_one_hundred_completes_scan() {
    let mut snapshot = SerialSnapshot::default();
    prepare_send(&mut snapshot, &Request::word(opcode::START_SCAN, 0));
    assert!(snapshot.scan_active);
    assert_eq!(snapshot.scanner_progress, None);
    let completed = process_frame(frame(opcode::GET_SCANNER_PROGRESS, 0, vec![100]), &mut snapshot);
    assert!(completed);
    assert!(!snapshot.scan_active);
}

#[test]
fn status_reply_sets_mode_and_status() {
    let mut snapshot = SerialSnapshot::default();
    let mut payload = vec![0; 409];
    payload[0] = 1;
    process_frame(frame(opcode::GET_STATUS, 0, payload), &mut snapshot);
    assert_eq!(snapshot.mode, Some(Mode::AmWide));
    assert_eq!(snapshot.status.as_ref().unwrap().mode, Mode::AmWide);
    process_frame(frame(opcode::GET_STATUS, 0, vec![0; 3]), &mut snapshot);
    assert_eq!(
        snapshot.last_error.as_deref(),
        Some("status payload is 3 bytes, expected 409")
    );
}

#[test]
fn request_sequences() {
    assert_eq!(
        opcodes(&initial_requests()),
        vec![
            (0x10, vec![]),
            (0x14, vec![]),
            (0x15, vec![]),
            (0x1d, vec![]),
            (0x20, vec![1]),
            (0x0f, vec![1]),
        ]
    );
    assert_eq!(
        opcodes(&scan_completed_requests()),
        vec![(0x09, vec![]), (0x14, vec![]), (0x15, vec![])]
    );
    assert_eq!(
        opcodes(&scan_poll_requests()),
        vec![(0x27, vec![]), (0x15, vec![]), (0x09, vec![])]
    );
    assert_eq!(
        opcodes(&disconnect_requests()),
        vec![(0x0f, vec![0]), (0x20, vec![0])]
    );
}

#[test]
fn connection_lifecycle() {
    let mut snapshot = SerialSnapshot::default();
    record_connecting(&mut snapshot);
    assert_eq!(snapshot.connection_status, "connecting");
    record_connect_failed(&mut snapshot, "no such port".to_owned());
    assert_eq!(snapshot.connection_status, "error");
    assert_eq!(snapshot.last_error.as_deref(), Some("no such port"));
    record_connected(&mut snapshot, "/dev/ttyUSB0".to_owned());
    assert_eq!(snapshot.connection_status, "connected");
    assert_eq!(snapshot.connected_port.as_deref(), Some("/dev/ttyUSB0"));
    assert!(snapshot.last_error.is_none());
    assert_eq!(
        snapshot.log_lines.last().unwrap(),
        "connected to /dev/ttyUSB0 at 921600 baud"
    );
    record_send_result(&mut snapshot, 0x1e, Ok(()));
    assert_eq!(snapshot.log_lines.last().unwrap(), "> opcode 0x1E");
    record_connection_lost(&mut snapshot, "serial port closed".to_owned());
    assert_eq!(snapshot.connection_status, "error");
    assert!(snapshot.connected_port.is_none());
    record_not_connected(&mut snapshot);
    assert_eq!(snapshot.last_error.as_deref(), Some("not connected"));
    record_disconnected(&mut snapshot);
    assert_eq!(snapshot.connection_status, "disconnected");
    assert_eq!(snapshot.log_lines.last().unwrap(), "disconnected");
}

#[test]
fn failed_scan_start_send_is_not_active() {
    let mut snapshot = SerialSnapshot::default();
    let request = Request::word(opcode::START_SCAN, 0);
    prepare_send(&mut snapshot, &request);
    assert!(snapshot.scan_active);
    record_send_result(&mut snapshot, request.opcode, Err("serial write failed".to_owned()));
    assert!(!snapshot.scan_active);
    assert_eq!(snapshot.last_error.as_deref(), Some("serial write failed"));
}

#[test]
fn port_summaries() {
    let port = summarize_port(
        "/dev/ttyUSB0".to_owned(),
        PortKind::Usb {
            product: Some("DE9180 DRM Receiver".to_owned()),
            vid: 0x0403,
            pid: 0x6001,
        },
    );
    assert_eq!(port.summary, "DE9180 DRM Receiver 0403:6001");
    assert!(port.likely_device);
    let port = summarize_port(
        "/dev/ttyACM0".to_owned(),
        PortKind::Usb {
            product: None,
            vid: 0x2e8a,
            pid: 0x000c,
        },
    );
    assert_eq!(port.summary, "USB serial 2E8A:000C");
    assert!(!port.likely_device);
    let port = summarize_port("/dev/ttyS0".to_owned(), PortKind::Other);
    assert_eq!(port.port_name, "/dev/ttyS0");
    assert_eq!(port.summary, "serial port");
    assert!(!port.likely_device);
}

#[test]
fn polling_only_while_scanning() {
    let mut snapshot = SerialSnapshot::default();
    assert!(poll_requests(&snapshot).is_empty());
    snapshot.scan_active = true;
    assert_eq!(
        opcodes(&poll_requests(&snapshot)),
        vec![(0x27, vec![]), (0x15, vec![]), (0x09, vec![])]
    );
}
