//! The state that a serial controller keeps about a connected receiver, and
//! the decisions it takes when frames arrive and commands are issued.
//!
//! The controller itself (serial I/O, channels, timers) lives with the
//! application; it hands every event to the functions here and sends the
//! requests they return.

use vstd::prelude::*;

use crate::protocol::opcode;
use crate::protocol::{
    error_description, le_u32, parse_scanned_stations, parse_status, parse_text_message,
    spec_default_status, spec_error_description, spec_le_u32, spec_mode_from_status,
    spec_parse_scanned_stations, spec_parse_status, spec_parse_text_message,
    spec_stations_view, Frame, FrameModel, Mode, ReceiverStatus, Request, ScannedStation,
    StationModel, StatusModel, BAUD_RATE,
};
use crate::text::{
    ascii_lowercase, connected_log_line, contains, module_error_message, received_log_line,
    sent_log_line, spec_ascii_lower, spec_contains, spec_decimal, spec_hex_byte, spec_hex_u16,
    spec_trim_end_nul, spec_trim_start_nul, spec_utf8_lossy, trim_nul, usb_port_text, utf8_lossy,
};

verus! {

/// Most lines that the diagnostic log keeps.
pub const MAX_LOG_LINES: usize = 160;

/// A serial port offered for connection.
#[derive(Clone, Debug)]
pub struct PortSummary {
    pub port_name: String,
    pub summary: String,
    pub likely_device: bool,
}

/// What a port summary holds, as plain values.
#[verifier::ext_equal]
pub struct PortModel {
    pub port_name: Seq<char>,
    pub summary: Seq<char>,
    pub likely_device: bool,
}

impl View for PortSummary {
    type V = PortModel;

    open spec fn view(&self) -> PortModel {
        PortModel {
            port_name: self.port_name@,
            summary: self.summary@,
            likely_device: self.likely_device,
        }
    }
}

impl Default for PortSummary {
    fn default() -> (port: Self)
        ensures
            port.port_name@ == Seq::<char>::empty(),
            port.summary@ == Seq::<char>::empty(),
            !port.likely_device,
    {
        PortSummary { port_name: String::new(), summary: String::new(), likely_device: false }
    }
}

/// What the operating system reports about the kind of a serial port.
pub enum PortKind {
    /// A USB adapter, with its product string if it has one.
    Usb { product: Option<String>, vid: u16, pid: u16 },
    /// Any other port.
    Other,
}

/// The summary text of a USB adapter.
pub open spec fn spec_usb_summary(product: Option<Seq<char>>, vid: u16, pid: u16) -> Seq<char> {
    let name = match product {
        Some(p) => p,
        None => "USB serial"@,
    };
    name + " "@ + spec_hex_u16(vid) + ":"@ + spec_hex_u16(pid)
}

/// Whether a summary text names the receiver: its lower-case form mentions
/// `drm` or `de9180`.
pub open spec fn spec_names_receiver(summary: Seq<char>) -> bool {
    let lower = summary.map_values(|c: char| spec_ascii_lower(c));
    spec_contains(lower, "drm"@) || spec_contains(lower, "de9180"@)
}

/// Describes a port for the port list; a USB adapter whose description names
/// the receiver is marked as the likely device.
pub fn summarize_port(port_name: String, kind: PortKind) -> (port: PortSummary)
    ensures
        port.port_name@ == port_name@,
        kind matches PortKind::Usb { product, vid, pid } ==> port.summary@ == spec_usb_summary(
            product.deep_view(),
            vid,
            pid,
        ) && port.likely_device == spec_names_receiver(port.summary@),
        kind matches PortKind::Other ==> port.summary@ == "serial port"@ && !port.likely_device,
        kind matches PortKind::Usb { product, vid, pid } ==> port.summary@ == (match product {
            Some(p) => p@,
            None => "USB serial"@,
        }) + " "@ + spec_hex_u16(vid) + ":"@ + spec_hex_u16(pid),
        kind is Usb ==> (port.likely_device <==> (spec_contains(
            port.summary@.map_values(|c: char| spec_ascii_lower(c)),
            "drm"@,
        ) || spec_contains(port.summary@.map_values(|c: char| spec_ascii_lower(c)), "de9180"@))),
{
    match kind {
        PortKind::Usb { product, vid, pid } => {
            let name = match product {
                Some(p) => p,
                None => "USB serial".to_owned(),
            };
            let text = usb_port_text(name.as_str(), vid, pid);
            let lower = ascii_lowercase(text.as_str());
            let likely_device = contains(lower.as_str(), "drm") || contains(lower.as_str(), "de9180");
            PortSummary { port_name, summary: text, likely_device }
        },
        PortKind::Other => {
            PortSummary { port_name, summary: "serial port".to_owned(), likely_device: false }
        },
    }
}

/// Everything the controller knows about the receiver and the connection.
#[derive(Clone, Debug)]
pub struct SerialSnapshot {
    pub connection_status: String,
    pub ports: Vec<PortSummary>,
    pub connected_port: Option<String>,
    pub firmware_version: Option<String>,
    pub frequency_hz: Option<u32>,
    pub frequency_generation: u64,
    pub mode: Option<Mode>,
    pub volume: Option<u8>,
    pub volume_generation: u64,
    pub scan_active: bool,
    pub scanner_progress: Option<u8>,
    pub stations: Vec<ScannedStation>,
    pub status: Option<ReceiverStatus>,
    pub text_message: Option<String>,
    pub last_register: Option<(u8, u8)>,
    pub last_error: Option<String>,
    pub log_lines: Vec<String>,
    pub generation: u64,
}

/// What a snapshot holds, as plain values.
#[verifier::ext_equal]
pub struct SnapshotModel {
    pub connection_status: Seq<char>,
    pub ports: Seq<PortModel>,
    pub connected_port: Option<Seq<char>>,
    pub firmware_version: Option<Seq<char>>,
    pub frequency_hz: Option<u32>,
    pub frequency_generation: u64,
    pub mode: Option<Mode>,
    pub volume: Option<u8>,
    pub volume_generation: u64,
    pub scan_active: bool,
    pub scanner_progress: Option<u8>,
    pub stations: Seq<StationModel>,
    pub status: Option<StatusModel>,
    pub text_message: Option<Seq<char>>,
    pub last_register: Option<(u8, u8)>,
    pub last_error: Option<Seq<char>>,
    pub log_lines: Seq<Seq<char>>,
    pub generation: u64,
}

/// The views of a sequence of strings.
pub open spec fn spec_lines_view(lines: Seq<String>) -> Seq<Seq<char>> {
    lines.map_values(|line: String| line@)
}

/// The views of a sequence of port summaries.
pub open spec fn spec_ports_view(ports: Seq<PortSummary>) -> Seq<PortModel> {
    ports.map_values(|port: PortSummary| port@)
}

/// The view of an optional string.
pub open spec fn spec_text_view(text: Option<String>) -> Option<Seq<char>> {
    match text {
        Some(t) => Some(t@),
        None => None,
    }
}

/// The view of an optional status.
pub open spec fn spec_status_view(status: Option<ReceiverStatus>) -> Option<StatusModel> {
    match status {
        Some(s) => Some(s@),
        None => None,
    }
}

impl View for SerialSnapshot {
    type V = SnapshotModel;

    open spec fn view(&self) -> SnapshotModel {
        SnapshotModel {
            connection_status: self.connection_status@,
            ports: spec_ports_view(self.ports@),
            connected_port: spec_text_view(self.connected_port),
            firmware_version: spec_text_view(self.firmware_version),
            frequency_hz: self.frequency_hz,
            frequency_generation: self.frequency_generation,
            mode: self.mode,
            volume: self.volume,
            volume_generation: self.volume_generation,
            scan_active: self.scan_active,
            scanner_progress: self.scanner_progress,
            stations: spec_stations_view(self.stations@),
            status: spec_status_view(self.status),
            text_message: spec_text_view(self.text_message),
            last_register: self.last_register,
            last_error: spec_text_view(self.last_error),
            log_lines: spec_lines_view(self.log_lines@),
            generation: self.generation,
        }
    }
}

/// The state before anything has happened: idle, nothing known, and one log
/// line saying that the controller started.
pub open spec fn spec_default_snapshot() -> SnapshotModel {
    SnapshotModel {
        connection_status: "idle"@,
        ports: Seq::empty(),
        connected_port: None,
        firmware_version: None,
        frequency_hz: None,
        frequency_generation: 0,
        mode: None,
        volume: None,
        volume_generation: 0,
        scan_active: false,
        scanner_progress: None,
        stations: Seq::empty(),
        status: None,
        text_message: None,
        last_register: None,
        last_error: None,
        log_lines: seq!["serial controller started"@],
        generation: 0,
    }
}

impl Default for SerialSnapshot {
    fn default() -> (snapshot: Self)
        ensures
            snapshot@ == spec_default_snapshot(),
    {
        let mut log_lines: Vec<String> = Vec::new();
        log_lines.push("serial controller started".to_owned());
        let snapshot = SerialSnapshot {
            connection_status: "idle".to_owned(),
            ports: Vec::new(),
            connected_port: None,
            firmware_version: None,
            frequency_hz: None,
            frequency_generation: 0,
            mode: None,
            volume: None,
            volume_generation: 0,
            scan_active: false,
            scanner_progress: None,
            stations: Vec::new(),
            status: None,
            text_message: None,
            last_register: None,
            last_error: None,
            log_lines,
            generation: 0,
        };
        assert(snapshot@ =~= spec_default_snapshot());
        snapshot
    }
}

/// The log after appending `line`: the newest `MAX_LOG_LINES` lines, oldest
/// first.
pub open spec fn spec_push_log(lines: Seq<Seq<char>>, line: Seq<char>) -> Seq<Seq<char>> {
    let all = lines.push(line);
    if all.len() > MAX_LOG_LINES {
        all.subrange(all.len() - MAX_LOG_LINES, all.len() as int)
    } else {
        all
    }
}

/// Appends a line to the diagnostic log, dropping the oldest lines beyond
/// `MAX_LOG_LINES`.
pub fn push_log(snapshot: &mut SerialSnapshot, line: String)
    ensures
        final(snapshot)@ == (SnapshotModel {
            log_lines: spec_push_log(old(snapshot)@.log_lines, line@),
            ..old(snapshot)@
        }),
{
    let ghost all = old(snapshot)@.log_lines.push(line@);
    snapshot.log_lines.push(line);
    assert(spec_lines_view(snapshot.log_lines@) =~= all);
    let ghost mut dropped: int = 0;
    while snapshot.log_lines.len() > MAX_LOG_LINES
        invariant
            0 <= dropped <= all.len(),
            spec_lines_view(snapshot.log_lines@) == all.subrange(dropped, all.len() as int),
            dropped > 0 ==> snapshot.log_lines@.len() >= MAX_LOG_LINES,
            snapshot@ == (SnapshotModel { log_lines: spec_lines_view(snapshot.log_lines@), ..old(snapshot)@ }),
        decreases snapshot.log_lines@.len(),
    {
        let ghost before = snapshot.log_lines@;
        assert(spec_lines_view(before).len() == before.len());
        snapshot.log_lines.remove(0);
        assert(snapshot.log_lines@ =~= before.drop_first());
        proof {
            dropped = dropped + 1;
        }
        assert forall|i: int| 0 <= i < snapshot.log_lines@.len() implies #[trigger] spec_lines_view(
            snapshot.log_lines@,
        )[i] == all.subrange(dropped, all.len() as int)[i] by {
            assert(spec_lines_view(before)[i + 1] == before[i + 1]@);
        }
        assert(spec_lines_view(snapshot.log_lines@) =~= all.subrange(dropped, all.len() as int));
    }
    assert(spec_lines_view(snapshot.log_lines@) =~= spec_push_log(old(snapshot)@.log_lines, line@));
}


/// The log line for a received frame.
pub open spec fn spec_received_line(frame: FrameModel) -> Seq<char> {
    "< opcode 0x"@ + spec_hex_byte(frame.opcode) + ", "@ + spec_decimal(frame.payload.len())
        + " data bytes"@
}

/// The error text for a frame whose error byte is set.
pub open spec fn spec_module_error(code: u8) -> Seq<char> {
    "0x"@ + spec_hex_byte(code) + ": "@ + spec_error_description(code)
}

/// The first payload byte, if there is one.
pub open spec fn spec_first_byte(payload: Seq<u8>) -> Option<u8> {
    if payload.len() > 0 {
        Some(payload[0])
    } else {
        None
    }
}

/// The firmware version text in a version reply: the payload decoded as
/// UTF-8, without NUL padding at either end.
pub open spec fn spec_firmware_version(payload: Seq<u8>) -> Seq<char> {
    spec_trim_start_nul(spec_trim_end_nul(spec_utf8_lossy(payload)))
}

/// The firmware version text in a version reply.
pub fn firmware_version_text(payload: &[u8]) -> (text: String)
    ensures
        text@ == spec_firmware_version(payload@),
{
    let decoded = utf8_lossy(payload);
    trim_nul(decoded.as_str()).to_owned()
}

/// What an error-free response changes, and whether it completes a scan.
pub open spec fn spec_apply_response(s: SnapshotModel, f: FrameModel) -> (SnapshotModel, bool) {
    let p = f.payload;
    let truncated = SnapshotModel { last_error: Some("truncated u32 field"@), ..s };
    if f.opcode == opcode::GET_VERSION {
        (
            SnapshotModel {
                firmware_version: Some(spec_firmware_version(p)),
                ..s
            },
            false,
        )
    } else if f.opcode == opcode::GET_TUNED_FREQ {
        if p.len() >= 4 {
            (
                SnapshotModel {
                    frequency_hz: Some(spec_le_u32(p, 0)),
                    frequency_generation: (s.frequency_generation + 1) as u64,
                    ..s
                },
                false,
            )
        } else {
            (truncated, false)
        }
    } else if f.opcode == opcode::GET_DEMOD_MODE {
        (
            SnapshotModel {
                mode: if p.len() > 0 {
                    spec_mode_from_status(p[0])
                } else {
                    None
                },
                ..s
            },
            false,
        )
    } else if f.opcode == opcode::GET_VOLUME {
        (
            SnapshotModel {
                volume: spec_first_byte(p),
                volume_generation: (s.volume_generation + 1) as u64,
                ..s
            },
            false,
        )
    } else if f.opcode == opcode::RSSI_GET {
        if p.len() >= 4 {
            let base = match s.status {
                Some(status) => status,
                None => spec_default_status(),
            };
            (
                SnapshotModel {
                    status: Some(StatusModel { rssi_dbm_bits: spec_le_u32(p, 0), ..base }),
                    ..s
                },
                false,
            )
        } else {
            (truncated, false)
        }
    } else if f.opcode == opcode::GET_SCANNER_PROGRESS {
        if spec_first_byte(p) == Some(100u8) {
            (SnapshotModel { scanner_progress: Some(100u8), scan_active: false, ..s }, true)
        } else {
            (SnapshotModel { scanner_progress: spec_first_byte(p), ..s }, false)
        }
    } else if f.opcode == opcode::GET_SCANNED_STATIONS {
        match spec_parse_scanned_stations(f) {
            Ok(stations) => if s.scan_active {
                (
                    SnapshotModel {
                        stations,
                        scan_active: false,
                        scanner_progress: Some(100u8),
                        ..s
                    },
                    true,
                )
            } else {
                (SnapshotModel { stations, ..s }, false)
            },
            Err(e) => (SnapshotModel { last_error: Some(e), ..s }, false),
        }
    } else if f.opcode == opcode::GET_STATUS {
        match spec_parse_status(f) {
            Ok(status) => (SnapshotModel { mode: Some(status.mode), status: Some(status), ..s }, false),
            Err(e) => (SnapshotModel { last_error: Some(e), ..s }, false),
        }
    } else if f.opcode == opcode::TEXT_MSG_SERVICE {
        match spec_parse_text_message(f) {
            Ok(text) => (SnapshotModel { text_message: text, ..s }, false),
            Err(e) => (SnapshotModel { last_error: Some(e), ..s }, false),
        }
    } else if f.opcode == opcode::CMX918_REG_READ && p.len() > 0 {
        let address = match s.last_register {
            Some(register) => register.0,
            None => 0u8,
        };
        (SnapshotModel { last_register: Some((address, p[0])), ..s }, false)
    } else {
        (s, false)
    }
}

/// What a received frame changes, and whether it completes a scan. The frame
/// is logged first. A frame whose error byte is set records the error, except
/// during a scan where a station-list reply of "scanner is in progress" is
/// ignored and one of "no station found" ends the scan with no stations.
pub open spec fn spec_process_frame(s: SnapshotModel, f: FrameModel) -> (SnapshotModel, bool) {
    let logged = SnapshotModel {
        log_lines: spec_push_log(s.log_lines, spec_received_line(f)),
        ..s
    };
    if f.error != 0 {
        if logged.scan_active && f.opcode == opcode::GET_SCANNED_STATIONS && f.error == 13 {
            (logged, false)
        } else if logged.scan_active && f.opcode == opcode::GET_SCANNED_STATIONS && f.error == 4 {
            (
                SnapshotModel {
                    scan_active: false,
                    scanner_progress: Some(100u8),
                    stations: Seq::empty(),
                    ..logged
                },
                true,
            )
        } else {
            let stopped = if f.opcode == opcode::START_SCAN {
                SnapshotModel { scan_active: false, ..logged }
            } else {
                logged
            };
            (SnapshotModel { last_error: Some(spec_module_error(f.error)), ..stopped }, false)
        }
    } else {
        spec_apply_response(logged, f)
    }
}

/// Updates the snapshot with a received frame. Returns whether the frame
/// completed a scan, after which the station list, frequency and mode are to
/// be requested again.
pub fn process_frame(frame: Frame, snapshot: &mut SerialSnapshot) -> (scan_completed: bool)
    requires
        old(snapshot).frequency_generation < u64::MAX,
        old(snapshot).volume_generation < u64::MAX,
    ensures
        (final(snapshot)@, scan_completed) == spec_process_frame(old(snapshot)@, frame@),
{
    push_log(snapshot, received_log_line(frame.opcode, frame.payload.len()));
    if frame.error != 0 {
        if snapshot.scan_active && frame.opcode == opcode::GET_SCANNED_STATIONS {
            if frame.error == 13 {
                return false;
            }
            if frame.error == 4 {
                snapshot.scan_active = false;
                snapshot.scanner_progress = Some(100);
                snapshot.stations.clear();
                assert(spec_stations_view(snapshot.stations@) =~= Seq::<StationModel>::empty());
                return true;
            }
        }
        if frame.opcode == opcode::START_SCAN {
            snapshot.scan_active = false;
        }
        snapshot.last_error = Some(
            module_error_message(frame.error, error_description(frame.error)),
        );
        return false;
    }
    apply_response(&frame, snapshot)
}

/// The part of `process_frame` for a response whose error byte is clear.
fn apply_response(frame: &Frame, snapshot: &mut SerialSnapshot) -> (scan_completed: bool)
    requires
        frame.error == 0,
        old(snapshot).frequency_generation < u64::MAX,
        old(snapshot).volume_generation < u64::MAX,
    ensures
        (final(snapshot)@, scan_completed) == spec_apply_response(old(snapshot)@, frame@),
{
    let payload = frame.payload.as_slice();
    let op = frame.opcode;
    if op == opcode::GET_VERSION {
        snapshot.firmware_version = Some(firmware_version_text(payload));
        false
    } else if op == opcode::GET_TUNED_FREQ {
        match le_u32(payload, 0) {
            Ok(value) => {
                snapshot.frequency_hz = Some(value);
                snapshot.frequency_generation = snapshot.frequency_generation + 1;
            },
            Err(e) => {
                snapshot.last_error = Some(e);
            },
        }
        false
    } else if op == opcode::GET_DEMOD_MODE {
        snapshot.mode = if payload.len() > 0 {
            Mode::from_status(payload[0])
        } else {
            None
        };
        false
    } else if op == opcode::GET_VOLUME {
        snapshot.volume = if payload.len() > 0 {
            Some(payload[0])
        } else {
            None
        };
        snapshot.volume_generation = snapshot.volume_generation + 1;
        false
    } else if op == opcode::RSSI_GET {
        match le_u32(payload, 0) {
            Ok(bits) => {
                let mut status = match snapshot.status.take() {
                    Some(status) => status,
                    None => ReceiverStatus::default(),
                };
                status.rssi_dbm_bits = bits;
                snapshot.status = Some(status);
            },
            Err(e) => {
                snapshot.last_error = Some(e);
            },
        }
        false
    } else if op == opcode::GET_SCANNER_PROGRESS {
        snapshot.scanner_progress = if payload.len() > 0 {
            Some(payload[0])
        } else {
            None
        };
        if snapshot.scanner_progress == Some(100u8) {
            snapshot.scan_active = false;
            true
        } else {
            false
        }
    } else if op == opcode::GET_SCANNED_STATIONS {
        match parse_scanned_stations(frame) {
            Ok(stations) => {
                snapshot.stations = stations;
                if snapshot.scan_active {
                    snapshot.scan_active = false;
                    snapshot.scanner_progress = Some(100);
                    true
                } else {
                    false
                }
            },
            Err(e) => {
                snapshot.last_error = Some(e);
                false
            },
        }
    } else if op == opcode::GET_STATUS {
        match parse_status(frame) {
            Ok(status) => {
                snapshot.mode = Some(status.mode);
                snapshot.status = Some(status);
            },
            Err(e) => {
                snapshot.last_error = Some(e);
            },
        }
        false
    } else if op == opcode::TEXT_MSG_SERVICE {
        match parse_text_message(frame) {
            Ok(text) => {
                snapshot.text_message = text;
            },
            Err(e) => {
                snapshot.last_error = Some(e);
            },
        }
        false
    } else if op == opcode::CMX918_REG_READ {
        if payload.len() > 0 {
            let address = match snapshot.last_register {
                Some(register) => register.0,
                None => 0,
            };
            snapshot.last_register = Some((address, payload[0]));
        }
        false
    } else {
        false
    }
}


/// The opcodes and parameters of a sequence of requests.
pub open spec fn spec_requests_view(requests: Seq<Request>) -> Seq<(u8, Seq<u8>)> {
    requests.map_values(|r: Request| (r.opcode, r.parameters@))
}

/// The requests sent once a connection is established: firmware version,
/// frequency, mode and volume, then switching on text and status output.
pub fn initial_requests() -> (requests: Vec<Request>)
    ensures
        spec_requests_view(requests@) == seq![
            (opcode::GET_VERSION, Seq::<u8>::empty()),
            (opcode::GET_TUNED_FREQ, Seq::<u8>::empty()),
            (opcode::GET_DEMOD_MODE, Seq::<u8>::empty()),
            (opcode::GET_VOLUME, Seq::<u8>::empty()),
            (opcode::TEXT_MSG_OUT, seq![1u8]),
            (opcode::STATUS_OUTPUT, seq![1u8]),
        ],
{
    let mut requests: Vec<Request> = Vec::new();
    requests.push(Request::new(opcode::GET_VERSION));
    requests.push(Request::new(opcode::GET_TUNED_FREQ));
    requests.push(Request::new(opcode::GET_DEMOD_MODE));
    requests.push(Request::new(opcode::GET_VOLUME));
    requests.push(Request::byte(opcode::TEXT_MSG_OUT, 1));
    requests.push(Request::byte(opcode::STATUS_OUTPUT, 1));
    assert(spec_requests_view(requests@) =~= seq![
        (opcode::GET_VERSION, Seq::<u8>::empty()),
        (opcode::GET_TUNED_FREQ, Seq::<u8>::empty()),
        (opcode::GET_DEMOD_MODE, Seq::<u8>::empty()),
        (opcode::GET_VOLUME, Seq::<u8>::empty()),
        (opcode::TEXT_MSG_OUT, seq![1u8]),
        (opcode::STATUS_OUTPUT, seq![1u8]),
    ]);
    requests
}

/// The requests sent after a frame completed a scan: the station list, the
/// frequency and the mode.
pub fn scan_completed_requests() -> (requests: Vec<Request>)
    ensures
        spec_requests_view(requests@) == seq![
            (opcode::GET_SCANNED_STATIONS, Seq::<u8>::empty()),
            (opcode::GET_TUNED_FREQ, Seq::<u8>::empty()),
            (opcode::GET_DEMOD_MODE, Seq::<u8>::empty()),
        ],
{
    let mut requests: Vec<Request> = Vec::new();
    requests.push(Request::new(opcode::GET_SCANNED_STATIONS));
    requests.push(Request::new(opcode::GET_TUNED_FREQ));
    requests.push(Request::new(opcode::GET_DEMOD_MODE));
    assert(spec_requests_view(requests@) =~= seq![
        (opcode::GET_SCANNED_STATIONS, Seq::<u8>::empty()),
        (opcode::GET_TUNED_FREQ, Seq::<u8>::empty()),
        (opcode::GET_DEMOD_MODE, Seq::<u8>::empty()),
    ]);
    requests
}

/// The requests sent on each poll while a scan is active: the progress, the
/// mode and the station list.
pub fn scan_poll_requests() -> (requests: Vec<Request>)
    ensures
        spec_requests_view(requests@) == seq![
            (opcode::GET_SCANNER_PROGRESS, Seq::<u8>::empty()),
            (opcode::GET_DEMOD_MODE, Seq::<u8>::empty()),
            (opcode::GET_SCANNED_STATIONS, Seq::<u8>::empty()),
        ],
{
    let mut requests: Vec<Request> = Vec::new();
    requests.push(Request::new(opcode::GET_SCANNER_PROGRESS));
    requests.push(Request::new(opcode::GET_DEMOD_MODE));
    requests.push(Request::new(opcode::GET_SCANNED_STATIONS));
    assert(spec_requests_view(requests@) =~= seq![
        (opcode::GET_SCANNER_PROGRESS, Seq::<u8>::empty()),
        (opcode::GET_DEMOD_MODE, Seq::<u8>::empty()),
        (opcode::GET_SCANNED_STATIONS, Seq::<u8>::empty()),
    ]);
    requests
}

/// The requests sent on a poll tick: the scan polls while a scan is active,
/// nothing otherwise.
pub fn poll_requests(snapshot: &SerialSnapshot) -> (requests: Vec<Request>)
    ensures
        spec_requests_view(requests@) == (if snapshot.scan_active {
            seq![
                (opcode::GET_SCANNER_PROGRESS, Seq::<u8>::empty()),
                (opcode::GET_DEMOD_MODE, Seq::<u8>::empty()),
                (opcode::GET_SCANNED_STATIONS, Seq::<u8>::empty()),
            ]
        } else {
            Seq::empty()
        }),
{
    if snapshot.scan_active {
        scan_poll_requests()
    } else {
        let requests: Vec<Request> = Vec::new();
        assert(spec_requests_view(requests@) =~= Seq::<(u8, Seq<u8>)>::empty());
        requests
    }
}

/// The requests sent before disconnecting: switching off status and text
/// output.
pub fn disconnect_requests() -> (requests: Vec<Request>)
    ensures
        spec_requests_view(requests@) == seq![
            (opcode::STATUS_OUTPUT, seq![0u8]),
            (opcode::TEXT_MSG_OUT, seq![0u8]),
        ],
{
    let mut requests: Vec<Request> = Vec::new();
    requests.push(Request::byte(opcode::STATUS_OUTPUT, 0));
    requests.push(Request::byte(opcode::TEXT_MSG_OUT, 0));
    assert(spec_requests_view(requests@) =~= seq![
        (opcode::STATUS_OUTPUT, seq![0u8]),
        (opcode::TEXT_MSG_OUT, seq![0u8]),
    ]);
    requests
}

/// Records a disconnection asked for by the user.
pub fn record_disconnected(snapshot: &mut SerialSnapshot)
    ensures
        final(snapshot)@ == (SnapshotModel {
            connected_port: None,
            connection_status: "disconnected"@,
            log_lines: spec_push_log(old(snapshot)@.log_lines, "disconnected"@),
            ..old(snapshot)@
        }),
{
    snapshot.connected_port = None;
    snapshot.connection_status = "disconnected".to_owned();
    push_log(snapshot, "disconnected".to_owned());
}

/// Records that a connection is being opened.
pub fn record_connecting(snapshot: &mut SerialSnapshot)
    ensures
        final(snapshot)@ == (SnapshotModel { connection_status: "connecting"@, ..old(snapshot)@ }),
{
    snapshot.connection_status = "connecting".to_owned();
}

/// Records that opening or initialising a connection failed.
pub fn record_connect_failed(snapshot: &mut SerialSnapshot, error: String)
    ensures
        final(snapshot)@ == (SnapshotModel {
            connection_status: "error"@,
            last_error: Some(error@),
            ..old(snapshot)@
        }),
{
    snapshot.last_error = Some(error);
    snapshot.connection_status = "error".to_owned();
}

/// Records an established connection.
pub fn record_connected(snapshot: &mut SerialSnapshot, port: String)
    ensures
        final(snapshot)@ == (SnapshotModel {
            connected_port: Some(port@),
            connection_status: "connected"@,
            last_error: None,
            log_lines: spec_push_log(
                old(snapshot)@.log_lines,
                "connected to "@ + port@ + " at "@ + spec_decimal(BAUD_RATE as nat) + " baud"@,
            ),
            ..old(snapshot)@
        }),
{
    let line = connected_log_line(port.as_str(), BAUD_RATE);
    snapshot.connected_port = Some(port);
    snapshot.connection_status = "connected".to_owned();
    snapshot.last_error = None;
    push_log(snapshot, line);
}

/// Records that reading from the connection failed, which ends it.
pub fn record_connection_lost(snapshot: &mut SerialSnapshot, error: String)
    ensures
        final(snapshot)@ == (SnapshotModel {
            connection_status: "error"@,
            connected_port: None,
            last_error: Some(error@),
            ..old(snapshot)@
        }),
{
    snapshot.connection_status = "error".to_owned();
    snapshot.connected_port = None;
    snapshot.last_error = Some(error);
}

/// Records a request that cannot be sent because there is no connection.
pub fn record_not_connected(snapshot: &mut SerialSnapshot)
    ensures
        final(snapshot)@ == (SnapshotModel { last_error: Some("not connected"@), ..old(snapshot)@ }),
{
    snapshot.last_error = Some("not connected".to_owned());
}

/// What sending a request changes before it goes out: a register read
/// remembers its address, and a scan start marks a scan as active with no
/// progress and no stations yet.
pub open spec fn spec_prepare_send(s: SnapshotModel, opcode: u8, parameters: Seq<u8>) -> SnapshotModel {
    let registered = if opcode == opcode::CMX918_REG_READ && parameters.len() > 0 {
        SnapshotModel { last_register: Some((parameters[0], 0u8)), ..s }
    } else {
        s
    };
    if opcode == opcode::START_SCAN {
        SnapshotModel {
            scan_active: true,
            scanner_progress: None,
            stations: Seq::empty(),
            ..registered
        }
    } else {
        registered
    }
}

/// Updates the snapshot for a request that is about to be sent.
pub fn prepare_send(snapshot: &mut SerialSnapshot, request: &Request)
    ensures
        final(snapshot)@ == spec_prepare_send(old(snapshot)@, request.opcode, request.parameters@),
{
    if request.opcode == opcode::CMX918_REG_READ && request.parameters.len() > 0 {
        snapshot.last_register = Some((request.parameters[0], 0));
    }
    if request.opcode == opcode::START_SCAN {
        snapshot.scan_active = true;
        snapshot.scanner_progress = None;
        snapshot.stations.clear();
        assert(spec_stations_view(snapshot.stations@) =~= Seq::<StationModel>::empty());
    }
}

/// What the outcome of sending a request changes: success is logged; a
/// failure is recorded, and a scan that failed to start is no longer active.
pub open spec fn spec_send_result(s: SnapshotModel, opcode: u8, result: Result<(), Seq<char>>) -> SnapshotModel {
    match result {
        Ok(()) => SnapshotModel {
            log_lines: spec_push_log(s.log_lines, "> opcode 0x"@ + spec_hex_byte(opcode)),
            ..s
        },
        Err(e) => {
            let stopped = if opcode == opcode::START_SCAN {
                SnapshotModel { scan_active: false, ..s }
            } else {
                s
            };
            SnapshotModel { last_error: Some(e), ..stopped }
        },
    }
}

/// Updates the snapshot with the outcome of sending a request.
pub fn record_send_result(snapshot: &mut SerialSnapshot, opcode: u8, result: Result<(), String>)
    ensures
        final(snapshot)@ == spec_send_result(
            old(snapshot)@,
            opcode,
            match result {
                Ok(()) => Ok(()),
                Err(e) => Err(e@),
            },
        ),
{
    match result {
        Ok(()) => push_log(snapshot, sent_log_line(opcode)),
        Err(error) => {
            if opcode == opcode::START_SCAN {
                snapshot.scan_active = false;
            }
            snapshot.last_error = Some(error);
        },
    }
}


/// The log never holds more than `MAX_LOG_LINES` lines, and its newest line
/// is the one just appended.
pub proof fn lemma_log_is_bounded(lines: Seq<Seq<char>>, line: Seq<char>)
    requires
        lines.len() <= MAX_LOG_LINES,
    ensures
        spec_push_log(lines, line).len() <= MAX_LOG_LINES,
        spec_push_log(lines, line).len() > 0,
        spec_push_log(lines, line).last() == line,
{
}

/// A received frame adds exactly one log line, the line that describes it,
/// and leaves the connection state and the port list as they were.
pub proof fn lemma_frame_logged_connection_untouched(s: SnapshotModel, f: FrameModel)
    ensures
        ({
            let r = spec_process_frame(s, f).0;
            &&& r.log_lines == spec_push_log(s.log_lines, spec_received_line(f))
            &&& r.connection_status == s.connection_status
            &&& r.connected_port == s.connected_port
            &&& r.ports == s.ports
            &&& r.generation == s.generation
        }),
{
}

/// The frequency counter advances exactly on an error-free frequency reply
/// carrying a full word, and the volume counter exactly on an error-free
/// volume reply; no other frame touches either.
pub proof fn lemma_generations_follow_their_replies(s: SnapshotModel, f: FrameModel)
    requires
        s.frequency_generation < u64::MAX,
        s.volume_generation < u64::MAX,
    ensures
        ({
            let r = spec_process_frame(s, f).0;
            &&& r.frequency_generation == if f.error == 0 && f.opcode == opcode::GET_TUNED_FREQ
                && f.payload.len() >= 4 {
                s.frequency_generation + 1
            } else {
                s.frequency_generation as int
            }
            &&& r.volume_generation == if f.error == 0 && f.opcode == opcode::GET_VOLUME {
                s.volume_generation + 1
            } else {
                s.volume_generation as int
            }
        }),
{
}

/// A frame that completes a scan leaves no scan active and the progress at
/// 100 percent, and no frame starts a scan.
pub proof fn lemma_scan_completion(s: SnapshotModel, f: FrameModel)
    ensures
        ({
            let (r, completed) = spec_process_frame(s, f);
            &&& completed ==> !r.scan_active && r.scanner_progress == Some(100u8)
            &&& r.scan_active ==> s.scan_active
        }),
{
}

/// A scan start that could not be sent does not leave a scan active.
pub proof fn lemma_failed_scan_start_is_not_active(
    s: SnapshotModel,
    parameters: Seq<u8>,
    error: Seq<char>,
)
    ensures
        ({
            let prepared = spec_prepare_send(s, opcode::START_SCAN, parameters);
            let r = spec_send_result(prepared, opcode::START_SCAN, Err(error));
            &&& prepared.scan_active
            &&& !r.scan_active
            &&& r.last_error == Some(error)
        }),
{
}


/// What an error-free reply changes: each reply opcode updates only its own
/// part of the snapshot. A station list (0x09) replaces the stations whether
/// or not a scan is active, and ends an active scan at 100 percent; a volume
/// reply (0x1d) sets the volume to its first byte; a frequency reply (0x14)
/// sets the frequency to its little-endian word; a mode reply (0x15) sets the
/// mode from its first byte; a progress reply (0x27) sets the progress and
/// completes the scan at 100; a status reply (0x0a) sets the status and the
/// mode; a text reply (0x21) sets the broadcast text; a register reply (0x0d)
/// records the value read; an RSSI reply (0x22) sets the RSSI of the status;
/// a version reply (0x10) sets the firmware text.
pub proof fn lemma_reply_effects(s: SnapshotModel, f: FrameModel)
    requires
        f.error == 0,
        s.frequency_generation < u64::MAX,
        s.volume_generation < u64::MAX,
    ensures
        ({
            let (r, done) = spec_process_frame(s, f);
            let p = f.payload;
            let stations = spec_parse_scanned_stations(f);
            let status = spec_parse_status(f);
            let text = spec_parse_text_message(f);
            &&& r.log_lines == spec_push_log(
                s.log_lines,
                "< opcode 0x"@ + spec_hex_byte(f.opcode) + ", "@ + spec_decimal(p.len())
                    + " data bytes"@,
            )
            &&& f.opcode == 0x09 && stations is Ok ==> {
                &&& r.stations == stations->Ok_0
                &&& done == s.scan_active
                &&& !r.scan_active
                &&& r.scanner_progress == (if s.scan_active {
                    Some(100u8)
                } else {
                    s.scanner_progress
                })
                &&& r.last_error == s.last_error
            }
            &&& f.opcode == 0x09 && stations is Err ==> {
                &&& r.stations == s.stations
                &&& r.last_error == Some(stations->Err_0)
                &&& !done
                &&& r.scan_active == s.scan_active
            }
            &&& f.opcode != 0x09 ==> r.stations == s.stations
            &&& f.opcode == 0x1d ==> r.volume == (if p.len() > 0 {
                Some(p[0])
            } else {
                None
            }) && r.volume_generation == s.volume_generation + 1
            &&& f.opcode != 0x1d ==> r.volume == s.volume && r.volume_generation
                == s.volume_generation
            &&& f.opcode == 0x14 && p.len() >= 4 ==> r.frequency_hz == Some(spec_le_u32(p, 0))
                && r.frequency_generation == s.frequency_generation + 1
            &&& f.opcode == 0x14 && p.len() < 4 ==> r.frequency_hz == s.frequency_hz
                && r.last_error == Some("truncated u32 field"@)
            &&& f.opcode != 0x14 ==> r.frequency_hz == s.frequency_hz && r.frequency_generation
                == s.frequency_generation
            &&& f.opcode == 0x15 ==> r.mode == (if p.len() > 0 {
                spec_mode_from_status(p[0])
            } else {
                None
            })
            &&& f.opcode == 0x0a && status is Ok ==> r.status == Some(status->Ok_0) && r.mode
                == Some(status->Ok_0.mode)
            &&& f.opcode == 0x0a && status is Err ==> r.status == s.status && r.mode == s.mode
                && r.last_error == Some(status->Err_0)
            &&& f.opcode != 0x15 && f.opcode != 0x0a ==> r.mode == s.mode
            &&& f.opcode == 0x27 ==> {
                &&& r.scanner_progress == (if p.len() > 0 {
                    Some(p[0])
                } else {
                    None
                })
                &&& done == (p.len() > 0 && p[0] == 100)
                &&& r.scan_active == (s.scan_active && !done)
            }
            &&& f.opcode != 0x09 && f.opcode != 0x27 ==> !done && r.scan_active == s.scan_active
                && r.scanner_progress == s.scanner_progress
            &&& f.opcode == 0x21 && text is Ok ==> r.text_message == text->Ok_0
            &&& f.opcode != 0x21 ==> r.text_message == s.text_message
            &&& f.opcode == 0x0d && p.len() > 0 ==> r.last_register == Some(
                (
                    match s.last_register {
                        Some(register) => register.0,
                        None => 0u8,
                    },
                    p[0],
                ),
            )
            &&& !(f.opcode == 0x0d && p.len() > 0) ==> r.last_register == s.last_register
            &&& f.opcode == 0x22 && p.len() >= 4 ==> r.status == Some(
                StatusModel {
                    rssi_dbm_bits: spec_le_u32(p, 0),
                    ..match s.status {
                        Some(before) => before,
                        None => spec_default_status(),
                    }
                },
            )
            &&& f.opcode != 0x22 && f.opcode != 0x0a ==> r.status == s.status
            &&& f.opcode == 0x10 ==> r.firmware_version == Some(
                spec_trim_start_nul(spec_trim_end_nul(spec_utf8_lossy(p))),
            )
            &&& f.opcode != 0x10 ==> r.firmware_version == s.firmware_version
            &&& r.connection_status == s.connection_status
            &&& r.connected_port == s.connected_port
            &&& r.ports == s.ports
        }),
{
}

/// What a reply whose error byte is set changes. During a scan, a station
/// list answered "scanner is in progress" (13) changes nothing but the log,
/// and one answered "no station found" (4) ends the scan at 100 percent with
/// no stations. Otherwise the error is recorded as `0x` and the two-digit
/// code, a colon and its text, a failed scan start (0x1a) ends the scan, and
/// nothing else changes.
pub proof fn lemma_error_reply_effects(s: SnapshotModel, f: FrameModel)
    requires
        f.error != 0,
    ensures
        ({
            let (r, done) = spec_process_frame(s, f);
            let logged = SnapshotModel {
                log_lines: spec_push_log(
                    s.log_lines,
                    "< opcode 0x"@ + spec_hex_byte(f.opcode) + ", "@ + spec_decimal(
                        f.payload.len(),
                    ) + " data bytes"@,
                ),
                ..s
            };
            &&& s.scan_active && f.opcode == 0x09 && f.error == 13 ==> r == logged && !done
            &&& s.scan_active && f.opcode == 0x09 && f.error == 4 ==> r == (SnapshotModel {
                scan_active: false,
                scanner_progress: Some(100u8),
                stations: Seq::empty(),
                ..logged
            }) && done
            &&& !(s.scan_active && f.opcode == 0x09 && (f.error == 13 || f.error == 4)) ==> r
                == (SnapshotModel {
                scan_active: s.scan_active && f.opcode != 0x1a,
                last_error: Some(
                    "0x"@ + spec_hex_byte(f.error) + ": "@ + spec_error_description(f.error),
                ),
                ..logged
            }) && !done
        }),
{
}


/// The log keeps the newest 160 lines, oldest first: appending a line to a
/// log adds it at the end and, once there are more than 160 lines, drops the
/// oldest.
pub proof fn lemma_push_log_keeps_newest(lines: Seq<Seq<char>>, line: Seq<char>)
    ensures
        ({
            let r = spec_push_log(lines, line);
            &&& r.len() == (if lines.len() + 1 > 160 {
                160
            } else {
                lines.len() + 1
            })
            &&& r.last() == line
            &&& forall|i: int|
                0 <= i < r.len() - 1 ==> #[trigger] r[i] == lines[lines.len() - (r.len() - 1) + i]
        }),
{
}

/// Before a request goes out, a register read (0x0d) with an address
/// remembers that address with value 0, and a scan start (0x1a) marks a scan
/// active with no progress and no stations; nothing else changes. Afterwards
/// a successful send logs `> opcode 0x` and the two-digit opcode, and a
/// failed one records the error and, for a scan start, ends the scan.
pub proof fn lemma_send_effects(
    s: SnapshotModel,
    opcode: u8,
    parameters: Seq<u8>,
    result: Result<(), Seq<char>>,
)
    ensures
        ({
            let prepared = spec_prepare_send(s, opcode, parameters);
            &&& prepared.last_register == (if opcode == 0x0d && parameters.len() > 0 {
                Some((parameters[0], 0u8))
            } else {
                s.last_register
            })
            &&& prepared.scan_active == (s.scan_active || opcode == 0x1a)
            &&& prepared.scanner_progress == (if opcode == 0x1a {
                None
            } else {
                s.scanner_progress
            })
            &&& prepared.stations == (if opcode == 0x1a {
                Seq::empty()
            } else {
                s.stations
            })
            &&& prepared == (SnapshotModel {
                last_register: prepared.last_register,
                scan_active: prepared.scan_active,
                scanner_progress: prepared.scanner_progress,
                stations: prepared.stations,
                ..s
            })
        }),
        result is Ok ==> spec_send_result(s, opcode, result) == (SnapshotModel {
            log_lines: spec_push_log(s.log_lines, "> opcode 0x"@ + spec_hex_byte(opcode)),
            ..s
        }),
        result matches Err(e) ==> spec_send_result(s, opcode, result) == (SnapshotModel {
            scan_active: s.scan_active && opcode != 0x1a,
            last_error: Some(e),
            ..s
        }),
{
}

} // verus!
