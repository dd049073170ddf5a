//! The DRM1000 UART codec: requests, response frames, and the payload parsers.

use vstd::prelude::*;

mod decoder;
mod laws;
mod stream;
mod payload;
pub mod opcode;

pub use payload::{
    le_u32, parse_scanned_stations, parse_status, parse_text_message, spec_parse_scanned_stations,
    spec_parse_text_message, spec_scanned_station, spec_split_nul, spec_count_nul,
    lemma_split_nul_keeps_empty_entries, spec_station_service,
    spec_stations_view, ScannedStation, StationModel, MAX_SCANNED_STATIONS, STATION_RECORD_LEN, spec_default_status, spec_parse_status, spec_services_view,
    spec_status_service, spec_status_service_count, ReceiverStatus, Service, ServiceModel,
    StatusModel, STATUS_PAYLOAD_LEN, STATUS_SERVICES_OFFSET, STATUS_SERVICE_LEN, STATUS_TAIL_OFFSET,
};
pub use laws::{
    lemma_error_texts, lemma_le_u32_reads_little_endian, lemma_mode_numbering,
    lemma_non_headers_are_skipped, lemma_reply_opcodes_are_delivered, lemma_station_list_layout,
    lemma_status_layout, lemma_text_message_layout,
};
pub use stream::{
    lemma_agrees_after_push, lemma_agrees_after_step, lemma_agrees_at_start, lemma_drain_chunking,
    lemma_next_frame_shrinks, spec_agrees_with_stream, spec_drain, spec_laid_out, spec_returned,
    lemma_frame_step_ignores_later_bytes, lemma_le_u32_bytes, lemma_next_frame_layout,
    spec_model_bytes, spec_step_layout,
};
pub use decoder::{
    lemma_chunking_irrelevant, lemma_decode_sent_frame, lemma_noise_is_skipped,
    lemma_partial_frame_waits, spec_frame_acceptable, spec_frame_bytes, spec_frame_len, spec_header_valid, spec_is_response_opcode, spec_next_frame, FrameDecoder,
};

verus! {

pub const BAUD_RATE: u32 = 921_600;

/// Bytes before the payload of a response: opcode, error, and a 32-bit length.
pub const HEADER_LEN: usize = 6;

/// Largest total frame length that the decoder accepts.
pub const MAX_FRAME_LEN: usize = 1_048_576;

/// Demodulator mode as reported by the module.
#[derive(Clone, Copy, Debug, PartialEq, Eq, Structural)]
pub enum Mode {
    Drm,
    AmWide,
    AmNarrow,
    Fm,
    Scanner,
    AfsSearch,
    EmergencyWarning,
}

/// The mode that a status byte denotes, if any.
pub open spec fn spec_mode_from_status(value: u8) -> Option<Mode> {
    if value == 0 {
        Some(Mode::Drm)
    } else if value == 1 {
        Some(Mode::AmWide)
    } else if value == 2 {
        Some(Mode::AmNarrow)
    } else if value == 3 {
        Some(Mode::Fm)
    } else if value == 4 {
        Some(Mode::Scanner)
    } else if value == 5 {
        Some(Mode::AfsSearch)
    } else if value == 6 {
        Some(Mode::EmergencyWarning)
    } else {
        None
    }
}

/// The parameter of a set-mode request that selects a mode, if it can be selected.
pub open spec fn spec_mode_set_value(mode: Mode) -> Option<u8> {
    match mode {
        Mode::Drm => Some(0u8),
        Mode::AmWide | Mode::Fm => Some(1u8),
        Mode::AmNarrow => Some(2u8),
        _ => None,
    }
}

impl Mode {
    pub fn from_status(value: u8) -> (mode: Option<Self>)
        ensures
            mode == spec_mode_from_status(value),
    {
        match value {
            0 => Some(Mode::Drm),
            1 => Some(Mode::AmWide),
            2 => Some(Mode::AmNarrow),
            3 => Some(Mode::Fm),
            4 => Some(Mode::Scanner),
            5 => Some(Mode::AfsSearch),
            6 => Some(Mode::EmergencyWarning),
            _ => None,
        }
    }

    pub fn set_value(self) -> (value: Option<u8>)
        ensures
            value == spec_mode_set_value(self),
    {
        match self {
            Mode::Drm => Some(0),
            Mode::AmWide | Mode::Fm => Some(1),
            Mode::AmNarrow => Some(2),
            _ => None,
        }
    }
}

/// The name under which a mode is shown.
pub open spec fn spec_mode_name(mode: Mode) -> Seq<char> {
    match mode {
        Mode::Drm => "DRM"@,
        Mode::AmWide => "AM wide"@,
        Mode::AmNarrow => "AM narrow"@,
        Mode::Fm => "FM"@,
        Mode::Scanner => "Scanner"@,
        Mode::AfsSearch => "AFS search"@,
        Mode::EmergencyWarning => "Emergency warning"@,
    }
}

impl Mode {
    /// The name under which the mode is shown.
    pub fn to_string(&self) -> (name: String)
        ensures
            name@ == spec_mode_name(*self),
    {
        let name: &str = match self {
            Mode::Drm => "DRM",
            Mode::AmWide => "AM wide",
            Mode::AmNarrow => "AM narrow",
            Mode::Fm => "FM",
            Mode::Scanner => "Scanner",
            Mode::AfsSearch => "AFS search",
            Mode::EmergencyWarning => "Emergency warning",
        };
        name.to_owned()
    }
}

/// Every selectable mode is reported back as itself once selected, except FM,
/// which is selected with the wide analogue setting and so reads back as AM
/// wide until the status packet reports the demodulator in use.
pub proof fn lemma_mode_set_value_reads_back(mode: Mode)
    ensures
        spec_mode_set_value(mode) matches Some(value) ==> spec_mode_from_status(value) == Some(
            if mode == Mode::Fm {
                Mode::AmWide
            } else {
                mode
            },
        ),
        spec_mode_set_value(mode) is Some <==> (mode == Mode::Drm || mode == Mode::AmWide || mode
            == Mode::AmNarrow || mode == Mode::Fm),
{
}

impl Default for Mode {
    fn default() -> (mode: Self)
        ensures
            mode == Mode::Drm,
    {
        Mode::Drm
    }
}


/// Value of the little-endian 32-bit field of `data` that starts at `offset`.
pub open spec fn spec_le_u32(data: Seq<u8>, offset: int) -> u32 {
    (data[offset] as u32) | ((data[offset + 1] as u32) << 8u32) | ((data[offset + 2] as u32)
        << 16u32) | ((data[offset + 3] as u32) << 24u32)
}

/// The four little-endian bytes of `value`.
pub open spec fn spec_le_bytes(value: u32) -> Seq<u8> {
    seq![
        (value & 0xff) as u8,
        ((value >> 8u32) & 0xff) as u8,
        ((value >> 16u32) & 0xff) as u8,
        ((value >> 24u32) & 0xff) as u8,
    ]
}

/// Reading back the four little-endian bytes of a word gives the word.
pub proof fn lemma_le_bytes_roundtrip(value: u32)
    ensures
        spec_le_bytes(value).len() == 4,
        spec_le_u32(spec_le_bytes(value), 0) == value,
{
    let b = spec_le_bytes(value);
    assert(b[0] == (value & 0xff) as u8);
    assert(b[1] == ((value >> 8u32) & 0xff) as u8);
    assert(b[2] == ((value >> 16u32) & 0xff) as u8);
    assert(b[3] == ((value >> 24u32) & 0xff) as u8);
    assert((((value & 0xff) as u8) as u32) | (((((value >> 8u32) & 0xff) as u8) as u32) << 8u32)
        | (((((value >> 16u32) & 0xff) as u8) as u32) << 16u32) | (((((value >> 24u32)
        & 0xff) as u8) as u32) << 24u32) == value) by (bit_vector);
}

/// A command: an opcode followed by its fixed-size parameters.
#[derive(Clone, Debug, PartialEq, Eq)]
pub struct Request {
    pub opcode: u8,
    pub parameters: Vec<u8>,
}

/// The bytes sent on the wire for a request with this opcode and these parameters.
pub open spec fn spec_request_bytes(opcode: u8, parameters: Seq<u8>) -> Seq<u8> {
    seq![opcode] + parameters
}

impl Request {
    pub fn new(opcode: u8) -> (request: Self)
        ensures
            request.opcode == opcode,
            request.parameters@ == Seq::<u8>::empty(),
    {
        Request { opcode, parameters: Vec::new() }
    }

    pub fn byte(opcode: u8, value: u8) -> (request: Self)
        ensures
            request.opcode == opcode,
            request.parameters@ == seq![value],
    {
        let mut parameters = Vec::new();
        parameters.push(value);
        Request { opcode, parameters }
    }

    /// A request whose parameter is one 32-bit word, sent little-endian.
    pub fn word(opcode: u8, value: u32) -> (request: Self)
        ensures
            request.opcode == opcode,
            request.parameters@ == spec_le_bytes(value),
    {
        let mut parameters = Vec::new();
        parameters.push((value & 0xff) as u8);
        parameters.push(((value >> 8) & 0xff) as u8);
        parameters.push(((value >> 16) & 0xff) as u8);
        parameters.push(((value >> 24) & 0xff) as u8);
        assert(parameters@ =~= spec_le_bytes(value));
        Request { opcode, parameters }
    }

    pub fn bytes(opcode: u8, values: &[u8]) -> (request: Self)
        ensures
            request.opcode == opcode,
            request.parameters@ == values@,
    {
        Request { opcode, parameters: copy_bytes(values, 0, values.len()) }
    }

    pub fn encode(&self) -> (bytes: Vec<u8>)
        ensures
            bytes@ == spec_request_bytes(self.opcode, self.parameters@),
    {
        let mut bytes = Vec::new();
        bytes.push(self.opcode);
        let mut i: usize = 0;
        while i < self.parameters.len()
            invariant
                0 <= i <= self.parameters@.len(),
                bytes@ == seq![self.opcode] + self.parameters@.subrange(0, i as int),
            decreases self.parameters@.len() - i,
        {
            bytes.push(self.parameters[i]);
            i = i + 1;
            assert(bytes@ =~= seq![self.opcode] + self.parameters@.subrange(0, i as int));
        }
        assert(self.parameters@.subrange(0, i as int) =~= self.parameters@);
        bytes
    }
}

/// A request goes out as its opcode byte followed by its parameters, and
/// nothing else.
pub proof fn lemma_request_bytes(opcode: u8, parameters: Seq<u8>)
    ensures
        spec_request_bytes(opcode, parameters).len() == parameters.len() + 1,
        spec_request_bytes(opcode, parameters)[0] == opcode,
        spec_request_bytes(opcode, parameters).subrange(1, (parameters.len() + 1) as int) == parameters,
{
    assert(spec_request_bytes(opcode, parameters).subrange(1, (parameters.len() + 1) as int) =~= parameters);
}

/// A copy of `data[start..end]`.
fn copy_bytes(data: &[u8], start: usize, end: usize) -> (bytes: Vec<u8>)
    requires
        start <= end <= data@.len(),
    ensures
        bytes@ == data@.subrange(start as int, end as int),
{
    let mut bytes = Vec::new();
    let mut i: usize = start;
    while i < end
        invariant
            start <= i <= end <= data@.len(),
            bytes@ == data@.subrange(start as int, i as int),
        decreases end - i,
    {
        bytes.push(data[i]);
        i = i + 1;
        assert(bytes@ =~= data@.subrange(start as int, i as int));
    }
    bytes
}


/// Text of a module error code.
pub open spec fn spec_error_description(code: u8) -> Seq<char> {
    if code == 0 {
        "no error"@
    } else if code == 3 {
        "invalid frequency"@
    } else if code == 4 {
        "no station found"@
    } else if code == 5 {
        "station load failed: no station"@
    } else if code == 6 {
        "station load failed: flash error"@
    } else if code == 7 {
        "station store failed: flash error"@
    } else if code == 8 {
        "station store failed: current station invalid"@
    } else if code == 9 {
        "persistent configuration contains an invalid parameter"@
    } else if code == 10 {
        "persistent configuration write failed"@
    } else if code == 11 {
        "persistent configuration is invalid"@
    } else if code == 12 {
        "persistent configuration read failed"@
    } else if code == 13 {
        "scanner is in progress"@
    } else if code == 14 {
        "invalid demodulation mode"@
    } else if code == 15 {
        "invalid volume"@
    } else if code == 16 {
        "screen not present"@
    } else if code == 17 {
        "scanner is not in progress"@
    } else if code == 18 {
        "buttons disabled in headless mode"@
    } else {
        "unknown module error"@
    }
}

pub fn error_description(code: u8) -> (text: &'static str)
    ensures
        text@ == spec_error_description(code),
{
    match code {
        0 => "no error",
        3 => "invalid frequency",
        4 => "no station found",
        5 => "station load failed: no station",
        6 => "station load failed: flash error",
        7 => "station store failed: flash error",
        8 => "station store failed: current station invalid",
        9 => "persistent configuration contains an invalid parameter",
        10 => "persistent configuration write failed",
        11 => "persistent configuration is invalid",
        12 => "persistent configuration read failed",
        13 => "scanner is in progress",
        14 => "invalid demodulation mode",
        15 => "invalid volume",
        16 => "screen not present",
        17 => "scanner is not in progress",
        18 => "buttons disabled in headless mode",
        _ => "unknown module error",
    }
}

/// A response: the echoed opcode, the module's error byte, and the payload.
#[derive(Clone, Debug, PartialEq, Eq)]
pub struct Frame {
    pub opcode: u8,
    pub error: u8,
    pub payload: Vec<u8>,
}

/// What a response frame holds, as plain values.
pub struct FrameModel {
    pub opcode: u8,
    pub error: u8,
    pub payload: Seq<u8>,
}

impl View for Frame {
    type V = FrameModel;

    open spec fn view(&self) -> FrameModel {
        FrameModel { opcode: self.opcode, error: self.error, payload: self.payload@ }
    }
}

impl Frame {
    pub fn require_ok(&self) -> (result: Result<(), String>)
        ensures
            result matches Ok(_) <==> self.error == 0,
            result matches Err(text) ==> text@ == spec_error_description(self.error),
    {
        if self.error == 0 {
            Ok(())
        } else {
            Err(error_description(self.error).to_owned())
        }
    }
}

} // verus!
