//! Parsers for the payloads of status, station-list and text responses.

use vstd::prelude::*;

use super::{
    spec_error_description, spec_le_u32, spec_mode_from_status, Frame,
    FrameModel, Mode,
};
use crate::text::{
    spec_decimal, spec_trim_end_nul, spec_utf8_lossy, status_length_message, trim_end_nul,
    unknown_mode_message, utf8_lossy,
};

verus! {

/// Reads the little-endian 32-bit field of `data` at `offset`.
pub fn le_u32(data: &[u8], offset: usize) -> (value: Result<u32, String>)
    requires
        offset + 4 <= usize::MAX,
    ensures
        value is Ok <==> offset + 4 <= data@.len(),
        value matches Ok(v) ==> v == spec_le_u32(data@, offset as int),
        value matches Err(text) ==> text@ == "truncated u32 field"@,
{
    if offset + 4 <= data.len() {
        Ok((data[offset] as u32) | ((data[offset + 1] as u32) << 8) | ((data[offset + 2] as u32)
            << 16) | ((data[offset + 3] as u32) << 24))
    } else {
        Err("truncated u32 field".to_owned())
    }
}

/// Reads the little-endian 32-bit field of `data` at `offset` as a two's
/// complement signed value.
fn le_i32(data: &[u8], offset: usize) -> (value: Result<i32, String>)
    requires
        offset + 4 <= usize::MAX,
    ensures
        value is Ok <==> offset + 4 <= data@.len(),
        value matches Ok(v) ==> v == spec_le_u32(data@, offset as int) as i32,
        value matches Err(text) ==> text@ == "truncated u32 field"@,
{
    match le_u32(data, offset) {
        Ok(v) => Ok(v as i32),
        Err(e) => Err(e),
    }
}

/// One audio or data service of a station.
#[derive(Clone, Debug)]
pub struct Service {
    pub id: u32,
    pub short_id: u8,
    pub label: String,
    pub is_data: bool,
    pub text_available: bool,
}

/// What a service holds, as plain values.
pub struct ServiceModel {
    pub id: u32,
    pub short_id: u8,
    pub label: Seq<char>,
    pub is_data: bool,
    pub text_available: bool,
}

impl View for Service {
    type V = ServiceModel;

    open spec fn view(&self) -> ServiceModel {
        ServiceModel {
            id: self.id,
            short_id: self.short_id,
            label: self.label@,
            is_data: self.is_data,
            text_available: self.text_available,
        }
    }
}

impl Default for Service {
    fn default() -> (service: Self)
        ensures
            service.id == 0,
            service.short_id == 0,
            service.label@ == Seq::<char>::empty(),
            !service.is_data,
            !service.text_available,
    {
        Service { id: 0, short_id: 0, label: String::new(), is_data: false, text_available: false }
    }
}

/// The views of a sequence of services.
pub open spec fn spec_services_view(services: Seq<Service>) -> Seq<ServiceModel> {
    services.map_values(|service: Service| service@)
}

/// The receiver status packet. Fields that the module sends as IEEE-754
/// single-precision values are kept as their raw bit patterns (`_bits`);
/// the carrier frequency offset is kept as the raw signed 16.16 fixed-point
/// value (`frequency_offset_raw`, to be divided by 65536).
#[derive(Clone, Debug)]
pub struct ReceiverStatus {
    pub mode: Mode,
    pub frame_synced: bool,
    pub signal_detected: bool,
    pub fac_crc_valid: bool,
    pub sdc_crc_valid: bool,
    pub msc_crc_valid: bool,
    pub fac_mer_db_bits: u32,
    pub sdc_mer_db_bits: u32,
    pub msc_mer_db_bits: u32,
    pub robustness_mode: u8,
    pub sample_rate_offset_ppm_bits: u32,
    pub frequency_offset_raw: i32,
    pub services: Vec<Service>,
    pub frame_rms_dbfs_bits: u32,
    pub rssi_dbm_bits: u32,
}

/// What a status packet holds, as plain values.
pub struct StatusModel {
    pub mode: Mode,
    pub frame_synced: bool,
    pub signal_detected: bool,
    pub fac_crc_valid: bool,
    pub sdc_crc_valid: bool,
    pub msc_crc_valid: bool,
    pub fac_mer_db_bits: u32,
    pub sdc_mer_db_bits: u32,
    pub msc_mer_db_bits: u32,
    pub robustness_mode: u8,
    pub sample_rate_offset_ppm_bits: u32,
    pub frequency_offset_raw: i32,
    pub services: Seq<ServiceModel>,
    pub frame_rms_dbfs_bits: u32,
    pub rssi_dbm_bits: u32,
}

impl View for ReceiverStatus {
    type V = StatusModel;

    open spec fn view(&self) -> StatusModel {
        StatusModel {
            mode: self.mode,
            frame_synced: self.frame_synced,
            signal_detected: self.signal_detected,
            fac_crc_valid: self.fac_crc_valid,
            sdc_crc_valid: self.sdc_crc_valid,
            msc_crc_valid: self.msc_crc_valid,
            fac_mer_db_bits: self.fac_mer_db_bits,
            sdc_mer_db_bits: self.sdc_mer_db_bits,
            msc_mer_db_bits: self.msc_mer_db_bits,
            robustness_mode: self.robustness_mode,
            sample_rate_offset_ppm_bits: self.sample_rate_offset_ppm_bits,
            frequency_offset_raw: self.frequency_offset_raw,
            services: spec_services_view(self.services@),
            frame_rms_dbfs_bits: self.frame_rms_dbfs_bits,
            rssi_dbm_bits: self.rssi_dbm_bits,
        }
    }
}

/// The status that holds nothing yet: DRM mode, every flag false, every
/// number zero, no services.
pub open spec fn spec_default_status() -> StatusModel {
    StatusModel {
        mode: Mode::Drm,
        frame_synced: false,
        signal_detected: false,
        fac_crc_valid: false,
        sdc_crc_valid: false,
        msc_crc_valid: false,
        fac_mer_db_bits: 0,
        sdc_mer_db_bits: 0,
        msc_mer_db_bits: 0,
        robustness_mode: 0,
        sample_rate_offset_ppm_bits: 0,
        frequency_offset_raw: 0,
        services: Seq::empty(),
        frame_rms_dbfs_bits: 0,
        rssi_dbm_bits: 0,
    }
}

impl Default for ReceiverStatus {
    fn default() -> (status: Self)
        ensures
            status@ == spec_default_status(),
    {
        let status = ReceiverStatus {
            mode: Mode::Drm,
            frame_synced: false,
            signal_detected: false,
            fac_crc_valid: false,
            sdc_crc_valid: false,
            msc_crc_valid: false,
            fac_mer_db_bits: 0,
            sdc_mer_db_bits: 0,
            msc_mer_db_bits: 0,
            robustness_mode: 0,
            sample_rate_offset_ppm_bits: 0,
            frequency_offset_raw: 0,
            services: Vec::new(),
            frame_rms_dbfs_bits: 0,
            rssi_dbm_bits: 0,
        };
        assert(spec_services_view(status.services@) =~= Seq::<ServiceModel>::empty());
        status
    }
}

/// Size of the status packet payload.
pub const STATUS_PAYLOAD_LEN: usize = 409;

/// Offset of the first service record in the status payload.
pub const STATUS_SERVICES_OFFSET: usize = 46;

/// Size of one service record in the status payload.
pub const STATUS_SERVICE_LEN: usize = 84;

/// Offset of the fields after the four service records.
pub const STATUS_TAIL_OFFSET: usize = 382;

/// The service record `index` of a status payload.
pub open spec fn spec_status_service(data: Seq<u8>, index: int) -> ServiceModel {
    let base = STATUS_SERVICES_OFFSET + index * STATUS_SERVICE_LEN;
    let label_length: int = if data[base + 83] < 65 {
        data[base + 83] as int
    } else {
        65
    };
    ServiceModel {
        id: spec_le_u32(data, base) & 0x000f_ffff,
        short_id: data[base + 4],
        label: spec_trim_end_nul(spec_utf8_lossy(data.subrange(base + 18, base + 18 + label_length))),
        is_data: data[base + 6] != 0,
        text_available: data[base + 14] != 0,
    }
}

/// Number of service records that a status payload uses (at most four).
pub open spec fn spec_status_service_count(data: Seq<u8>) -> int {
    if data[45] < 4 {
        data[45] as int
    } else {
        4
    }
}

/// What a status response decodes to: the module's error, a payload of the
/// wrong size, an unknown mode byte, or the status.
pub open spec fn spec_parse_status(frame: FrameModel) -> Result<StatusModel, Seq<char>> {
    let data = frame.payload;
    if frame.error != 0 {
        Err(spec_error_description(frame.error))
    } else if data.len() != STATUS_PAYLOAD_LEN {
        Err("status payload is "@ + spec_decimal(data.len()) + " bytes, expected 409"@)
    } else if spec_mode_from_status(data[0]) is None {
        Err("unknown mode "@ + spec_decimal(data[0] as nat))
    } else {
        Ok(
            StatusModel {
                mode: spec_mode_from_status(data[0]).unwrap(),
                frame_synced: data[1] != 0,
                signal_detected: data[2] != 0,
                fac_crc_valid: data[3] != 0,
                sdc_crc_valid: data[12] != 0,
                msc_crc_valid: data[21] != 0,
                fac_mer_db_bits: spec_le_u32(data, 4),
                sdc_mer_db_bits: spec_le_u32(data, 13),
                msc_mer_db_bits: spec_le_u32(data, 22),
                robustness_mode: data[30],
                sample_rate_offset_ppm_bits: spec_le_u32(data, 37),
                frequency_offset_raw: spec_le_u32(data, 41) as i32,
                services: Seq::new(
                    spec_status_service_count(data) as nat,
                    |index: int| spec_status_service(data, index),
                ),
                frame_rms_dbfs_bits: spec_le_u32(data, STATUS_TAIL_OFFSET + 16),
                rssi_dbm_bits: spec_le_u32(data, STATUS_TAIL_OFFSET + 20),
            },
        )
    }
}

/// Decodes a status response.
pub fn parse_status(frame: &Frame) -> (status: Result<ReceiverStatus, String>)
    ensures
        status matches Ok(s) ==> spec_parse_status(frame@) == Ok::<StatusModel, Seq<char>>(s@),
        status matches Err(text) ==> spec_parse_status(frame@) == Err::<StatusModel, Seq<
            char,
        >>(text@),
{
    frame.require_ok()?;
    let data = frame.payload.as_slice();
    if data.len() != STATUS_PAYLOAD_LEN {
        return Err(status_length_message(data.len()));
    }
    let service_count: usize = if data[45] < 4 {
        data[45] as usize
    } else {
        4
    };
    let mut services: Vec<Service> = Vec::new();
    let mut index: usize = 0;
    while index < service_count
        invariant
            data@ == frame.payload@,
            data@.len() == STATUS_PAYLOAD_LEN,
            service_count == spec_status_service_count(data@),
            0 <= index <= service_count,
            services@.len() == index,
            forall|k: int|
                0 <= k < index ==> #[trigger] services@[k]@ == spec_status_service(data@, k),
        decreases service_count - index,
    {
        let base = STATUS_SERVICES_OFFSET + index * STATUS_SERVICE_LEN;
        let id = le_u32(data, base)? & 0x000f_ffff;
        let label_length: usize = if data[base + 83] < 65 {
            data[base + 83] as usize
        } else {
            65
        };
        let raw = utf8_lossy(&data[base + 18..base + 18 + label_length]);
        let label = trim_end_nul(raw.as_str()).to_owned();
        services.push(
            Service {
                id,
                short_id: data[base + 4],
                label,
                is_data: data[base + 6] != 0,
                text_available: data[base + 14] != 0,
            },
        );
        index = index + 1;
    }
    let mode = match Mode::from_status(data[0]) {
        Some(mode) => mode,
        None => {
            return Err(unknown_mode_message(data[0]));
        },
    };
    let status = ReceiverStatus {
        mode,
        frame_synced: data[1] != 0,
        signal_detected: data[2] != 0,
        fac_crc_valid: data[3] != 0,
        fac_mer_db_bits: le_u32(data, 4)?,
        sdc_crc_valid: data[12] != 0,
        sdc_mer_db_bits: le_u32(data, 13)?,
        msc_crc_valid: data[21] != 0,
        msc_mer_db_bits: le_u32(data, 22)?,
        robustness_mode: data[30],
        sample_rate_offset_ppm_bits: le_u32(data, 37)?,
        frequency_offset_raw: le_i32(data, 41)?,
        services,
        frame_rms_dbfs_bits: le_u32(data, STATUS_TAIL_OFFSET + 16)?,
        rssi_dbm_bits: le_u32(data, STATUS_TAIL_OFFSET + 20)?,
    };
    assert(status@.services =~= spec_parse_status(frame@)->Ok_0.services);
    Ok(status)
}


/// The pieces of `bytes` between NUL bytes, in order, empty pieces included:
/// what `split` on a byte slice with the separator `0` yields. There is one
/// more piece than there are NUL bytes.
pub open spec fn spec_split_nul(bytes: Seq<u8>) -> Seq<Seq<u8>>
    decreases bytes.len(),
{
    if bytes.len() == 0 {
        seq![Seq::<u8>::empty()]
    } else if bytes.last() == 0 {
        spec_split_nul(bytes.drop_last()).push(Seq::<u8>::empty())
    } else {
        let pieces = spec_split_nul(bytes.drop_last());
        pieces.update(pieces.len() - 1, pieces.last().push(bytes.last()))
    }
}

proof fn lemma_split_nul_nonempty(bytes: Seq<u8>)
    ensures
        spec_split_nul(bytes).len() >= 1,
    decreases bytes.len(),
{
    if bytes.len() > 0 {
        lemma_split_nul_nonempty(bytes.drop_last());
    }
}

/// Number of NUL bytes in `bytes`.
pub open spec fn spec_count_nul(bytes: Seq<u8>) -> nat
    decreases bytes.len(),
{
    if bytes.len() == 0 {
        0
    } else if bytes.last() == 0 {
        spec_count_nul(bytes.drop_last()) + 1
    } else {
        spec_count_nul(bytes.drop_last())
    }
}

/// The label table has one entry more than it has NUL bytes, empty entries
/// included, and no entry holds a NUL byte: a label's index counts the NUL
/// bytes before it.
pub proof fn lemma_split_nul_keeps_empty_entries(bytes: Seq<u8>)
    ensures
        spec_split_nul(bytes).len() == spec_count_nul(bytes) + 1,
        forall|k: int, i: int|
            0 <= k < spec_split_nul(bytes).len() && 0 <= i < spec_split_nul(bytes)[k].len()
                ==> #[trigger] spec_split_nul(bytes)[k][i] != 0,
    decreases bytes.len(),
{
    if bytes.len() > 0 {
        let rest = bytes.drop_last();
        lemma_split_nul_keeps_empty_entries(rest);
        let pieces = spec_split_nul(rest);
        if bytes.last() != 0 {
            let last = pieces.last().push(bytes.last());
            assert forall|k: int, i: int|
                0 <= k < spec_split_nul(bytes).len() && 0 <= i < spec_split_nul(bytes)[k].len()
                    implies #[trigger] spec_split_nul(bytes)[k][i] != 0 by {
                if k == pieces.len() - 1 {
                    if i < pieces.last().len() {
                        assert(spec_split_nul(bytes)[k][i] == pieces[k][i]);
                    }
                } else {
                    assert(spec_split_nul(bytes)[k] == pieces[k]);
                }
            }
        } else {
            assert forall|k: int, i: int|
                0 <= k < spec_split_nul(bytes).len() && 0 <= i < spec_split_nul(bytes)[k].len()
                    implies #[trigger] spec_split_nul(bytes)[k][i] != 0 by {
                if k < pieces.len() {
                    assert(spec_split_nul(bytes)[k] == pieces[k]);
                }
            }
        }
    }
}

/// Splits `bytes` at its NUL bytes.
fn split_nul(bytes: &[u8]) -> (pieces: Vec<Vec<u8>>)
    ensures
        pieces@.len() == spec_split_nul(bytes@).len(),
        forall|k: int| 0 <= k < pieces@.len() ==> #[trigger] pieces@[k]@ == spec_split_nul(bytes@)[k],
{
    let mut done: Vec<Vec<u8>> = Vec::new();
    let mut current: Vec<u8> = Vec::new();
    let mut i: usize = 0;
    while i < bytes.len()
        invariant
            0 <= i <= bytes@.len(),
            spec_split_nul(bytes@.take(i as int)).len() == done@.len() + 1,
            forall|k: int|
                0 <= k < done@.len() ==> #[trigger] done@[k]@ == spec_split_nul(bytes@.take(i as int))[k],
            current@ == spec_split_nul(bytes@.take(i as int)).last(),
        decreases bytes@.len() - i,
    {
        let ghost before = bytes@.take(i as int);
        assert(bytes@.take(i + 1).drop_last() =~= before);
        proof {
            lemma_split_nul_nonempty(before);
        }
        if bytes[i] == 0 {
            let mut finished: Vec<u8> = Vec::new();
            std::mem::swap(&mut finished, &mut current);
            done.push(finished);
        } else {
            current.push(bytes[i]);
        }
        i = i + 1;
    }
    assert(bytes@.take(i as int) =~= bytes@);
    done.push(current);
    done
}

/// One station found by a scan.
#[derive(Clone, Debug)]
pub struct ScannedStation {
    pub mode: Mode,
    pub frequency_hz: u32,
    pub services: Vec<Service>,
}

/// What a scanned station holds, as plain values.
pub struct StationModel {
    pub mode: Mode,
    pub frequency_hz: u32,
    pub services: Seq<ServiceModel>,
}

impl View for ScannedStation {
    type V = StationModel;

    open spec fn view(&self) -> StationModel {
        StationModel {
            mode: self.mode,
            frequency_hz: self.frequency_hz,
            services: spec_services_view(self.services@),
        }
    }
}

impl Default for ScannedStation {
    fn default() -> (station: Self)
        ensures
            station.mode == Mode::Drm,
            station.frequency_hz == 0,
            station.services@ == Seq::<Service>::empty(),
    {
        ScannedStation { mode: Mode::Drm, frequency_hz: 0, services: Vec::new() }
    }
}

/// The views of a sequence of stations.
pub open spec fn spec_stations_view(stations: Seq<ScannedStation>) -> Seq<StationModel> {
    stations.map_values(|station: ScannedStation| station@)
}

/// Size of one station record in the station list.
pub const STATION_RECORD_LEN: usize = 24;

/// Most stations that a station list may announce.
pub const MAX_SCANNED_STATIONS: usize = 100;

/// Service `index` of the station record at `base`; its label is the piece of
/// the label table that the service's label index selects, or empty where the
/// table has no such piece.
pub open spec fn spec_station_service(
    payload: Seq<u8>,
    base: int,
    index: int,
    labels: Seq<Seq<u8>>,
) -> ServiceModel {
    let packed = spec_le_u32(payload, base + 4 + index * 4);
    let label_index = ((packed >> 25u32) & 0x7f) as int;
    ServiceModel {
        id: packed & 0x00ff_ffff,
        short_id: 0,
        label: if label_index < labels.len() {
            spec_utf8_lossy(labels[label_index])
        } else {
            Seq::empty()
        },
        is_data: packed & (1u32 << 24u32) != 0,
        text_available: false,
    }
}

/// Station record `index` of a station list.
pub open spec fn spec_scanned_station(payload: Seq<u8>, index: int, labels: Seq<Seq<u8>>) -> StationModel {
    let base = 4 + index * STATION_RECORD_LEN;
    let mode_freq = spec_le_u32(payload, base);
    let service_count: int = if payload[base + 20] < 4 {
        payload[base + 20] as int
    } else {
        4
    };
    StationModel {
        mode: spec_mode_from_status((mode_freq >> 30u32) as u8).unwrap(),
        frequency_hz: mode_freq & 0x3fff_ffff,
        services: Seq::new(
            service_count as nat,
            |j: int| spec_station_service(payload, base, j, labels),
        ),
    }
}

/// What a station-list response decodes to: the module's error, a payload too
/// short for its count, or one station per record. The label table after the
/// records is split at NUL bytes.
pub open spec fn spec_parse_scanned_stations(frame: FrameModel) -> Result<Seq<StationModel>, Seq<char>> {
    let payload = frame.payload;
    if frame.error != 0 {
        Err(spec_error_description(frame.error))
    } else if payload.len() < 4 {
        Err("station response is too short"@)
    } else {
        let count = spec_le_u32(payload, 0) as int;
        if count > MAX_SCANNED_STATIONS || payload.len() < 4 + count * STATION_RECORD_LEN {
            Err("invalid station count or truncated station table"@)
        } else {
            let labels = spec_split_nul(payload.subrange(4 + count * STATION_RECORD_LEN, payload.len() as int));
            Ok(Seq::new(count as nat, |index: int| spec_scanned_station(payload, index, labels)))
        }
    }
}

/// Decodes a station-list response.
pub fn parse_scanned_stations(frame: &Frame) -> (stations: Result<Vec<ScannedStation>, String>)
    ensures
        stations matches Ok(s) ==> spec_parse_scanned_stations(frame@) == Ok::<
            Seq<StationModel>,
            Seq<char>,
        >(spec_stations_view(s@)),
        stations matches Err(text) ==> spec_parse_scanned_stations(frame@) == Err::<
            Seq<StationModel>,
            Seq<char>,
        >(text@),
{
    frame.require_ok()?;
    let payload = frame.payload.as_slice();
    if payload.len() < 4 {
        return Err("station response is too short".to_owned());
    }
    let count = le_u32(payload, 0)? as usize;
    if count > MAX_SCANNED_STATIONS || payload.len() < 4 + count * STATION_RECORD_LEN {
        return Err("invalid station count or truncated station table".to_owned());
    }
    let table_start = 4 + count * STATION_RECORD_LEN;
    let pieces = split_nul(&payload[table_start..payload.len()]);
    let ghost label_bytes = spec_split_nul(payload@.subrange(table_start as int, payload@.len() as int));
    let mut labels: Vec<String> = Vec::new();
    let mut k: usize = 0;
    while k < pieces.len()
        invariant
            pieces@.len() == label_bytes.len(),
            forall|j: int| 0 <= j < pieces@.len() ==> #[trigger] pieces@[j]@ == label_bytes[j],
            0 <= k <= pieces@.len(),
            labels@.len() == k,
            forall|j: int| 0 <= j < k ==> #[trigger] labels@[j]@ == spec_utf8_lossy(label_bytes[j]),
        decreases pieces@.len() - k,
    {
        labels.push(utf8_lossy(pieces[k].as_slice()));
        k = k + 1;
    }
    let mut stations: Vec<ScannedStation> = Vec::new();
    let mut index: usize = 0;
    while index < count
        invariant
            payload@ == frame.payload@,
            payload@.len() <= usize::MAX,
            count == spec_le_u32(payload@, 0),
            count <= MAX_SCANNED_STATIONS,
            4 + count * STATION_RECORD_LEN <= payload@.len(),
            labels@.len() == label_bytes.len(),
            forall|j: int| 0 <= j < labels@.len() ==> #[trigger] labels@[j]@ == spec_utf8_lossy(label_bytes[j]),
            label_bytes == spec_split_nul(payload@.subrange(4 + count * STATION_RECORD_LEN, payload@.len() as int)),
            0 <= index <= count,
            stations@.len() == index,
            forall|j: int|
                0 <= j < index ==> #[trigger] stations@[j]@ == spec_scanned_station(payload@, j, label_bytes),
        decreases count - index,
    {
        assert(4 + index * STATION_RECORD_LEN + STATION_RECORD_LEN <= 4 + count * STATION_RECORD_LEN)
            by (nonlinear_arith)
            requires
                index < count,
        ;
        let base = 4 + index * STATION_RECORD_LEN;
        let mode_freq = le_u32(payload, base)?;
        assert((mode_freq >> 30u32) <= 3) by (bit_vector);
        let mode = match Mode::from_status((mode_freq >> 30) as u8) {
            Some(mode) => mode,
            None => {
                return Err("invalid scanned station mode".to_owned());
            },
        };
        let service_count: usize = if payload[base + 20] < 4 {
            payload[base + 20] as usize
        } else {
            4
        };
        let mut services: Vec<Service> = Vec::new();
        let mut service_index: usize = 0;
        while service_index < service_count
            invariant
                payload@ == frame.payload@,
                4 + count * STATION_RECORD_LEN <= payload@.len(),
                index < count,
                base == 4 + index * STATION_RECORD_LEN,
                base + STATION_RECORD_LEN <= payload@.len(),
                payload@.len() <= usize::MAX,
                service_count <= 4,
                labels@.len() == label_bytes.len(),
                forall|j: int| 0 <= j < labels@.len() ==> #[trigger] labels@[j]@ == spec_utf8_lossy(label_bytes[j]),
                0 <= service_index <= service_count,
                services@.len() == service_index,
                forall|j: int|
                    0 <= j < service_index ==> #[trigger] services@[j]@ == spec_station_service(
                        payload@,
                        base as int,
                        j,
                        label_bytes,
                    ),
            decreases service_count - service_index,
        {
            let packed = le_u32(payload, base + 4 + service_index * 4)?;
            let label_index = ((packed >> 25) & 0x7f) as usize;
            let label = if label_index < labels.len() {
                labels[label_index].clone()
            } else {
                String::new()
            };
            services.push(
                Service {
                    id: packed & 0x00ff_ffff,
                    short_id: 0,
                    label,
                    is_data: packed & (1 << 24) != 0,
                    text_available: false,
                },
            );
            service_index = service_index + 1;
        }
        let station = ScannedStation { mode, frequency_hz: mode_freq & 0x3fff_ffff, services };
        assert(station@.services =~= spec_scanned_station(payload@, index as int, label_bytes).services);
        stations.push(station);
        index = index + 1;
    }
    assert(spec_stations_view(stations@) =~= spec_parse_scanned_stations(frame@)->Ok_0);
    Ok(stations)
}

/// What a broadcast-text response decodes to: the module's error, a payload
/// too short, no message (first byte 1), or the text after the two-byte
/// prefix.
pub open spec fn spec_parse_text_message(frame: FrameModel) -> Result<Option<Seq<char>>, Seq<char>> {
    if frame.error != 0 {
        Err(spec_error_description(frame.error))
    } else if frame.payload.len() < 2 {
        Err("text message response is too short"@)
    } else if frame.payload[0] == 1 {
        Ok(None)
    } else {
        Ok(Some(spec_utf8_lossy(frame.payload.subrange(2, frame.payload.len() as int))))
    }
}

/// Decodes a broadcast-text response.
pub fn parse_text_message(frame: &Frame) -> (message: Result<Option<String>, String>)
    ensures
        message matches Ok(Some(text)) ==> spec_parse_text_message(frame@) == Ok::<
            Option<Seq<char>>,
            Seq<char>,
        >(Some(text@)),
        message matches Ok(None) ==> spec_parse_text_message(frame@) == Ok::<
            Option<Seq<char>>,
            Seq<char>,
        >(None),
        message matches Err(text) ==> spec_parse_text_message(frame@) == Err::<
            Option<Seq<char>>,
            Seq<char>,
        >(text@),
{
    frame.require_ok()?;
    let payload = frame.payload.as_slice();
    if payload.len() < 2 {
        return Err("text message response is too short".to_owned());
    }
    if payload[0] == 1 {
        return Ok(None);
    }
    Ok(Some(utf8_lossy(&payload[2..payload.len()])))
}

} // verus!
