//! Choices that the desktop interface makes from the controller's state:
//! which port to preselect, how stations and services are labelled, and
//! which request a selection sends.

use vstd::prelude::*;

use crate::protocol::opcode;
use crate::protocol::{
    spec_le_bytes, spec_mode_set_value, Mode, Request, ScannedStation, Service,
};
use crate::serial::PortSummary;
use crate::serial::SerialSnapshot;
use crate::text::{
    hertz_text, kilohertz_text, megahertz_text, service_id_title, spec_decimal,
    spec_decimal_padded, spec_hex_padded,
};

verus! {

/// The port to preselect when none is selected yet: the first port that is
/// likely the receiver, otherwise the only port if there is exactly one.
pub open spec fn spec_preselect_port(ports: Seq<PortSummary>) -> Option<Seq<char>> {
    if exists|i: int| 0 <= i < ports.len() && #[trigger] ports[i].likely_device {
        let i = choose|i: int|
            0 <= i < ports.len() && #[trigger] ports[i].likely_device && forall|j: int|
                0 <= j < i ==> !(#[trigger] ports[j].likely_device);
        Some(ports[i].port_name@)
    } else if ports.len() == 1 {
        Some(ports[0].port_name@)
    } else {
        None
    }
}

/// The port to preselect when none is selected yet.
pub fn preselect_port(ports: &Vec<PortSummary>) -> (port: Option<String>)
    ensures
        match port {
            Some(name) => spec_preselect_port(ports@) == Some(name@),
            None => spec_preselect_port(ports@) is None,
        },
{
    let mut i: usize = 0;
    while i < ports.len()
        invariant
            0 <= i <= ports@.len(),
            forall|j: int| 0 <= j < i ==> !(#[trigger] ports@[j].likely_device),
        decreases ports@.len() - i,
    {
        if ports[i].likely_device {
            let ghost first = i as int;
            assert(0 <= first < ports@.len() && ports@[first].likely_device && forall|j: int|
                0 <= j < first ==> !(#[trigger] ports@[j].likely_device));
            let ghost chosen = choose|k: int|
                0 <= k < ports@.len() && #[trigger] ports@[k].likely_device && forall|j: int|
                    0 <= j < k ==> !(#[trigger] ports@[j].likely_device);
            assert(chosen == first) by {
                if chosen < first {
                    assert(!ports@[chosen].likely_device);
                } else if chosen > first {
                    assert(!ports@[first].likely_device);
                }
            }
            return Some(ports[i].port_name.clone());
        }
        i = i + 1;
    }
    if ports.len() == 1 {
        Some(ports[0].port_name.clone())
    } else {
        None
    }
}

/// How a scanned station is listed: the label of its first service, unless
/// it has no service or that label is empty.
pub open spec fn spec_station_label(station: ScannedStation) -> Seq<char> {
    if station.services@.len() > 0 && station.services@[0].label@.len() > 0 {
        station.services@[0].label@
    } else {
        "Unnamed station"@
    }
}

/// How a scanned station is listed.
pub fn station_label(station: &ScannedStation) -> (label: String)
    ensures
        label@ == spec_station_label(*station),
{
    if station.services.len() > 0 && !station.services[0].label.as_str().is_empty() {
        station.services[0].label.clone()
    } else {
        "Unnamed station".to_owned()
    }
}

/// The request sent when a scanned station is selected: tune to its first
/// service, or to its frequency if it has no service.
pub fn station_select_request(station: &ScannedStation) -> (request: Request)
    ensures
        station.services@.len() > 0 ==> request.opcode == opcode::TUNE_TO_STATION_ID
            && request.parameters@ == spec_le_bytes(station.services@[0].id),
        station.services@.len() == 0 ==> request.opcode == opcode::TUNE_TO_FREQUENCY
            && request.parameters@ == spec_le_bytes(station.frequency_hz),
{
    if station.services.len() > 0 {
        Request::word(opcode::TUNE_TO_STATION_ID, station.services[0].id)
    } else {
        Request::word(opcode::TUNE_TO_FREQUENCY, station.frequency_hz)
    }
}

/// How a service of the current status is listed: its label, or its
/// identifier in six or more hexadecimal digits when it has no label.
pub open spec fn spec_service_title(service: Service) -> Seq<char> {
    if service.label@.len() > 0 {
        service.label@
    } else {
        "Service "@ + spec_hex_padded(service.id as nat, 6)
    }
}

/// How a service of the current status is listed.
pub fn service_title(service: &Service) -> (title: String)
    ensures
        title@ == spec_service_title(*service),
{
    if !service.label.as_str().is_empty() {
        service.label.clone()
    } else {
        service_id_title(service.id)
    }
}

/// The request that selects a mode, if the mode can be selected.
pub fn mode_request(mode: Mode) -> (request: Option<Request>)
    ensures
        match spec_mode_set_value(mode) {
            Some(value) => request matches Some(r) && r.opcode == opcode::SET_MODE
                && r.parameters@ == seq![value],
            None => request is None,
        },
{
    match mode.set_value() {
        Some(value) => Some(Request::byte(opcode::SET_MODE, value)),
        None => None,
    }
}


/// How a flag of the status packet is shown.
pub fn yes_no(value: bool) -> (text: &'static str)
    ensures
        text@ == (if value {
            "Yes"@
        } else {
            "No"@
        }),
{
    if value {
        "Yes"
    } else {
        "No"
    }
}


/// How a frequency is shown: in MHz with six decimals from 1 MHz up, in kHz
/// with three decimals from 1 kHz up, otherwise in Hz.
pub open spec fn spec_frequency_text(hz: u32) -> Seq<char> {
    if hz >= 1_000_000 {
        spec_decimal((hz / 1_000_000) as nat) + "."@ + spec_decimal_padded(
            (hz % 1_000_000) as nat,
            6,
        ) + " MHz"@
    } else if hz >= 1_000 {
        spec_decimal((hz / 1_000) as nat) + "."@ + spec_decimal_padded((hz % 1_000) as nat, 3)
            + " kHz"@
    } else {
        spec_decimal(hz as nat) + " Hz"@
    }
}

/// How a frequency is shown.
pub fn format_frequency(hz: u32) -> (text: String)
    ensures
        text@ == spec_frequency_text(hz),
{
    if hz >= 1_000_000 {
        megahertz_text(hz / 1_000_000, hz % 1_000_000)
    } else if hz >= 1_000 {
        kilohertz_text(hz / 1_000, hz % 1_000)
    } else {
        hertz_text(hz)
    }
}

/// Which editors a newly published snapshot refreshes: the frequency editor
/// only when a new frequency reply arrived, the volume editor only when a
/// new volume reply arrived.
pub fn editor_updates(shown: &SerialSnapshot, incoming: &SerialSnapshot) -> (updates: (
    Option<u32>,
    Option<u8>,
))
    ensures
        updates.0 == (if incoming.frequency_generation != shown.frequency_generation {
            incoming.frequency_hz
        } else {
            None
        }),
        updates.1 == (if incoming.volume_generation != shown.volume_generation {
            incoming.volume
        } else {
            None
        }),
{
    let frequency = if incoming.frequency_generation != shown.frequency_generation {
        incoming.frequency_hz
    } else {
        None
    };
    let volume = if incoming.volume_generation != shown.volume_generation {
        incoming.volume
    } else {
        None
    };
    (frequency, volume)
}


/// The first port marked as the likely receiver is preselected; with none
/// so marked, the only port is preselected when there is exactly one, and
/// nothing otherwise.
pub proof fn lemma_preselection(ports: Seq<PortSummary>, first: int)
    ensures
        0 <= first < ports.len() && ports[first].likely_device && (forall|j: int|
            0 <= j < first ==> !(#[trigger] ports[j].likely_device)) ==> spec_preselect_port(ports)
            == Some(ports[first].port_name@),
        (forall|j: int| 0 <= j < ports.len() ==> !(#[trigger] ports[j].likely_device)) ==> (
        spec_preselect_port(ports) == if ports.len() == 1 {
            Some(ports[0].port_name@)
        } else {
            None
        }),
{
    if 0 <= first < ports.len() && ports[first].likely_device && (forall|j: int|
        0 <= j < first ==> !(#[trigger] ports[j].likely_device)) {
        let chosen = choose|k: int|
            0 <= k < ports.len() && #[trigger] ports[k].likely_device && forall|j: int|
                0 <= j < k ==> !(#[trigger] ports[j].likely_device);
        assert(chosen == first) by {
            if chosen < first {
                assert(!ports[chosen].likely_device);
            } else if chosen > first {
                assert(!ports[first].likely_device);
            }
        }
    }
}

/// Frequencies from 1 MHz up are shown as whole megahertz, a point, six
/// digits of the remainder and ` MHz`; from 1 kHz up as whole kilohertz, a
/// point, three digits and ` kHz`; below that in hertz with ` Hz`.
pub proof fn lemma_frequency_units(hz: u32)
    ensures
        hz >= 1_000_000 ==> spec_frequency_text(hz) == spec_decimal((hz / 1_000_000) as nat)
            + "."@ + spec_decimal_padded((hz % 1_000_000) as nat, 6) + " MHz"@,
        1_000 <= hz < 1_000_000 ==> spec_frequency_text(hz) == spec_decimal((hz / 1_000) as nat)
            + "."@ + spec_decimal_padded((hz % 1_000) as nat, 3) + " kHz"@,
        hz < 1_000 ==> spec_frequency_text(hz) == spec_decimal(hz as nat) + " Hz"@,
{
}

} // verus!
