use drm1000_gui::display::{
    editor_updates, format_frequency, mode_request, preselect_port, service_title, station_label, station_select_request,
};
use drm1000_gui::protocol::{opcode, Frame, Mode, ScannedStation, Service};
use drm1000_gui::serial::{process_frame, PortSummary, SerialSnapshot};

fn port(name: &str, likely_device: bool) -> PortSummary {
    PortSummary {
        port_name: name.to_owned(),
        summary: String::new(),
        likely_device,
    }
}

#[test]
fn port_preselection() {
    assert_eq!(preselect_port(&vec![]), None);
    assert_eq!(preselect_port(&vec![port("a", false)]), Some("a".to_owned()));
    assert_eq!(preselect_port(&vec![port("a", false), port("b", false)]), None);
    assert_eq!(
        preselect_port(&vec![port("a", false), port("b", true), port("c", true)]),
        Some("b".to_owned())
    );
}

#[test]
fn station_labels_and_selection() {
    let mut station = ScannedStation {
        mode: Mode::Drm,
        frequency_hz: 15_200_000,
        services: vec![],
    };
    assert_eq!(station_label(&station), "Unnamed station");
    assert_eq!(station_select_request(&station).encode(), vec![0x04, 0x00, 0xef, 0xe7, 0x00]);
    station.services.push(Service {
        id: 0x123456,
        label: String::new(),
        ..Default::default()
    });
    assert_eq!(station_label(&station), "Unnamed station");
    assert_eq!(station_select_request(&station).encode(), vec![0x03, 0x56, 0x34, 0x12, 0x00]);
    station.services[0].label = "Radio".to_owned();
    assert_eq!(station_label(&station), "Radio");
}

#[test]
fn service_titles() {
    let mut service = Service {
        id: 0xabc,
        ..Default::default()
    };
    assert_eq!(service_title(&service), "Service 000ABC");
    service.id = 0x1234_5678;
    assert_eq!(service_title(&service), "Service 12345678");
    service.label = "News".to_owned();
    assert_eq!(service_title(&service), "News");
}

#[test]
fn mode_requests() {
    assert_eq!(mode_request(Mode::Fm).unwrap().encode(), vec![0x05, 1]);
    assert_eq!(mode_request(Mode::AmNarrow).unwrap().encode(), vec![0x05, 2]);
    assert!(mode_request(Mode::Scanner).is_none());
}

#[test]
fn status_flags() {
    assert_eq!(drm1000_gui::display::yes_no(true), "Yes");
    assert_eq!(drm1000_gui::display::yes_no(false), "No");
}

#[test]
fn frequencies_are_shown_in_their_unit() {
    assert_eq!(format_frequency(15_200_000), "15.200000 MHz");
    assert_eq!(format_frequency(1_000_000), "1.000000 MHz");
    assert_eq!(format_frequency(u32::MAX), "4294.967295 MHz");
    assert_eq!(format_frequency(999_999), "999.999 kHz");
    assert_eq!(format_frequency(1_005), "1.005 kHz");
    assert_eq!(format_frequency(999), "999 Hz");
    assert_eq!(format_frequency(0), "0 Hz");
    for hz in [1u32, 999, 1_000, 12_345, 999_999, 1_000_000, 7_654_321, 123_456_789, u32::MAX] {
        let float_text = if hz >= 1_000_000 {
            format!("{:.6} MHz", hz as f64 / 1_000_000.0)
        } else if hz >= 1_000 {
            format!("{:.3} kHz", hz as f64 / 1_000.0)
        } else {
            format!("{hz} Hz")
        };
        assert_eq!(format_frequency(hz), float_text);
    }
}

#[test]
fn editors_refresh_only_on_their_replies() {
    let shown = SerialSnapshot::default();
    let mut incoming = shown.clone();
    process_frame(
        Frame { opcode: opcode::GET_VERSION, error: 0, payload: b"test".to_vec() },
        &mut incoming,
    );
    assert_eq!(editor_updates(&shown, &incoming), (None, None));
    process_frame(
        Frame { opcode: opcode::GET_VOLUME, error: 0, payload: vec![42] },
        &mut incoming,
    );
    assert_eq!(editor_updates(&shown, &incoming), (None, Some(42)));
    let shown = incoming.clone();
    process_frame(
        Frame { opcode: opcode::GET_TUNED_FREQ, error: 0, payload: 999_000u32.to_le_bytes().to_vec() },
        &mut incoming,
    );
    assert_eq!(editor_updates(&shown, &incoming), (Some(999_000), None));
}
