use drm1000_gui::cli::{
    on_off, one_byte, parse_byte, parse_hex_byte, parse_u32, parse_unsigned, preset_request,
    register_write_request, set_volume_request, standby_request, station_step_request,
    tune_station_request, GainMode, IntParseFailure, OnOff, StandbyMode,
};
use drm1000_gui::protocol::{opcode, Frame};

#[test]
fn unsigned_parsing_follows_std() {
    for text in ["", "+", "-", "-1", "+12", "12", "4294967295", "4294967296", "1x", "x1", " 1"] {
        let ours = parse_unsigned(text.as_bytes(), 10, u32::MAX);
        let std = text.parse::<u32>().map_err(|e| e.to_string());
        match (ours, std) {
            (Ok(a), Ok(b)) => assert_eq!(a, b, "{text:?}"),
            (Err(_), Err(_)) => {}
            (a, b) => panic!("{text:?}: {a:?} vs {b:?}"),
        }
    }
    assert_eq!(parse_unsigned(b"", 10, 9), Err(IntParseFailure::Empty));
    assert_eq!(parse_unsigned(b"+", 10, 9), Err(IntParseFailure::InvalidDigit));
    assert_eq!(parse_unsigned(b"99x9999999999", 10, u32::MAX), Err(IntParseFailure::InvalidDigit));
    assert_eq!(parse_unsigned(b"9999999999x", 10, u32::MAX), Err(IntParseFailure::PosOverflow));
    assert_eq!(parse_unsigned(b"fF", 16, 255), Ok(255));
    assert_eq!(parse_unsigned(b"100", 16, 255), Err(IntParseFailure::PosOverflow));
}

#[test]
fn hex_bytes() {
    assert_eq!(parse_byte("3d"), Ok(0x3d));
    assert_eq!(parse_byte(" 0x3D \n"), Ok(0x3d));
    assert_eq!(parse_byte("0x0x7"), Ok(7));
    assert_eq!(parse_byte("+f"), Ok(15));
    assert_eq!(
        parse_byte("100"),
        Err("expected a hexadecimal byte from 00 to FF".to_owned())
    );
    assert_eq!(
        parse_byte("0x"),
        Err("expected a hexadecimal byte from 00 to FF".to_owned())
    );
    assert_eq!(parse_hex_byte("ff", "value"), Ok(255));
    assert_eq!(
        parse_hex_byte("zz", "address"),
        Err("address must be a hexadecimal byte from 00 to FF".to_owned())
    );
}

#[test]
fn station_identifiers() {
    assert_eq!(parse_u32("0x123456"), Ok(0x123456));
    assert_eq!(parse_u32("1193046"), Ok(1_193_046));
    assert_eq!(parse_u32(""), Err("cannot parse integer from empty string".to_owned()));
    assert_eq!(parse_u32("0x"), Err("cannot parse integer from empty string".to_owned()));
    assert_eq!(parse_u32("12a"), Err("invalid digit found in string".to_owned()));
    assert_eq!(
        parse_u32("4294967296"),
        Err("number too large to fit in target type".to_owned())
    );
    assert_eq!(
        tune_station_request(0x0100_0000).unwrap_err(),
        "station ID must fit in 24 bits"
    );
    let request = tune_station_request(0x123456).unwrap();
    assert_eq!(request.encode(), vec![0x03, 0x56, 0x34, 0x12, 0x00]);
}

#[test]
fn request_validation() {
    assert_eq!(set_volume_request(100).unwrap().encode(), vec![0x1e, 100]);
    assert_eq!(
        set_volume_request(101).unwrap_err(),
        "volume must be between 0 and 100"
    );
    assert_eq!(preset_request(false, 3).unwrap().encode(), vec![0x0b, 3]);
    assert_eq!(preset_request(true, 0).unwrap().encode(), vec![0x0c, 0]);
    assert_eq!(
        preset_request(true, 4).unwrap_err(),
        "preset slot must be from 0 to 3"
    );
    assert_eq!(
        register_write_request("zz", "1", false).unwrap_err(),
        "register writes require --confirm"
    );
    assert_eq!(
        register_write_request("zz", "1", true).unwrap_err(),
        "expected a hexadecimal byte from 00 to FF"
    );
    assert_eq!(
        register_write_request("3d", "55", true).unwrap().encode(),
        vec![0x0e, 0x3d, 0x55]
    );
    assert_eq!(standby_request(StandbyMode::EmergencyWake).encode(), vec![0x00, 2]);
    assert_eq!(station_step_request(true, true).opcode, opcode::STATION_UP_CHANNEL_RASTER);
    assert_eq!(station_step_request(false, false).opcode, opcode::STATION_DOWN);
    assert_eq!(on_off(OnOff::On), 1);
    assert_eq!(on_off(OnOff::Off), 0);
    assert_eq!(GainMode::Fm.index(), 2);
    assert_eq!(GainMode::Am.label(), "AM");
}

#[test]
fn single_data_byte() {
    let frame = Frame {
        opcode: opcode::GET_VOLUME,
        error: 0,
        payload: vec![65, 1],
    };
    assert_eq!(one_byte(&frame), Ok(65));
    let frame = Frame {
        opcode: opcode::GET_VOLUME,
        error: 0,
        payload: vec![],
    };
    assert_eq!(one_byte(&frame), Err("device returned no data byte".to_owned()));
}
