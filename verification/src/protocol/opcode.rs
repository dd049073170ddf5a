//! Command opcodes of the DRM1000 UART protocol.

use vstd::prelude::*;

verus! {

pub const STANDBY: u8 = 0x00;
pub const STATION_UP: u8 = 0x01;
pub const STATION_DOWN: u8 = 0x02;
pub const TUNE_TO_STATION_ID: u8 = 0x03;
pub const TUNE_TO_FREQUENCY: u8 = 0x04;
pub const SET_MODE: u8 = 0x05;
pub const BAND_UP: u8 = 0x06;
pub const VOLUME_UP: u8 = 0x07;
pub const VOLUME_DOWN: u8 = 0x08;
pub const GET_SCANNED_STATIONS: u8 = 0x09;
pub const GET_STATUS: u8 = 0x0a;
pub const STATION_RECALL: u8 = 0x0b;
pub const STATION_STORE: u8 = 0x0c;
pub const CMX918_REG_READ: u8 = 0x0d;
pub const CMX918_REG_WRITE: u8 = 0x0e;
pub const STATUS_OUTPUT: u8 = 0x0f;
pub const GET_VERSION: u8 = 0x10;
pub const GET_TUNED_FREQ: u8 = 0x14;
pub const GET_DEMOD_MODE: u8 = 0x15;
pub const STATION_UP_CHANNEL_RASTER: u8 = 0x18;
pub const STATION_DOWN_CHANNEL_RASTER: u8 = 0x19;
pub const START_SCAN: u8 = 0x1a;
pub const GET_VOLUME: u8 = 0x1d;
pub const SET_VOLUME: u8 = 0x1e;
pub const STATION_GET_ID: u8 = 0x1f;
pub const TEXT_MSG_OUT: u8 = 0x20;
pub const TEXT_MSG_SERVICE: u8 = 0x21;
pub const RSSI_GET: u8 = 0x22;
pub const SET_SCREEN_STATUS: u8 = 0x25;
pub const GET_SCREEN_STATUS: u8 = 0x26;
pub const GET_SCANNER_PROGRESS: u8 = 0x27;
pub const AUDIO_TEST_TONE: u8 = 0x60;
pub const UART_INIT: u8 = 0x7f;

} // verus!
