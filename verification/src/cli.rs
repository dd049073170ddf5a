//! The command-line front end's logic: parsing numbers the way the standard
//! library does, and turning validated arguments into requests.

use vstd::prelude::*;

use crate::protocol::opcode;
use crate::protocol::{spec_le_bytes, Frame, Request};
use crate::text::{spec_decimal, spec_digit_char, spec_hex_byte, spec_trim_whitespace, trim_whitespace};

verus! {

/// Why a text is not an unsigned integer, as the standard library's
/// `ParseIntError` kinds classify it.
#[derive(Clone, Copy, Debug, PartialEq, Eq, Structural)]
pub enum IntParseFailure {
    Empty,
    InvalidDigit,
    PosOverflow,
}

/// Value of an ASCII digit in the given radix (up to 36), if the byte is one.
pub open spec fn spec_digit_value(byte: u8, radix: u32) -> Option<u32> {
    let value: int = if 48 <= byte <= 57 {
        byte - 48
    } else if 97 <= byte <= 122 {
        byte - 97 + 10
    } else if 65 <= byte <= 90 {
        byte - 65 + 10
    } else {
        36
    };
    if value < radix {
        Some(value as u32)
    } else {
        None
    }
}

/// Reads `digits` left to right onto `acc`: the first byte that is not a
/// digit fails with `InvalidDigit`, the first step that exceeds `max` fails
/// with `PosOverflow`.
pub open spec fn spec_digits_from(digits: Seq<u8>, radix: u32, max: u32, acc: nat) -> Result<
    nat,
    IntParseFailure,
>
    decreases digits.len(),
{
    if digits.len() == 0 {
        Ok(acc)
    } else {
        match spec_digit_value(digits[0], radix) {
            None => Err(IntParseFailure::InvalidDigit),
            Some(v) => if acc * radix + v > max {
                Err(IntParseFailure::PosOverflow)
            } else {
                spec_digits_from(digits.drop_first(), radix, max, (acc * radix + v) as nat)
            },
        }
    }
}

/// What `from_str_radix` of an unsigned type whose largest value is `max`
/// makes of `text`: an optional `+`, then at least one digit.
pub open spec fn spec_parse_unsigned(text: Seq<u8>, radix: u32, max: u32) -> Result<
    nat,
    IntParseFailure,
> {
    if text.len() == 0 {
        Err(IntParseFailure::Empty)
    } else if (text[0] == 43 || text[0] == 45) && text.len() == 1 {
        Err(IntParseFailure::InvalidDigit)
    } else if text[0] == 43 {
        spec_digits_from(text.drop_first(), radix, max, 0)
    } else {
        spec_digits_from(text, radix, max, 0)
    }
}

/// Parses an unsigned integer no larger than `max` from ASCII text.
pub fn parse_unsigned(text: &[u8], radix: u32, max: u32) -> (value: Result<u32, IntParseFailure>)
    requires
        2 <= radix <= 36,
    ensures
        value matches Ok(v) ==> spec_parse_unsigned(text@, radix, max) == Ok::<
            nat,
            IntParseFailure,
        >(v as nat),
        value matches Err(e) ==> spec_parse_unsigned(text@, radix, max) == Err::<
            nat,
            IntParseFailure,
        >(e),
        value matches Ok(v) ==> v <= max,
{
    if text.len() == 0 {
        return Err(IntParseFailure::Empty);
    }
    if (text[0] == 43 || text[0] == 45) && text.len() == 1 {
        return Err(IntParseFailure::InvalidDigit);
    }
    let mut i: usize = if text[0] == 43 {
        1
    } else {
        0
    };
    let ghost digits = if text[0] == 43 {
        text@.drop_first()
    } else {
        text@
    };
    assert(digits =~= text@.subrange(i as int, text@.len() as int));
    let mut acc: u32 = 0;
    while i < text.len()
        invariant
            0 <= i <= text@.len(),
            2 <= radix <= 36,
            acc <= max,
            spec_parse_unsigned(text@, radix, max) == spec_digits_from(
                text@.subrange(i as int, text@.len() as int),
                radix,
                max,
                acc as nat,
            ),
        decreases text@.len() - i,
    {
        let ghost rest = text@.subrange(i as int, text@.len() as int);
        assert(rest.drop_first() =~= text@.subrange(i + 1, text@.len() as int));
        let byte = text[i];
        let digit: u32 = if 48 <= byte && byte <= 57 {
            (byte - 48) as u32
        } else if 97 <= byte && byte <= 122 {
            (byte - 97 + 10) as u32
        } else if 65 <= byte && byte <= 90 {
            (byte - 65 + 10) as u32
        } else {
            36
        };
        if digit >= radix {
            return Err(IntParseFailure::InvalidDigit);
        }
        assert((acc as u64) * (radix as u64) <= 0xffff_ffffu64 * 36) by (nonlinear_arith)
            requires
                acc <= 0xffff_ffffu32,
                radix <= 36,
        ;
        let next: u64 = (acc as u64) * (radix as u64) + (digit as u64);
        if next > max as u64 {
            return Err(IntParseFailure::PosOverflow);
        }
        acc = next as u32;
        i = i + 1;
    }
    assert(text@.subrange(i as int, text@.len() as int) =~= Seq::<u8>::empty());
    Ok(acc)
}

/// The standard library's text for each kind of integer parse failure.
pub open spec fn spec_failure_text(failure: IntParseFailure) -> Seq<char> {
    match failure {
        IntParseFailure::Empty => "cannot parse integer from empty string"@,
        IntParseFailure::InvalidDigit => "invalid digit found in string"@,
        IntParseFailure::PosOverflow => "number too large to fit in target type"@,
    }
}

/// The text that describes an integer parse failure.
pub fn failure_text(failure: IntParseFailure) -> (text: &'static str)
    ensures
        text@ == spec_failure_text(failure),
{
    match failure {
        IntParseFailure::Empty => "cannot parse integer from empty string",
        IntParseFailure::InvalidDigit => "invalid digit found in string",
        IntParseFailure::PosOverflow => "number too large to fit in target type",
    }
}

/// `bytes` without any number of leading `0x` pairs.
pub open spec fn spec_strip_hex_prefixes(bytes: Seq<u8>) -> Seq<u8>
    decreases bytes.len(),
{
    if bytes.len() >= 2 && bytes[0] == 48 && bytes[1] == 120 {
        spec_strip_hex_prefixes(bytes.subrange(2, bytes.len() as int))
    } else {
        bytes
    }
}

/// Every leading `0x` pair is removed, and nothing else: a text that does
/// not begin with `0x` is kept whole.
pub proof fn lemma_hex_prefixes_stripped(rest: Seq<u8>)
    ensures
        spec_strip_hex_prefixes(seq![48u8, 120u8] + rest) == spec_strip_hex_prefixes(rest),
        !(rest.len() >= 2 && rest[0] == 48 && rest[1] == 120) ==> spec_strip_hex_prefixes(rest)
            == rest,
{
    let prefixed = seq![48u8, 120u8] + rest;
    assert(prefixed.subrange(2, prefixed.len() as int) =~= rest);
}

/// The byte that a text denotes in hexadecimal, after surrounding whitespace
/// and any leading `0x` pairs are removed.
pub open spec fn spec_hex_byte_text(text: Seq<char>) -> Result<nat, IntParseFailure> {
    spec_parse_unsigned(spec_strip_hex_prefixes(vstd::utf8::encode_utf8(spec_trim_whitespace(text))), 16, 255)
}

fn hex_byte_value(value: &str) -> (byte: Option<u8>)
    ensures
        byte matches Some(b) ==> spec_hex_byte_text(value@) == Ok::<nat, IntParseFailure>(
            b as nat,
        ),
        byte is None ==> spec_hex_byte_text(value@) is Err,
{
    let trimmed = trim_whitespace(value);
    let bytes = trimmed.as_bytes();
    let mut start: usize = 0;
    assert(bytes@.subrange(0, bytes@.len() as int) =~= bytes@);
    while bytes.len() - start >= 2 && bytes[start] == 48 && bytes[start + 1] == 120
        invariant
            0 <= start <= bytes@.len(),
            spec_strip_hex_prefixes(bytes@) == spec_strip_hex_prefixes(
                bytes@.subrange(start as int, bytes@.len() as int),
            ),
        decreases bytes@.len() - start,
    {
        assert(bytes@.subrange(start as int, bytes@.len() as int).subrange(2, bytes@.len() - start)
            =~= bytes@.subrange(start + 2, bytes@.len() as int));
        start = start + 2;
    }
    let rest = &bytes[start..bytes.len()];
    assert(spec_strip_hex_prefixes(rest@) == rest@);
    match parse_unsigned(rest, 16, 255) {
        Ok(v) => Some(v as u8),
        Err(_) => None,
    }
}

/// Parses a register address or value given on the command line.
pub fn parse_byte(value: &str) -> (byte: Result<u8, String>)
    ensures
        byte matches Ok(b) ==> spec_hex_byte_text(value@) == Ok::<nat, IntParseFailure>(
            b as nat,
        ),
        byte matches Err(text) ==> spec_hex_byte_text(value@) is Err && text@
            == "expected a hexadecimal byte from 00 to FF"@,
{
    match hex_byte_value(value) {
        Some(b) => Ok(b),
        None => Err("expected a hexadecimal byte from 00 to FF".to_owned()),
    }
}

/// Parses a register field typed into the interface; the error names the
/// field.
pub fn parse_hex_byte(value: &str, field: &str) -> (byte: Result<u8, String>)
    ensures
        byte matches Ok(b) ==> spec_hex_byte_text(value@) == Ok::<nat, IntParseFailure>(
            b as nat,
        ),
        byte matches Err(text) ==> spec_hex_byte_text(value@) is Err && text@ == field@
            + " must be a hexadecimal byte from 00 to FF"@,
{
    match hex_byte_value(value) {
        Some(b) => Ok(b),
        None => {
            let mut text = field.to_owned();
            text.append(" must be a hexadecimal byte from 00 to FF");
            Err(text)
        },
    }
}

/// The number that a station identifier argument denotes: hexadecimal after
/// a `0x` prefix, decimal otherwise.
pub open spec fn spec_u32_text(bytes: Seq<u8>) -> Result<nat, IntParseFailure> {
    if bytes.len() >= 2 && bytes[0] == 48 && bytes[1] == 120 {
        spec_parse_unsigned(bytes.subrange(2, bytes.len() as int), 16, u32::MAX)
    } else {
        spec_parse_unsigned(bytes, 10, u32::MAX)
    }
}

/// Parses a 32-bit number given on the command line.
pub fn parse_u32(value: &str) -> (number: Result<u32, String>)
    ensures
        number matches Ok(n) ==> spec_u32_text(vstd::utf8::encode_utf8(value@)) == Ok::<nat, IntParseFailure>(
            n as nat,
        ),
        number matches Err(text) ==> (spec_u32_text(vstd::utf8::encode_utf8(value@)) matches Err(failure)
            && text@ == spec_failure_text(failure)),
{
    let bytes = value.as_bytes();
    let parsed = if bytes.len() >= 2 && bytes[0] == 48 && bytes[1] == 120 {
        parse_unsigned(&bytes[2..bytes.len()], 16, u32::MAX)
    } else {
        parse_unsigned(bytes, 10, u32::MAX)
    };
    match parsed {
        Ok(n) => Ok(n),
        Err(failure) => Err(failure_text(failure).to_owned()),
    }
}

/// The single data byte of a reply.
pub fn one_byte(frame: &Frame) -> (byte: Result<u8, String>)
    ensures
        frame.payload@.len() > 0 ==> byte == Ok::<u8, String>(frame.payload@[0]),
        frame.payload@.len() == 0 ==> (byte matches Err(text) && text@
            == "device returned no data byte"@),
{
    if frame.payload.len() > 0 {
        Ok(frame.payload[0])
    } else {
        Err("device returned no data byte".to_owned())
    }
}

/// An on/off argument.
#[derive(Clone, Copy, Debug, PartialEq, Eq, Structural)]
pub enum OnOff {
    On,
    Off,
}

/// The parameter byte of an on/off argument.
pub fn on_off(value: OnOff) -> (byte: u8)
    ensures
        byte == (if value == OnOff::On {
            1u8
        } else {
            0u8
        }),
{
    match value {
        OnOff::On => 1,
        OnOff::Off => 0,
    }
}

/// The demodulator whose audio gain a command addresses.
#[derive(Clone, Copy, Debug, PartialEq, Eq, Structural)]
pub enum GainMode {
    Drm,
    Am,
    Fm,
}

impl GainMode {
    /// Position of the mode's gain in the table of gains.
    pub fn index(self) -> (index: usize)
        ensures
            index == (match self {
                GainMode::Drm => 0usize,
                GainMode::Am => 1usize,
                GainMode::Fm => 2usize,
            }),
    {
        match self {
            GainMode::Drm => 0,
            GainMode::Am => 1,
            GainMode::Fm => 2,
        }
    }

    /// Name of the mode.
    pub fn label(self) -> (label: &'static str)
        ensures
            label@ == (match self {
                GainMode::Drm => "DRM"@,
                GainMode::Am => "AM"@,
                GainMode::Fm => "FM"@,
            }),
    {
        match self {
            GainMode::Drm => "DRM",
            GainMode::Am => "AM",
            GainMode::Fm => "FM",
        }
    }
}

/// What a standby command asks of the module.
#[derive(Clone, Copy, Debug, PartialEq, Eq, Structural)]
pub enum StandbyMode {
    DeepSleep,
    Restart,
    EmergencyWake,
}

/// The standby request for a standby mode.
pub fn standby_request(mode: StandbyMode) -> (request: Request)
    ensures
        request.opcode == opcode::STANDBY,
        request.parameters@ == seq![
            match mode {
                StandbyMode::DeepSleep => 0u8,
                StandbyMode::Restart => 1u8,
                StandbyMode::EmergencyWake => 2u8,
            },
        ],
{
    let value: u8 = match mode {
        StandbyMode::DeepSleep => 0,
        StandbyMode::Restart => 1,
        StandbyMode::EmergencyWake => 2,
    };
    Request::byte(opcode::STANDBY, value)
}

/// The request that steps to the next or previous station, by the station
/// list or by the channel raster.
pub fn station_step_request(up: bool, raster: bool) -> (request: Request)
    ensures
        request.opcode == (if up {
            if raster {
                opcode::STATION_UP_CHANNEL_RASTER
            } else {
                opcode::STATION_UP
            }
        } else {
            if raster {
                opcode::STATION_DOWN_CHANNEL_RASTER
            } else {
                opcode::STATION_DOWN
            }
        }),
        request.parameters@ == Seq::<u8>::empty(),
{
    let op = if up {
        if raster {
            opcode::STATION_UP_CHANNEL_RASTER
        } else {
            opcode::STATION_UP
        }
    } else {
        if raster {
            opcode::STATION_DOWN_CHANNEL_RASTER
        } else {
            opcode::STATION_DOWN
        }
    };
    Request::new(op)
}

/// The request that tunes to a station identifier, which must fit in 24 bits.
pub fn tune_station_request(id: u32) -> (request: Result<Request, String>)
    ensures
        request is Ok <==> id <= 0x00ff_ffff,
        request matches Ok(r) ==> r.opcode == opcode::TUNE_TO_STATION_ID && r.parameters@
            == spec_le_bytes(id),
        request matches Err(text) ==> text@ == "station ID must fit in 24 bits"@,
{
    if id > 0x00ff_ffff {
        return Err("station ID must fit in 24 bits".to_owned());
    }
    Ok(Request::word(opcode::TUNE_TO_STATION_ID, id))
}

/// The request that sets the volume, which must be at most 100.
pub fn set_volume_request(value: u8) -> (request: Result<Request, String>)
    ensures
        request is Ok <==> value <= 100,
        request matches Ok(r) ==> r.opcode == opcode::SET_VOLUME && r.parameters@ == seq![value],
        request matches Err(text) ==> text@ == "volume must be between 0 and 100"@,
{
    if value > 100 {
        return Err("volume must be between 0 and 100".to_owned());
    }
    Ok(Request::byte(opcode::SET_VOLUME, value))
}

/// The request that recalls or stores a preset; the slot must be from 0 to 3.
pub fn preset_request(store: bool, slot: u8) -> (request: Result<Request, String>)
    ensures
        request is Ok <==> slot <= 3,
        request matches Ok(r) ==> r.opcode == (if store {
            opcode::STATION_STORE
        } else {
            opcode::STATION_RECALL
        }) && r.parameters@ == seq![slot],
        request matches Err(text) ==> text@ == "preset slot must be from 0 to 3"@,
{
    if slot > 3 {
        return Err("preset slot must be from 0 to 3".to_owned());
    }
    let op = if store {
        opcode::STATION_STORE
    } else {
        opcode::STATION_RECALL
    };
    Ok(Request::byte(op, slot))
}

/// The request that writes a CMX918 register. Without confirmation nothing
/// is parsed and the write is refused; otherwise address and value must both
/// be hexadecimal bytes.
pub fn register_write_request(address: &str, value: &str, confirm: bool) -> (request: Result<
    Request,
    String,
>)
    ensures
        request is Ok <==> confirm && spec_hex_byte_text(address@) is Ok && spec_hex_byte_text(
            value@,
        ) is Ok,
        request matches Ok(r) ==> r.opcode == opcode::CMX918_REG_WRITE && r.parameters@ == seq![
            spec_hex_byte_text(address@)->Ok_0 as u8,
            spec_hex_byte_text(value@)->Ok_0 as u8,
        ],
        request matches Err(text) ==> if !confirm {
            text@ == "register writes require --confirm"@
        } else {
            text@ == "expected a hexadecimal byte from 00 to FF"@
        },
{
    if !confirm {
        return Err("register writes require --confirm".to_owned());
    }
    let address = parse_byte(address)?;
    let value = parse_byte(value)?;
    let mut parameters: Vec<u8> = Vec::new();
    parameters.push(address);
    parameters.push(value);
    Ok(Request::bytes(opcode::CMX918_REG_WRITE, parameters.as_slice()))
}


/// The ASCII bytes of a text made of ASCII characters.
pub open spec fn spec_ascii_bytes(text: Seq<char>) -> Seq<u8> {
    text.map_values(|c: char| c as u8)
}

/// Digits are the ASCII characters `0`..`9`, `a`..`z` and `A`..`Z`, worth 0
/// to 9, 10 to 35 and 10 to 35, and only those below the radix count; no
/// other byte is a digit.
pub proof fn lemma_digit_values(byte: u8, radix: u32)
    requires
        2 <= radix <= 36,
    ensures
        48 <= byte <= 57 && byte - 48 < radix ==> spec_digit_value(byte, radix) == Some(
            (byte - 48) as u32,
        ),
        97 <= byte <= 122 && byte - 87 < radix ==> spec_digit_value(byte, radix) == Some(
            (byte - 87) as u32,
        ),
        65 <= byte <= 90 && byte - 55 < radix ==> spec_digit_value(byte, radix) == Some(
            (byte - 55) as u32,
        ),
        spec_digit_value(byte, radix) matches Some(v) ==> v < radix && ((48 <= byte <= 57
            && v == byte - 48) || (97 <= byte <= 122 && v == byte - 87) || (65 <= byte <= 90 && v
            == byte - 55)),
{
}

proof fn lemma_digit_char_byte(digit: nat)
    requires
        digit < 16,
    ensures
        (spec_digit_char(digit) as u8) == (if digit < 10 {
            48 + digit
        } else {
            55 + digit
        }),
{
    let table = seq![
        '0', '1', '2', '3', '4', '5', '6', '7', '8', '9', 'A', 'B', 'C', 'D', 'E', 'F',
    ];
    assert(spec_digit_char(digit) == table[digit as int]);
    if digit == 0 {
    } else if digit == 1 {
    } else if digit == 2 {
    } else if digit == 3 {
    } else if digit == 4 {
    } else if digit == 5 {
    } else if digit == 6 {
    } else if digit == 7 {
    } else if digit == 8 {
    } else if digit == 9 {
    } else if digit == 10 {
    } else if digit == 11 {
    } else if digit == 12 {
    } else if digit == 13 {
    } else if digit == 14 {
    } else {
        assert(digit == 15);
    }
}

proof fn lemma_digits_from_push(
    digits: Seq<u8>,
    last: u8,
    radix: u32,
    max: u32,
    acc: nat,
    value: nat,
    last_value: u32,
)
    requires
        spec_digits_from(digits, radix, max, acc) == Ok::<nat, IntParseFailure>(value),
        spec_digit_value(last, radix) == Some(last_value),
        value * radix + last_value <= max,
    ensures
        spec_digits_from(digits.push(last), radix, max, acc) == Ok::<nat, IntParseFailure>(
            (value * radix + last_value) as nat,
        ),
    decreases digits.len(),
{
    reveal_with_fuel(spec_digits_from, 2);
    if digits.len() == 0 {
        assert(digits.push(last).drop_first() =~= Seq::<u8>::empty());
        assert(value == acc);
    } else {
        let first_value = spec_digit_value(digits[0], radix).unwrap();
        let next = (acc * radix + first_value) as nat;
        assert(digits.push(last)[0] == digits[0]);
        assert(digits.push(last).drop_first() =~= digits.drop_first().push(last));
        lemma_digits_from_push(digits.drop_first(), last, radix, max, next, value, last_value);
    }
}

proof fn lemma_decimal_is_digits(n: nat)
    ensures
        spec_ascii_bytes(spec_decimal(n)).len() >= 1,
        forall|i: int|
            0 <= i < spec_ascii_bytes(spec_decimal(n)).len() ==> 48 <= #[trigger] spec_ascii_bytes(
                spec_decimal(n),
            )[i] <= 57,
    decreases n,
{
    if n < 10 {
        lemma_digit_char_byte(n);
    } else {
        lemma_decimal_is_digits(n / 10);
        lemma_digit_char_byte(n % 10);
        let head = spec_ascii_bytes(spec_decimal(n / 10));
        assert(spec_ascii_bytes(spec_decimal(n)) =~= head.push((48 + n % 10) as u8));
    }
}

proof fn lemma_digits_with_non_digit(digits: Seq<u8>, radix: u32, max: u32, acc: nat, i: int)
    requires
        0 <= i < digits.len(),
        spec_digit_value(digits[i], radix) is None,
    ensures
        spec_digits_from(digits, radix, max, acc) is Err,
    decreases digits.len(),
{
    if i > 0 {
        if let Some(v) = spec_digit_value(digits[0], radix) {
            if acc * radix + v <= max {
                assert(digits.drop_first()[i - 1] == digits[i]);
                lemma_digits_with_non_digit(
                    digits.drop_first(),
                    radix,
                    max,
                    (acc * radix + v) as nat,
                    i - 1,
                );
            }
        }
    }
}

/// A text is refused when any of its bytes, other than a single leading
/// `+`, is not a digit of the radix, and when it is empty or only a sign.
pub proof fn lemma_non_digits_are_refused(text: Seq<u8>, radix: u32, max: u32, i: int)
    requires
        0 <= i < text.len(),
        spec_digit_value(text[i], radix) is None,
        !(i == 0 && text[0] == 43 && text.len() > 1),
    ensures
        spec_parse_unsigned(text, radix, max) is Err,
        spec_parse_unsigned(Seq::empty(), radix, max) == Err::<nat, IntParseFailure>(
            IntParseFailure::Empty,
        ),
        spec_parse_unsigned(seq![43u8], radix, max) is Err,
        spec_parse_unsigned(seq![45u8], radix, max) is Err,
{
    if text.len() == 1 && (text[0] == 43 || text[0] == 45) {
    } else if text[0] == 43 {
        assert(text.drop_first()[i - 1] == text[i]);
        lemma_digits_with_non_digit(text.drop_first(), radix, max, 0, i - 1);
    } else {
        lemma_digits_with_non_digit(text, radix, max, 0, i);
    }
}

/// Reading back a number written in decimal gives the number: what `{}`
/// writes for a value no larger than `max` parses as that value.
pub proof fn lemma_decimal_reads_back(n: nat, max: u32)
    requires
        n <= max,
    ensures
        spec_parse_unsigned(spec_ascii_bytes(spec_decimal(n)), 10, max) == Ok::<
            nat,
            IntParseFailure,
        >(n),
    decreases n,
{
    reveal_with_fuel(spec_digits_from, 2);
    lemma_decimal_is_digits(n);
    let text = spec_ascii_bytes(spec_decimal(n));
    assert(48 <= text[0] <= 57);
    if n < 10 {
        lemma_digit_char_byte(n);
        assert(text =~= seq![(48 + n) as u8]);
        lemma_digit_values(text[0], 10);
        assert(text.drop_first() =~= Seq::<u8>::empty());
    } else {
        let head = spec_ascii_bytes(spec_decimal(n / 10));
        lemma_decimal_is_digits(n / 10);
        lemma_decimal_reads_back(n / 10, max);
        assert(48 <= head[0] <= 57);
        lemma_digit_char_byte(n % 10);
        let last = (48 + n % 10) as u8;
        assert(text =~= head.push(last));
        lemma_digit_values(last, 10);
        assert((n / 10) * 10 + n % 10 == n) by (nonlinear_arith);
        lemma_digits_from_push(head, last, 10, max, 0, n / 10, (n % 10) as u32);
        assert(text[0] == head[0]);
    }
}

/// Reading back a byte written as two upper-case hexadecimal digits gives
/// the byte.
pub proof fn lemma_hex_byte_reads_back(value: u8)
    ensures
        spec_parse_unsigned(spec_ascii_bytes(spec_hex_byte(value)), 16, 255) == Ok::<
            nat,
            IntParseFailure,
        >(value as nat),
{
    reveal_with_fuel(spec_digits_from, 3);
    let high = (value / 16) as nat;
    let low = (value % 16) as nat;
    lemma_digit_char_byte(high);
    lemma_digit_char_byte(low);
    let text = spec_ascii_bytes(spec_hex_byte(value));
    let hb = text[0];
    let lb = text[1];
    lemma_digit_values(hb, 16);
    lemma_digit_values(lb, 16);
    assert(spec_digit_value(hb, 16) == Some(high as u32));
    assert(spec_digit_value(lb, 16) == Some(low as u32));
    assert(text.drop_first() =~= seq![lb]);
    assert(seq![lb].drop_first() =~= Seq::<u8>::empty());
    assert(high * 16 + low == value as nat) by (nonlinear_arith)
        requires
            high == value / 16,
            low == value % 16,
    ;
}

} // verus!
