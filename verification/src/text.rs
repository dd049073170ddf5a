//! Text that the library derives from bytes and numbers: UTF-8 decoding,
//! trimming of NUL padding, and the fixed message formats.

use vstd::prelude::*;

verus! {

/// What `String::from_utf8_lossy` makes of these bytes: valid UTF-8 decoded,
/// each invalid sequence replaced by U+FFFD.
pub uninterp spec fn spec_utf8_lossy(bytes: Seq<u8>) -> Seq<char>;

/// Decodes bytes as UTF-8, replacing invalid sequences.
///
/// Calls `String::from_utf8_lossy`. Its result is given the name
/// `spec_utf8_lossy`: the same bytes always decode to the same text.
#[verifier::external_body]
pub(crate) fn utf8_lossy(bytes: &[u8]) -> (text: String)
    ensures
        text@ == spec_utf8_lossy(bytes@),
{
    String::from_utf8_lossy(bytes).into_owned()
}

/// `text` without the NUL characters at its end.
pub open spec fn spec_trim_end_nul(text: Seq<char>) -> Seq<char>
    decreases text.len(),
{
    if text.len() > 0 && text.last() == '\0' {
        spec_trim_end_nul(text.drop_last())
    } else {
        text
    }
}

/// `text` without the NUL characters at its start.
pub open spec fn spec_trim_start_nul(text: Seq<char>) -> Seq<char>
    decreases text.len(),
{
    if text.len() > 0 && text[0] == '\0' {
        spec_trim_start_nul(text.drop_first())
    } else {
        text
    }
}

/// Removes trailing NUL characters.
///
/// Calls `str::trim_end_matches` with the pattern `'\0'`, which removes every
/// NUL character at the end of the text and nothing else.
#[verifier::external_body]
pub(crate) fn trim_end_nul<'a>(text: &'a str) -> (trimmed: &'a str)
    ensures
        trimmed@ == spec_trim_end_nul(text@),
{
    text.trim_end_matches('\0')
}

/// Removes leading and trailing NUL characters.
///
/// Calls `str::trim_matches` with the pattern `'\0'`, which removes every NUL
/// character at either end of the text and nothing else.
#[verifier::external_body]
pub(crate) fn trim_nul<'a>(text: &'a str) -> (trimmed: &'a str)
    ensures
        trimmed@ == spec_trim_start_nul(spec_trim_end_nul(text@)),
{
    text.trim_matches('\0')
}

/// The character of a digit in base 16, upper case.
pub open spec fn spec_digit_char(digit: nat) -> char {
    seq!['0', '1', '2', '3', '4', '5', '6', '7', '8', '9', 'A', 'B', 'C', 'D', 'E', 'F'][digit as int]
}

/// Decimal notation of `n`, as `{}` formats an unsigned integer.
pub open spec fn spec_decimal(n: nat) -> Seq<char>
    decreases n,
{
    if n < 10 {
        seq![spec_digit_char(n)]
    } else {
        spec_decimal(n / 10) + seq![spec_digit_char(n % 10)]
    }
}

/// Two upper-case hexadecimal digits of a byte, as `{:02X}` formats it.
pub open spec fn spec_hex_byte(value: u8) -> Seq<char> {
    seq![spec_digit_char((value / 16) as nat), spec_digit_char((value % 16) as nat)]
}

/// Formats the error for a status payload of the wrong size.
///
/// Calls `format!` with `{}` for the length.
#[verifier::external_body]
pub(crate) fn status_length_message(length: usize) -> (text: String)
    ensures
        text@ == "status payload is "@ + spec_decimal(length as nat) + " bytes, expected 409"@,
{
    format!("status payload is {} bytes, expected 409", length)
}

/// Formats the error for an unknown mode byte.
///
/// Calls `format!` with `{}` for the byte.
#[verifier::external_body]
pub(crate) fn unknown_mode_message(value: u8) -> (text: String)
    ensures
        text@ == "unknown mode "@ + spec_decimal(value as nat),
{
    format!("unknown mode {}", value)
}

/// Formats the log line for a received frame.
///
/// Calls `format!` with `{:02X}` for the opcode and `{}` for the length.
#[verifier::external_body]
pub(crate) fn received_log_line(opcode: u8, length: usize) -> (text: String)
    ensures
        text@ == "< opcode 0x"@ + spec_hex_byte(opcode) + ", "@ + spec_decimal(length as nat)
            + " data bytes"@,
{
    format!("< opcode 0x{:02X}, {} data bytes", opcode, length)
}

/// Formats the log line for a sent request.
///
/// Calls `format!` with `{:02X}` for the opcode.
#[verifier::external_body]
pub(crate) fn sent_log_line(opcode: u8) -> (text: String)
    ensures
        text@ == "> opcode 0x"@ + spec_hex_byte(opcode),
{
    format!("> opcode 0x{:02X}", opcode)
}

/// Formats a module error code with its description.
///
/// Calls `format!` with `{:02X}` for the code and `{}` for the description.
#[verifier::external_body]
pub(crate) fn module_error_message(code: u8, description: &str) -> (text: String)
    ensures
        text@ == "0x"@ + spec_hex_byte(code) + ": "@ + description@,
{
    format!("0x{:02X}: {}", code, description)
}

/// Formats the log line for an established connection.
///
/// Calls `format!` with `{}` for the port name and the baud rate.
#[verifier::external_body]
pub(crate) fn connected_log_line(port: &str, baud_rate: u32) -> (text: String)
    ensures
        text@ == "connected to "@ + port@ + " at "@ + spec_decimal(baud_rate as nat) + " baud"@,
{
    format!("connected to {} at {} baud", port, baud_rate)
}


/// Four upper-case hexadecimal digits of a 16-bit value, as `{:04X}` formats it.
pub open spec fn spec_hex_u16(value: u16) -> Seq<char> {
    seq![
        spec_digit_char((value / 4096) as nat),
        spec_digit_char(((value / 256) % 16) as nat),
        spec_digit_char(((value / 16) % 16) as nat),
        spec_digit_char((value % 16) as nat),
    ]
}

/// Formats the description of a USB serial adapter.
///
/// Calls `format!` with `{}` for the product and `{:04X}` for the vendor and
/// product identifiers.
#[verifier::external_body]
pub(crate) fn usb_port_text(product: &str, vid: u16, pid: u16) -> (text: String)
    ensures
        text@ == product@ + " "@ + spec_hex_u16(vid) + ":"@ + spec_hex_u16(pid),
{
    format!("{} {:04X}:{:04X}", product, vid, pid)
}

/// A character with ASCII upper-case letters mapped to lower case.
pub open spec fn spec_ascii_lower(c: char) -> char {
    if 'A' <= c && c <= 'Z' {
        ((c as u32) + 32) as char
    } else {
        c
    }
}

/// Maps ASCII upper-case letters to lower case.
///
/// Calls `str::to_ascii_lowercase`, which maps `A`..`Z` to `a`..`z` and
/// leaves every other character as it is.
#[verifier::external_body]
pub(crate) fn ascii_lowercase(text: &str) -> (lower: String)
    ensures
        lower@ == text@.map_values(|c: char| spec_ascii_lower(c)),
{
    text.to_ascii_lowercase()
}

/// Whether `pattern` occurs in `text`.
pub open spec fn spec_contains(text: Seq<char>, pattern: Seq<char>) -> bool {
    exists|start: int|
        0 <= start && start + pattern.len() <= text.len() && #[trigger] text.subrange(
            start,
            start + pattern.len(),
        ) == pattern
}

/// Whether `pattern` occurs in `text`.
///
/// Calls `str::contains` with a string pattern, which is true exactly when
/// the pattern occurs as a contiguous part of the text.
#[verifier::external_body]
pub(crate) fn contains(text: &str, pattern: &str) -> (found: bool)
    ensures
        found == spec_contains(text@, pattern@),
{
    text.contains(pattern)
}


/// Whether a character has the Unicode `White_Space` property, as
/// `char::is_whitespace` decides.
pub open spec fn spec_is_whitespace(c: char) -> bool {
    ||| '\t' <= c && c <= '\r'
    ||| c == ' '
    ||| c == '\u{85}'
    ||| c == '\u{a0}'
    ||| c == '\u{1680}'
    ||| '\u{2000}' <= c && c <= '\u{200a}'
    ||| c == '\u{2028}'
    ||| c == '\u{2029}'
    ||| c == '\u{202f}'
    ||| c == '\u{205f}'
    ||| c == '\u{3000}'
}

/// `text` without whitespace at its end.
pub open spec fn spec_trim_end_whitespace(text: Seq<char>) -> Seq<char>
    decreases text.len(),
{
    if text.len() > 0 && spec_is_whitespace(text.last()) {
        spec_trim_end_whitespace(text.drop_last())
    } else {
        text
    }
}

/// `text` without whitespace at its start or end.
pub open spec fn spec_trim_whitespace(text: Seq<char>) -> Seq<char>
    decreases text.len(),
{
    if text.len() > 0 && spec_is_whitespace(text[0]) {
        spec_trim_whitespace(text.drop_first())
    } else {
        spec_trim_end_whitespace(text)
    }
}

/// Removes leading and trailing whitespace.
///
/// Calls `str::trim`, which removes the characters with the Unicode
/// `White_Space` property at both ends and nothing else.
#[verifier::external_body]
pub(crate) fn trim_whitespace<'a>(text: &'a str) -> (trimmed: &'a str)
    ensures
        trimmed@ == spec_trim_whitespace(text@),
{
    text.trim()
}


/// Upper-case hexadecimal notation of `n` without leading zeros.
pub open spec fn spec_hex(n: nat) -> Seq<char>
    decreases n,
{
    if n < 16 {
        seq![spec_digit_char(n)]
    } else {
        spec_hex(n / 16) + seq![spec_digit_char(n % 16)]
    }
}

/// Upper-case hexadecimal notation of `n`, padded with zeros to at least
/// `width` digits, as `{:0width$X}` formats it.
pub open spec fn spec_hex_padded(n: nat, width: nat) -> Seq<char> {
    let digits = spec_hex(n);
    if digits.len() < width {
        Seq::new((width - digits.len()) as nat, |i: int| '0') + digits
    } else {
        digits
    }
}

/// Formats the title of a service that has no label.
///
/// Calls `format!` with `{:06X}` for the identifier.
#[verifier::external_body]
pub(crate) fn service_id_title(id: u32) -> (text: String)
    ensures
        text@ == "Service "@ + spec_hex_padded(id as nat, 6),
{
    format!("Service {:06X}", id)
}


/// Decimal notation of `n`, padded with zeros to at least `width` digits, as
/// `{:0width$}` formats an unsigned integer.
pub open spec fn spec_decimal_padded(n: nat, width: nat) -> Seq<char> {
    let digits = spec_decimal(n);
    if digits.len() < width {
        Seq::new((width - digits.len()) as nat, |i: int| '0') + digits
    } else {
        digits
    }
}

/// Formats a frequency given in whole megahertz and millionths of them.
///
/// Calls `format!` with `{}` for the whole part and `{:06}` for the fraction.
#[verifier::external_body]
pub(crate) fn megahertz_text(whole: u32, fraction: u32) -> (text: String)
    ensures
        text@ == spec_decimal(whole as nat) + "."@ + spec_decimal_padded(fraction as nat, 6)
            + " MHz"@,
{
    format!("{}.{:06} MHz", whole, fraction)
}

/// Formats a frequency given in whole kilohertz and thousandths of them.
///
/// Calls `format!` with `{}` for the whole part and `{:03}` for the fraction.
#[verifier::external_body]
pub(crate) fn kilohertz_text(whole: u32, fraction: u32) -> (text: String)
    ensures
        text@ == spec_decimal(whole as nat) + "."@ + spec_decimal_padded(fraction as nat, 3)
            + " kHz"@,
{
    format!("{}.{:03} kHz", whole, fraction)
}

/// Formats a frequency in hertz.
///
/// Calls `format!` with `{}` for the frequency.
#[verifier::external_body]
pub(crate) fn hertz_text(hz: u32) -> (text: String)
    ensures
        text@ == spec_decimal(hz as nat) + " Hz"@,
{
    format!("{} Hz", hz)
}

} // verus!
