//! What is written to the terminal: the status of a device in its own rows,
//! the announcement of a find, and the screen that is cleared for both.
//!
//! The texts are built here; the caller prints them. Each device writes to
//! rows of its own, which it reaches by moving the cursor, so that the
//! devices do not write over one another.

use separator::Separatable;
use vstd::prelude::*;
use vstd::string::*;

use crate::ascii::{ascii_text, CH_0, CH_COMMA};
use crate::checksum::checksum_text;
use crate::decimal::{decimal_digits, push_decimal};
use crate::hexcode::{hex_encode, hex_encoded};
use crate::hit::Hit;
use crate::record::checksummed_address;
use crate::session::{reserved_rows, Status, RESERVED_ROWS_PER_DEVICE, ROWS_PER_DEVICE};

verus! {

/// The three decimal digits of a number below a thousand.
pub open spec fn three_digits(n: nat) -> Seq<u8> {
    seq![(CH_0 + n / 100) as u8, (CH_0 + (n / 10) % 10) as u8, (CH_0 + n % 10) as u8]
}

/// The decimal digits of `n` in groups of three, counted from the right,
/// with commas between the groups.
pub open spec fn grouped_digits(n: nat) -> Seq<u8>
    decreases n,
{
    if n < 1000 {
        decimal_digits(n)
    } else {
        grouped_digits(n / 1000) + seq![CH_COMMA] + three_digits(n % 1000)
    }
}

/// A number of hundredths, written with two digits after the point.
pub open spec fn fixed_two(hundredths: nat) -> Seq<char> {
    ascii_text(decimal_digits(hundredths / 100)) + seq!['.'] + ascii_text(
        seq![(CH_0 + (hundredths / 10) % 10) as u8, (CH_0 + hundredths % 10) as u8],
    )
}

/// `n` divided by `unit` and rounded to the nearest whole, halves upwards.
pub open spec fn rounded(n: nat, unit: nat) -> nat {
    if 2 * (n % unit) >= unit {
        n / unit + 1
    } else {
        n / unit
    }
}

/// The four bytes of `x`, most significant first.
pub open spec fn be_bytes_32(x: u32) -> Seq<u8> {
    seq![
        ((x >> 24) & 0xff) as u8,
        ((x >> 16) & 0xff) as u8,
        ((x >> 8) & 0xff) as u8,
        (x & 0xff) as u8,
    ]
}

/// What moves the cursor to the first column of a row.
pub open spec fn cursor_to(row: nat) -> Seq<char> {
    "\x1b["@ + ascii_text(decimal_digits(row)) + ";1H"@
}

/// What moves the cursor to a row and clears it.
pub open spec fn fresh_row(row: nat) -> Seq<char> {
    cursor_to(row) + "\x1b[K"@
}

/// A rule of `width` dashes.
pub open spec fn rule(width: nat) -> Seq<char> {
    Seq::new(width, |i: int| '-')
}

/// The first row of the rows of a device.
pub open spec fn band_of(device_id: u32) -> nat {
    (device_id * ROWS_PER_DEVICE + 1) as nat
}

/// The first row of a status: the device, the time it has run, and the size of a dispatch.
pub open spec fn runtime_row(status: Status) -> Seq<char> {
    fresh_row(band_of(status.device_id)) + "--- P"@ + ascii_text(
        decimal_digits(status.platform_id as nat),
    ) + "-D"@ + ascii_text(decimal_digits(status.device_id as nat)) + " --- Runtime: "@
        + fixed_two(rounded(status.elapsed_ms as nat, 10)) + "s --- Work size: "@ + ascii_text(
        grouped_digits(status.work_size as nat),
    ) + " ---"@
}

/// The second row of a status: millions of salts in a second, and all salts tried.
pub open spec fn rate_row(status: Status) -> Seq<char> {
    fresh_row(band_of(status.device_id) + 1) + "Hash rate: "@ + fixed_two(
        rounded(status.hashes_per_second as nat, 10000),
    ) + " MH/s --- Total hashes: "@ + ascii_text(grouped_digits(status.total_hashes as nat))
}

/// The third row of a status: the nonce of the dispatch, and the best score.
pub open spec fn search_row(status: Status) -> Seq<char> {
    fresh_row(band_of(status.device_id) + 2) + "Search space: 0x"@ + ascii_text(
        hex_encoded(be_bytes_32(status.nonce)),
    ) + "xxxxxxxx --- Best score: "@ + ascii_text(decimal_digits(status.best as nat)) + " 1s"@
}

/// The fourth row of a status: a rule.
pub open spec fn rule_row(status: Status) -> Seq<char> {
    fresh_row(band_of(status.device_id) + 3) + rule(status.rule_width as nat)
}

/// The status of a device: its four rows, after which the cursor is left
/// below the rows of all devices.
pub open spec fn status_chars(status: Status) -> Seq<char> {
    runtime_row(status) + rate_row(status) + search_row(status) + rule_row(status) + cursor_to(
        status.park_row as nat,
    )
}

/// What clears the screen and leaves the cursor at its top.
pub open spec fn cleared_screen() -> Seq<char> {
    "\x1b[2J"@ + "\x1b[1;1H"@
}

/// `n` line feeds.
pub open spec fn line_feeds(n: nat) -> Seq<char> {
    Seq::new(n, |i: int| '\n')
}

/// The cleared screen with the rows that are set aside for so many devices.
pub open spec fn reserved_screen(total_devices: u32) -> Seq<char> {
    cleared_screen() + line_feeds((RESERVED_ROWS_PER_DEVICE * total_devices) as nat)
}

/// `Separatable::separated_string` of the `separator` crate, for a `u64`:
/// the decimal digits with a comma before each group of three, counted from
/// the right.
#[verifier::external_body]
pub(crate) fn separated(n: u64) -> (text: String)
    ensures
        text@ == ascii_text(grouped_digits(n as nat)),
{
    n.separated_string()
}

/// Appends a number of hundredths with two digits after the point.
pub fn push_fixed_two(text: &mut String, hundredths: u64)
    ensures
        final(text)@ == old(text)@ + fixed_two(hundredths as nat),
{
    push_decimal(text, hundredths / 100);
    text.push('.');
    let tens: u8 = CH_0 + ((hundredths / 10) % 10) as u8;
    let ones: u8 = CH_0 + (hundredths % 10) as u8;
    text.push(tens as char);
    text.push(ones as char);
    assert(final(text)@ =~= old(text)@ + fixed_two(hundredths as nat));
}

/// Divides by a unit and rounds to the nearest whole, halves upwards.
pub fn round_to(n: u64, unit: u64) -> (whole: u64)
    requires
        unit > 0,
    ensures
        whole == rounded(n as nat, unit as nat),
{
    let whole: u64 = n / unit;
    let rest: u64 = n % unit;
    if rest >= unit - rest {
        assert(unit >= 2);
        assert(whole <= n / 2) by (nonlinear_arith)
            requires
                whole == n / unit,
                unit >= 2,
        ;
        whole + 1
    } else {
        whole
    }
}

/// Appends what moves the cursor to the first column of a row.
pub fn push_cursor_to(text: &mut String, row: u64)
    ensures
        final(text)@ == old(text)@ + cursor_to(row as nat),
{
    text.append("\x1b[");
    push_decimal(text, row);
    text.append(";1H");
    assert(final(text)@ =~= old(text)@ + cursor_to(row as nat));
}

/// Appends what moves the cursor to a row and clears it.
pub fn push_fresh_row(text: &mut String, row: u64)
    ensures
        final(text)@ == old(text)@ + fresh_row(row as nat),
{
    push_cursor_to(text, row);
    text.append("\x1b[K");
    assert(final(text)@ =~= old(text)@ + fresh_row(row as nat));
}

/// The text that shows the status of a device.
pub fn status_text(status: &Status) -> (text: String)
    ensures
        text@ == status_chars(*status),
{
    let band: u64 = (status.device_id as u64) * ROWS_PER_DEVICE + 1;
    let mut text = String::new();

    push_fresh_row(&mut text, band);
    text.append("--- P");
    push_decimal(&mut text, status.platform_id as u64);
    text.append("-D");
    push_decimal(&mut text, status.device_id as u64);
    text.append(" --- Runtime: ");
    push_fixed_two(&mut text, round_to(status.elapsed_ms, 10));
    text.append("s --- Work size: ");
    let work_size = separated(status.work_size as u64);
    text.append(work_size.as_str());
    text.append(" ---");
    assert(text@ =~= runtime_row(*status));

    let ghost first = text@;
    push_fresh_row(&mut text, band + 1);
    text.append("Hash rate: ");
    push_fixed_two(&mut text, round_to(status.hashes_per_second, 10000));
    text.append(" MH/s --- Total hashes: ");
    let total = separated(status.total_hashes);
    text.append(total.as_str());
    assert(text@ =~= first + rate_row(*status));

    let ghost second = text@;
    push_fresh_row(&mut text, band + 2);
    text.append("Search space: 0x");
    let nonce_bytes: [u8; 4] = [
        ((status.nonce >> 24) & 0xff) as u8,
        ((status.nonce >> 16) & 0xff) as u8,
        ((status.nonce >> 8) & 0xff) as u8,
        (status.nonce & 0xff) as u8,
    ];
    assert(nonce_bytes@ =~= be_bytes_32(status.nonce));
    let nonce_hex = hex_encode(nonce_bytes.as_slice());
    text.append(nonce_hex.as_str());
    text.append("xxxxxxxx --- Best score: ");
    push_decimal(&mut text, status.best as u64);
    text.append(" 1s");
    assert(text@ =~= second + search_row(*status));

    let ghost third = text@;
    push_fresh_row(&mut text, band + 3);
    let ghost before_rule = text@;
    let mut i: u16 = 0;
    while i < status.rule_width
        invariant
            i <= status.rule_width,
            text@ == before_rule + rule(i as nat),
        decreases status.rule_width - i,
    {
        text.push('-');
        i += 1;
        assert(text@ =~= before_rule + rule(i as nat));
    }
    assert(text@ =~= third + rule_row(*status));

    push_cursor_to(&mut text, status.park_row);
    assert(text@ =~= status_chars(*status));
    text
}

/// The text that clears the screen and sets rows aside for so many devices.
pub fn reserved_screen_text(total_devices: u32) -> (text: String)
    ensures
        text@ == reserved_screen(total_devices),
{
    let mut text = String::new();
    text.append("\x1b[2J");
    text.append("\x1b[1;1H");
    let rows: u64 = reserved_rows(total_devices);
    let ghost cleared = text@;
    let mut i: u64 = 0;
    while i < rows
        invariant
            i <= rows,
            text@ == cleared + line_feeds(i as nat),
        decreases rows - i,
    {
        text.push('\n');
        i += 1;
        assert(text@ =~= cleared + line_feeds(i as nat));
    }
    assert(text@ =~= reserved_screen(total_devices));
    text
}

/// The announcement of a find, the checksummed text of whose address is
/// given: on a cleared screen, who found it, its score and runs, the address,
/// the time the session has run, the salt, and the checksummed address.
pub open spec fn announcement_with(checksummed: Seq<char>, hit: Hit, elapsed_ms: u64) -> Seq<char> {
    cleared_screen() + "============================================================\n"@
        + "                      SOLUTION FOUND!\n"@
        + "============================================================\n\n"@
        + "FOUND BY: Platform "@ + ascii_text(decimal_digits(hit.platform_id as nat))
        + " Device "@ + ascii_text(decimal_digits(hit.device_id as nat)) + "\nSCORE: "@
        + ascii_text(decimal_digits(hit.score as nat)) + " total 1s ("@ + ascii_text(
        decimal_digits(hit.leading_ones as nat),
    ) + " leading + "@ + ascii_text(decimal_digits(hit.trailing_ones as nat))
        + " trailing)\nADDRESS: 0x"@ + ascii_text(hex_encoded(hit.address@)) + "\nTIME: "@
        + fixed_two(rounded(elapsed_ms as nat, 10)) + " seconds\nSALT: 0x"@ + ascii_text(
        hex_encoded(hit.salt@),
    ) + "\nVERIFIED ADDRESS: "@ + checksummed + "\n\n"@
}

/// The announcement of a find.
pub open spec fn announcement_chars(hit: Hit, elapsed_ms: u64) -> Seq<char> {
    announcement_with(ascii_text(checksum_text(hex_encoded(hit.address@))), hit, elapsed_ms)
}

/// The text that announces a find, the checksummed text of whose address is given.
pub fn announcement_text_with(checksummed: &str, hit: &Hit, elapsed_ms: u64) -> (text: String)
    ensures
        text@ == announcement_with(checksummed@, *hit, elapsed_ms),
{
    let mut text = String::new();
    text.append("\x1b[2J");
    text.append("\x1b[1;1H");
    assert(text@ =~= cleared_screen());
    text.append("============================================================\n");
    text.append("                      SOLUTION FOUND!\n");
    text.append("============================================================\n\n");
    text.append("FOUND BY: Platform ");
    push_decimal(&mut text, hit.platform_id as u64);
    text.append(" Device ");
    push_decimal(&mut text, hit.device_id as u64);
    text.append("\nSCORE: ");
    push_decimal(&mut text, hit.score as u64);
    text.append(" total 1s (");
    push_decimal(&mut text, hit.leading_ones as u64);
    text.append(" leading + ");
    push_decimal(&mut text, hit.trailing_ones as u64);
    text.append(" trailing)\nADDRESS: 0x");
    let address_hex = hex_encode(hit.address.as_slice());
    text.append(address_hex.as_str());
    text.append("\nTIME: ");
    push_fixed_two(&mut text, round_to(elapsed_ms, 10));
    text.append(" seconds\nSALT: 0x");
    let salt_hex = hex_encode(hit.salt.as_slice());
    text.append(salt_hex.as_str());
    text.append("\nVERIFIED ADDRESS: ");
    text.append(checksummed);
    text.append("\n\n");
    assert(text@ =~= announcement_with(checksummed@, *hit, elapsed_ms));
    text
}

/// The text that announces a find.
pub fn announcement_text(hit: &Hit, elapsed_ms: u64) -> (text: String)
    ensures
        text@ == announcement_chars(*hit, elapsed_ms),
{
    let checksummed = checksummed_address(&hit.address);
    announcement_text_with(checksummed.as_str(), hit, elapsed_ms)
}

} // verus!
