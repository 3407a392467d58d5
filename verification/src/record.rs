//! The lines of the result sink: the header, the line that records a find,
//! and the laws that tie what is written to what is read back.

use vstd::prelude::*;
use vstd::string::*;
use vstd::utf8::{encode_utf8, encode_utf8_valid_utf8, is_ascii_chars_encode_utf8};

use crate::ascii::{
    ascii_text, is_ascii_bytes, is_plain, lemma_ascii_text_encoding, CH_0, CH_COMMA, CH_LOWER_X,
    CH_NEWLINE, CH_RETURN,
};
use crate::checksum::{
    checksum_text, has_0x, is_address_text, law_checksum_round_trip, lowercase,
    to_checksum_address, without_0x,
};
use crate::decimal::{
    decimal_digits, law_decimal_round_trip, lemma_decimal_digits_are_decimal, push_decimal,
};
use crate::hexcode::{hex_encode, hex_encoded};
use crate::hit::Hit;
use crate::sink::{
    best_of_lines, best_score_of, first_at, larger, lemma_first_at, lemma_first_at_is, line_score,
    score_field, without_return,
};

verus! {

/// The salt as it is written: `0x` and sixty-four hex digits.
pub open spec fn salt_text(salt: Seq<u8>) -> Seq<u8> {
    seq![CH_0, CH_LOWER_X] + hex_encoded(salt)
}

/// The fields of a find after the first, each after a comma: the salt, the
/// score, the two runs, the platform, the device and the time in seconds.
pub open spec fn later_fields(hit: Hit) -> Seq<u8> {
    seq![CH_COMMA] + salt_text(hit.salt@) + seq![CH_COMMA] + decimal_digits(hit.score as nat)
        + seq![CH_COMMA] + decimal_digits(hit.leading_ones as nat) + seq![CH_COMMA]
        + decimal_digits(hit.trailing_ones as nat) + seq![CH_COMMA] + decimal_digits(
        hit.platform_id as nat,
    ) + seq![CH_COMMA] + decimal_digits(hit.device_id as nat) + seq![CH_COMMA] + decimal_digits(
        hit.unix_seconds as nat,
    )
}

/// The eight fields of a find, with commas between them: the checksummed
/// address first.
pub open spec fn record_fields(hit: Hit) -> Seq<u8> {
    checksum_text(hex_encoded(hit.address@)) + later_fields(hit)
}

/// The line that records a find: its fields and a line feed.
pub open spec fn record_bytes(hit: Hit) -> Seq<u8> {
    record_fields(hit) + seq![CH_NEWLINE]
}

/// The header line of a sink, with its line feed.
pub open spec fn header_bytes() -> Seq<u8> {
    encode_utf8(
        "address,salt,score,leading_ones,trailing_ones,platform,device,timestamp\n"@,
    )
}

/// The lines that record a sequence of finds, in order.
pub open spec fn records_bytes(hits: Seq<Hit>) -> Seq<u8>
    decreases hits.len(),
{
    if hits.len() == 0 {
        Seq::<u8>::empty()
    } else {
        record_bytes(hits[0]) + records_bytes(hits.drop_first())
    }
}

/// The contents of a sink to which the given finds were appended, in order.
pub open spec fn sink_bytes(hits: Seq<Hit>) -> Seq<u8> {
    header_bytes() + records_bytes(hits)
}

/// What is appended to a sink for a find: its line, after the header where
/// the sink does not exist yet.
pub open spec fn appended_bytes(hit: Hit, sink_exists: bool) -> Seq<u8> {
    if sink_exists {
        record_bytes(hit)
    } else {
        header_bytes() + record_bytes(hit)
    }
}

/// The greatest score among the given finds, or zero where there is none.
pub open spec fn best_of_hits(hits: Seq<Hit>) -> nat
    decreases hits.len(),
{
    if hits.len() == 0 {
        0
    } else {
        larger(hits[0].score as nat, best_of_hits(hits.drop_first()))
    }
}

/// The header as text.
pub fn header_line() -> (line: String)
    ensures
        line@ == ascii_text(header_bytes()),
        encode_utf8(line@) == header_bytes(),
{
    proof {
        lemma_header_text();
    }
    String::from_str("address,salt,score,leading_ones,trailing_ones,platform,device,timestamp\n")
}

/// The checksummed form of an address, as text.
pub fn checksummed_address(address: &[u8; 20]) -> (text: String)
    ensures
        text@ == ascii_text(checksum_text(hex_encoded(address@))),
{
    let address_hex = hex_encode(address.as_slice());
    proof {
        law_checksum_round_trip(address@);
        lemma_hex_is_plain(address@);
        lemma_plain_is_ascii(hex_encoded(address@));
        lemma_ascii_text_encoding(hex_encoded(address@));
    }
    to_checksum_address(address_hex.as_str())
}

/// The line that records a find, the text of whose address is given: that
/// text, the other fields, each after a comma, and a line feed.
pub fn record_line_with(address_text: &str, hit: &Hit) -> (line: String)
    ensures
        line@ == address_text@ + ascii_text(later_fields(*hit) + seq![CH_NEWLINE]),
{
    let mut line = String::from_str(address_text);
    line.push(',');
    line.push('0');
    line.push('x');
    let salt_hex = hex_encode(hit.salt.as_slice());
    line.append(salt_hex.as_str());
    line.push(',');
    push_decimal(&mut line, hit.score as u64);
    line.push(',');
    push_decimal(&mut line, hit.leading_ones as u64);
    line.push(',');
    push_decimal(&mut line, hit.trailing_ones as u64);
    line.push(',');
    push_decimal(&mut line, hit.platform_id as u64);
    line.push(',');
    push_decimal(&mut line, hit.device_id as u64);
    line.push(',');
    push_decimal(&mut line, hit.unix_seconds);
    line.push('\n');
    assert(line@ =~= address_text@ + ascii_text(later_fields(*hit) + seq![CH_NEWLINE]));
    line
}

/// The line that records a find, as text.
pub fn record_line(hit: &Hit) -> (line: String)
    ensures
        line@ == ascii_text(record_bytes(*hit)),
        encode_utf8(line@) == record_bytes(*hit),
{
    let checksummed = checksummed_address(&hit.address);
    let line = record_line_with(checksummed.as_str(), hit);
    proof {
        assert(line@ =~= ascii_text(record_bytes(*hit)));
        lemma_record_is_ascii(*hit);
        lemma_ascii_text_encoding(record_bytes(*hit));
    }
    line
}

/// What is appended to a sink for a find, as text: the line of the find,
/// after the header where the sink does not exist yet.
pub fn append_text(hit: &Hit, sink_exists: bool) -> (text: String)
    ensures
        text@ == ascii_text(appended_bytes(*hit, sink_exists)),
        encode_utf8(text@) == appended_bytes(*hit, sink_exists),
{
    let line = record_line(hit);
    if sink_exists {
        line
    } else {
        let mut text = header_line();
        text.append(line.as_str());
        proof {
            lemma_header_is_ascii();
            lemma_record_is_ascii(*hit);
            let all = header_bytes() + record_bytes(*hit);
            lemma_ascii_text_encoding(all);
            assert(text@ =~= ascii_text(all));
        }
        text
    }
}

/// Hex digits are letters and decimal digits.
pub proof fn lemma_hex_is_plain(data: Seq<u8>)
    ensures
        is_plain(hex_encoded(data)),
{
}

/// Decimal digits are plain.
pub proof fn lemma_decimal_is_plain(n: nat)
    ensures
        is_plain(decimal_digits(n)),
{
    lemma_decimal_digits_are_decimal(n);
}

/// Letters and decimal digits are ASCII.
pub proof fn lemma_plain_is_ascii(bytes: Seq<u8>)
    requires
        is_plain(bytes),
    ensures
        is_ascii_bytes(bytes),
{
}

/// A checksummed address is forty-two letters and decimal digits.
pub proof fn lemma_checksum_is_plain(text: Seq<u8>)
    requires
        is_address_text(text),
    ensures
        is_plain(checksum_text(text)),
        checksum_text(text).len() == 42,
{
}

/// The line of a find is ASCII, and so are its fields.
pub proof fn lemma_record_is_ascii(hit: Hit)
    ensures
        is_ascii_bytes(record_fields(hit)),
        is_ascii_bytes(record_bytes(hit)),
{
    law_checksum_round_trip(hit.address@);
    lemma_checksum_is_plain(hex_encoded(hit.address@));
    lemma_hex_is_plain(hit.salt@);
    lemma_decimal_is_plain(hit.score as nat);
    lemma_decimal_is_plain(hit.leading_ones as nat);
    lemma_decimal_is_plain(hit.trailing_ones as nat);
    lemma_decimal_is_plain(hit.platform_id as nat);
    lemma_decimal_is_plain(hit.device_id as nat);
    lemma_decimal_is_plain(hit.unix_seconds as nat);
}

/// In a line that begins with three plain fields, the commas after the first
/// two of them are found, and the third is the score field.
pub proof fn lemma_score_field(line: Seq<u8>, a: Seq<u8>, b: Seq<u8>, c: Seq<u8>, tail: Seq<u8>)
    requires
        line == a + seq![CH_COMMA] + b + seq![CH_COMMA] + c + tail,
        is_plain(a),
        is_plain(b),
        is_plain(c),
        tail.len() == 0 || tail[0] == CH_COMMA,
    ensures
        score_field(line) == Some(c),
{
    let first_comma = a.len() as int;
    let second_comma = first_comma + 1 + b.len();
    let field_end = second_comma + 1 + c.len();
    assert forall|k: int| 0 <= k < first_comma implies line[k] != CH_COMMA by {
        assert(line[k] == a[k]);
    }
    assert(line[first_comma] == CH_COMMA);
    lemma_first_at_is(line, CH_COMMA, 0, first_comma);
    assert forall|k: int| first_comma + 1 <= k < second_comma implies line[k] != CH_COMMA by {
        assert(line[k] == b[k - first_comma - 1]);
    }
    assert(line[second_comma] == CH_COMMA);
    lemma_first_at_is(line, CH_COMMA, first_comma + 1, second_comma);
    assert forall|k: int| second_comma + 1 <= k < field_end implies line[k] != CH_COMMA by {
        assert(line[k] == c[k - second_comma - 1]);
    }
    if tail.len() > 0 {
        assert(line[field_end] == tail[0]);
    }
    lemma_first_at_is(line, CH_COMMA, second_comma + 1, field_end);
    assert(line.subrange(second_comma + 1, field_end) =~= c);
}

/// The fields of a find hold no line feed, do not end in a carriage return,
/// and record the score of the find.
pub proof fn lemma_record_fields(hit: Hit)
    ensures
        record_fields(hit).len() > 0,
        forall|k: int| 0 <= k < record_fields(hit).len() ==> record_fields(hit)[k] != CH_NEWLINE,
        without_return(record_fields(hit)) == record_fields(hit),
        line_score(record_fields(hit)) == hit.score,
{
    let line = record_fields(hit);
    let a = checksum_text(hex_encoded(hit.address@));
    let b = salt_text(hit.salt@);
    let c = decimal_digits(hit.score as nat);
    let tail = seq![CH_COMMA] + decimal_digits(hit.leading_ones as nat) + seq![CH_COMMA]
        + decimal_digits(hit.trailing_ones as nat) + seq![CH_COMMA] + decimal_digits(
        hit.platform_id as nat,
    ) + seq![CH_COMMA] + decimal_digits(hit.device_id as nat) + seq![CH_COMMA] + decimal_digits(
        hit.unix_seconds as nat,
    );
    law_checksum_round_trip(hit.address@);
    lemma_checksum_is_plain(hex_encoded(hit.address@));
    lemma_hex_is_plain(hit.salt@);
    lemma_decimal_is_plain(hit.score as nat);
    lemma_decimal_is_plain(hit.leading_ones as nat);
    lemma_decimal_is_plain(hit.trailing_ones as nat);
    lemma_decimal_is_plain(hit.platform_id as nat);
    lemma_decimal_is_plain(hit.device_id as nat);
    lemma_decimal_is_plain(hit.unix_seconds as nat);
    lemma_decimal_digits_are_decimal(hit.unix_seconds as nat);
    assert(is_plain(b));
    assert(line =~= a + seq![CH_COMMA] + b + seq![CH_COMMA] + c + tail);
    assert(line.len() > 0);
    lemma_score_field(line, a, b, c, tail);
    law_decimal_round_trip(hit.score as nat, u32::MAX as nat);
    lemma_record_is_ascii(hit);
    lemma_ascii_text_encoding(line);
    let last = decimal_digits(hit.unix_seconds as nat);
    assert(line.last() == last.last());
}

/// Where a line holds no line feed, it is the first line of the text made of
/// it, a line feed, and the rest.
pub proof fn lemma_first_line(line: Seq<u8>, rest: Seq<u8>)
    requires
        forall|k: int| 0 <= k < line.len() ==> line[k] != CH_NEWLINE,
    ensures
        first_at(line + seq![CH_NEWLINE] + rest, CH_NEWLINE, 0) == line.len(),
        (line + seq![CH_NEWLINE] + rest).subrange(0, line.len() as int) == line,
        (line + seq![CH_NEWLINE] + rest).skip(line.len() as int + 1) == rest,
{
    let text = line + seq![CH_NEWLINE] + rest;
    assert forall|k: int| 0 <= k < line.len() implies text[k] != CH_NEWLINE by {
        assert(text[k] == line[k]);
    }
    assert(text[line.len() as int] == CH_NEWLINE);
    lemma_first_at_is(text, CH_NEWLINE, 0, line.len() as int);
    assert(text.subrange(0, line.len() as int) =~= line);
    assert(text.skip(line.len() as int + 1) =~= rest);
}

/// The greatest score among the lines of the given finds is the greatest score among the finds.
pub proof fn lemma_best_of_records(hits: Seq<Hit>)
    ensures
        best_of_lines(records_bytes(hits)) == best_of_hits(hits),
    decreases hits.len(),
{
    if hits.len() > 0 {
        let line = record_fields(hits[0]);
        let rest = records_bytes(hits.drop_first());
        lemma_record_fields(hits[0]);
        lemma_first_line(line, rest);
        lemma_best_of_records(hits.drop_first());
        assert(records_bytes(hits) =~= line + seq![CH_NEWLINE] + rest);
    }
}

/// The header is one line: it ends with its only line feed.
pub proof fn lemma_header_is_first_line(rest: Seq<u8>)
    ensures
        header_bytes().len() == 72,
        first_at(header_bytes() + rest, CH_NEWLINE, 0) == 71,
        (header_bytes() + rest).skip(72) == rest,
{
    reveal_strlit("address,salt,score,leading_ones,trailing_ones,platform,device,timestamp\n");
    let text = "address,salt,score,leading_ones,trailing_ones,platform,device,timestamp\n"@;
    is_ascii_chars_encode_utf8(text);
    let header = header_bytes();
    let all = header + rest;
    assert forall|k: int| 0 <= k < 71 implies all[k] != CH_NEWLINE by {
        assert(all[k] == header[k]);
        assert(header[k] == text[k] as u8);
    }
    assert(all[71] == header[71]);
    assert(header[71] == text[71] as u8);
    lemma_first_at_is(all, CH_NEWLINE, 0, 71);
    assert(all.skip(72) =~= rest);
}

/// The best score read from a written sink is the greatest score among the
/// finds that were written to it.
pub proof fn law_best_score_of_written(hits: Seq<Hit>)
    ensures
        best_score_of(sink_bytes(hits)) == best_of_hits(hits),
{
    lemma_header_is_first_line(records_bytes(hits));
    lemma_best_of_records(hits);
}

/// The header is ASCII text.
pub proof fn lemma_header_is_ascii()
    ensures
        is_ascii_bytes(header_bytes()),
{
    reveal_strlit("address,salt,score,leading_ones,trailing_ones,platform,device,timestamp\n");
    let text = "address,salt,score,leading_ones,trailing_ones,platform,device,timestamp\n"@;
    is_ascii_chars_encode_utf8(text);
    let header = header_bytes();
    assert forall|k: int| 0 <= k < header.len() implies #[trigger] header[k] < 128 by {
        assert(header[k] == text[k] as u8);
    }
}

/// The characters of the header are those that its bytes spell.
pub proof fn lemma_header_text()
    ensures
        "address,salt,score,leading_ones,trailing_ones,platform,device,timestamp\n"@
            == ascii_text(header_bytes()),
{
    reveal_strlit("address,salt,score,leading_ones,trailing_ones,platform,device,timestamp\n");
    let text = "address,salt,score,leading_ones,trailing_ones,platform,device,timestamp\n"@;
    is_ascii_chars_encode_utf8(text);
    let header = header_bytes();
    assert forall|k: int| 0 <= k < text.len() implies text[k] == #[trigger] header[k] as char by {
        assert(header[k] == text[k] as u8);
    }
    assert(text =~= ascii_text(header));
}

/// The lines of finds written one after another are the lines of the first
/// finds and then the line of the last.
pub proof fn lemma_records_pushed(hits: Seq<Hit>, hit: Hit)
    ensures
        records_bytes(hits.push(hit)) == records_bytes(hits) + record_bytes(hit),
    decreases hits.len(),
{
    let all = hits.push(hit);
    if hits.len() == 0 {
        assert(all.drop_first() =~= Seq::<Hit>::empty());
        assert(records_bytes(all.drop_first()) =~= Seq::<u8>::empty());
        assert(records_bytes(all) =~= record_bytes(hit));
        assert(records_bytes(hits) + record_bytes(hit) =~= record_bytes(hit));
    } else {
        lemma_records_pushed(hits.drop_first(), hit);
        assert(all.drop_first() =~= hits.drop_first().push(hit));
        assert(records_bytes(all) =~= records_bytes(hits) + record_bytes(hit));
    }
}

/// Appending to a sink keeps it a sink: what is appended for a find to the
/// sink of earlier finds gives the sink of all of them, and what is appended
/// where there is no sink yet gives the sink of that find alone.
pub proof fn law_append_extends_sink(hits: Seq<Hit>, hit: Hit)
    ensures
        sink_bytes(hits) + appended_bytes(hit, true) == sink_bytes(hits.push(hit)),
        appended_bytes(hit, false) == sink_bytes(seq![hit]),
{
    lemma_records_pushed(hits, hit);
    assert(sink_bytes(hits) + appended_bytes(hit, true) =~= sink_bytes(hits.push(hit)));
    lemma_records_pushed(Seq::<Hit>::empty(), hit);
    assert(Seq::<Hit>::empty().push(hit) =~= seq![hit]);
    assert(records_bytes(Seq::<Hit>::empty()) =~= Seq::<u8>::empty());
    assert(appended_bytes(hit, false) =~= sink_bytes(seq![hit]));
}

/// The greatest score among finds never falls when a find is added.
pub proof fn lemma_best_of_hits_pushed(hits: Seq<Hit>, hit: Hit)
    ensures
        best_of_hits(hits.push(hit)) == larger(best_of_hits(hits), hit.score as nat),
    decreases hits.len(),
{
    let all = hits.push(hit);
    assert(all.len() > 0);
    if hits.len() == 0 {
        assert(all[0] == hit);
        assert(all.drop_first() =~= Seq::<Hit>::empty());
        assert(best_of_hits(all.drop_first()) == 0);
    } else {
        lemma_best_of_hits_pushed(hits.drop_first(), hit);
        assert(all[0] == hits[0]);
        assert(all.drop_first() =~= hits.drop_first().push(hit));
    }
}

} // verus!
