use create2gpu::decimal::{parse_decimal, push_decimal};
use create2gpu::hit::Hit;
use create2gpu::record::{append_text, header_line, record_line};
use create2gpu::sink::{best_score, best_score_from, find_byte, score_of_line};

const HEADER: &str = "address,salt,score,leading_ones,trailing_ones,platform,device,timestamp\n";

fn hit_scoring(score: u32, seed: u8) -> Hit {
    Hit {
        address: [seed; 20],
        salt: [seed.wrapping_add(1); 32],
        score,
        leading_ones: score / 2,
        trailing_ones: score - score / 2,
        platform_id: seed as u32,
        device_id: 2,
        unix_seconds: 1717000000 + seed as u64,
    }
}

#[test]
fn parses_decimal_numbers() {
    assert_eq!(parse_decimal(b"0", 255), Some(0));
    assert_eq!(parse_decimal(b"17", 255), Some(17));
    assert_eq!(parse_decimal(b"255", 255), Some(255));
    assert_eq!(parse_decimal(b"256", 255), None);
    assert_eq!(parse_decimal(b"+5", 255), Some(5));
    assert_eq!(parse_decimal(b"007", 255), Some(7));
    assert_eq!(parse_decimal(b"0000000000000000000000000000000000001", 255), Some(1));
    assert_eq!(parse_decimal(b"4294967295", 4294967295), Some(4294967295));
    assert_eq!(parse_decimal(b"4294967296", 4294967295), None);
    assert_eq!(parse_decimal(b"18446744073709551615", u64::MAX), Some(u64::MAX));
    assert_eq!(parse_decimal(b"18446744073709551616", u64::MAX), None);
    assert_eq!(parse_decimal(b"99999999999999999999999999999999999999999", u64::MAX), None);
    assert_eq!(parse_decimal(b"", 255), None);
    assert_eq!(parse_decimal(b"+", 255), None);
    assert_eq!(parse_decimal(b"-1", 255), None);
    assert_eq!(parse_decimal(b"++1", 255), None);
    assert_eq!(parse_decimal(b"1+", 255), None);
    assert_eq!(parse_decimal(b" 1", 255), None);
    assert_eq!(parse_decimal(b"1 ", 255), None);
    assert_eq!(parse_decimal(b"1_0", 255), None);
    assert_eq!(parse_decimal(b"0x10", 255), None);
    assert_eq!(parse_decimal(b"12a", 255), None);
    assert_eq!(parse_decimal("١٢".as_bytes(), 255), None);
}

#[test]
fn decimal_parsing_agrees_with_std() {
    let texts = ["0", "1", "+1", "-1", "255", "256", "0255", "+0", "", "+", "4294967295", "1e3"];
    for text in texts.iter() {
        assert_eq!(parse_decimal(text.as_bytes(), 255), text.parse::<u8>().ok().map(u64::from));
        assert_eq!(
            parse_decimal(text.as_bytes(), u32::MAX as u64),
            text.parse::<u32>().ok().map(u64::from)
        );
    }
}

#[test]
fn writes_decimal_numbers() {
    for n in [0u64, 1, 9, 10, 11, 99, 100, 1717000000, u32::MAX as u64, u64::MAX] {
        let mut text = String::from("x=");
        push_decimal(&mut text, n);
        assert_eq!(text, format!("x={}", n));
        assert_eq!(parse_decimal(text[2..].as_bytes(), u64::MAX), Some(n));
    }
}

#[test]
fn finds_the_first_byte_from_a_place() {
    let text = b"ab,cd,,e";
    assert_eq!(find_byte(text, b',', 0), 2);
    assert_eq!(find_byte(text, b',', 2), 2);
    assert_eq!(find_byte(text, b',', 3), 5);
    assert_eq!(find_byte(text, b',', 6), 6);
    assert_eq!(find_byte(text, b',', 7), 8);
    assert_eq!(find_byte(text, b',', 8), 8);
    assert_eq!(find_byte(text, b'z', 0), 8);
    assert_eq!(find_byte(b"", b',', 0), 0);
}

#[test]
fn score_is_the_third_field_of_a_line() {
    assert_eq!(score_of_line(b"0xAb,0x00,17,9,8,0,2,1717000000"), 17);
    assert_eq!(score_of_line(b"a,b,5"), 5);
    assert_eq!(score_of_line(b"a,b,5,"), 5);
    assert_eq!(score_of_line(b",,5"), 5);
    assert_eq!(score_of_line(b"a,b,+5,x"), 5);
    assert_eq!(score_of_line(b"a,b,4294967295"), 4294967295);
    assert_eq!(score_of_line(b"a,b,4294967296"), 0);
    assert_eq!(score_of_line(b"a,b"), 0);
    assert_eq!(score_of_line(b"a,b,"), 0);
    assert_eq!(score_of_line(b"a,b,,5"), 0);
    assert_eq!(score_of_line(b"a,b, 5"), 0);
    assert_eq!(score_of_line(b"a,b,5 "), 0);
    assert_eq!(score_of_line(b"a,b,-5"), 0);
    assert_eq!(score_of_line(b"a,b,five"), 0);
    assert_eq!(score_of_line(b""), 0);
    assert_eq!(score_of_line(b"17"), 0);
}

#[test]
fn a_line_that_is_not_utf8_has_no_score() {
    assert_eq!(score_of_line(b"\xff,b,17"), 0);
    assert_eq!(score_of_line(b"a,b,17,\xc3"), 0);
    assert_eq!(score_of_line(b"a,\xed\xa0\x80,17"), 0);
    assert_eq!(score_of_line("é,€,17".as_bytes()), 17);
}

#[test]
fn best_score_of_nothing_is_zero() {
    assert_eq!(best_score(b""), 0);
    assert_eq!(best_score(HEADER.as_bytes()), 0);
    assert_eq!(best_score(b"no line feed at all"), 0);
    assert_eq!(best_score(b"a,b,99"), 0);
    assert_eq!(best_score(b"\n"), 0);
    assert_eq!(best_score(b"\n\n\n"), 0);
}

#[test]
fn best_score_is_the_greatest_of_the_score_column() {
    let text = format!(
        "{}0xAb,0x00,17,9,8,0,2,1717000000\n0xCd,0x01,12,6,6,0,1,1717000001\n0xEf,0x02,19,10,9,1,0,1717000002\n",
        HEADER
    );
    assert_eq!(best_score(text.as_bytes()), 19);
    assert_eq!(best_score_from(text.as_bytes(), 8), 19);
    assert_eq!(best_score_from(text.as_bytes(), 19), 19);
    assert_eq!(best_score_from(text.as_bytes(), 20), 20);
    assert_eq!(best_score_from(b"", 8), 8);
    assert_eq!(best_score_from(HEADER.as_bytes(), 8), 8);
}

#[test]
fn the_first_line_is_never_a_record() {
    assert_eq!(best_score(b"a,b,99\na,b,3\n"), 3);
    assert_eq!(best_score(b"a,b,99\n"), 0);
}

#[test]
fn lines_that_do_not_parse_are_skipped() {
    let text = b"header\nnot a record\na,b,7\n\n,,\na,b,x\n\xff\xfe,b,100\na,b,9,trailing\nlast,one,8";
    assert_eq!(best_score(text), 9);
}

#[test]
fn a_carriage_return_before_the_line_feed_is_dropped() {
    assert_eq!(best_score(b"header\r\na,b,7\r\n"), 7);
    assert_eq!(best_score(b"header\na,b,7\r"), 0);
    assert_eq!(best_score(b"header\na,b,7\r\r\n"), 0);
    assert_eq!(best_score(b"header\na,b,7,x\r\n"), 7);
}

#[test]
fn the_last_line_needs_no_line_feed() {
    assert_eq!(best_score(b"header\na,b,7\na,b,11"), 11);
}

#[test]
fn header_is_the_eight_column_names() {
    assert_eq!(header_line(), HEADER);
}

#[test]
fn record_line_holds_the_eight_fields() {
    let mut address = [0u8; 20];
    address.copy_from_slice(&hex::decode("60f3f640a8508fc6a86d45df051962668e1e8ac7").unwrap());
    let mut salt = [0u8; 32];
    salt[28..].copy_from_slice(&[0xca, 0xfe, 0xba, 0xbe]);
    let hit = Hit {
        address,
        salt,
        score: 17,
        leading_ones: 9,
        trailing_ones: 8,
        platform_id: 0,
        device_id: 2,
        unix_seconds: 1717000000,
    };
    assert_eq!(
        record_line(&hit),
        "0x60f3f640a8508fC6a86d45DF051962668E1e8AC7,0x00000000000000000000000000000000000000000000000000000000cafebabe,17,9,8,0,2,1717000000\n"
    );
}

#[test]
fn record_line_writes_the_largest_numbers() {
    let hit = Hit {
        address: [0xff; 20],
        salt: [0xff; 32],
        score: u32::MAX,
        leading_ones: u32::MAX,
        trailing_ones: 0,
        platform_id: u32::MAX,
        device_id: u32::MAX,
        unix_seconds: u64::MAX,
    };
    let line = record_line(&hit);
    let fields: Vec<&str> = line.trim_end_matches('\n').split(',').collect();
    assert_eq!(fields.len(), 8);
    assert_eq!(fields[0].to_lowercase(), format!("0x{}", "ff".repeat(20)));
    assert_eq!(fields[1], format!("0x{}", "ff".repeat(32)));
    assert_eq!(fields[2], "4294967295");
    assert_eq!(fields[3], "4294967295");
    assert_eq!(fields[4], "0");
    assert_eq!(fields[5], "4294967295");
    assert_eq!(fields[6], "4294967295");
    assert_eq!(fields[7], "18446744073709551615");
    assert_eq!(score_of_line(line.trim_end_matches('\n').as_bytes()), u32::MAX);
}

#[test]
fn the_header_is_appended_to_a_new_sink_only() {
    let hit = hit_scoring(17, 3);
    assert_eq!(append_text(&hit, true), record_line(&hit));
    assert_eq!(append_text(&hit, false), format!("{}{}", HEADER, record_line(&hit)));
}

#[test]
fn best_score_of_a_written_sink_is_the_greatest_score_written() {
    let scores = [5u32, 17, 0, 12, 17, 3, 40, 39, 80, 1];
    let mut sink = String::new();
    let mut greatest = 0;
    assert_eq!(best_score(sink.as_bytes()), 0);
    for (i, score) in scores.iter().enumerate() {
        let hit = hit_scoring(*score, i as u8);
        sink.push_str(&append_text(&hit, !sink.is_empty()));
        greatest = greatest.max(*score);
        assert_eq!(best_score(sink.as_bytes()), greatest);
    }
    assert!(sink.starts_with(HEADER));
    assert_eq!(sink.lines().count(), scores.len() + 1);
}

#[test]
fn best_score_never_falls_when_lines_are_appended() {
    let mut sink = HEADER.as_bytes().to_vec();
    let mut last = best_score(&sink);
    let appended: [&[u8]; 7] = [
        b"a,b,4\n",
        b"garbage\n",
        b"a,b,2\n",
        b"\xff\xff\n",
        b"a,b,9\r\n",
        b"a,b\n",
        b"a,b,9999999999\n",
    ];
    for more in appended.iter() {
        sink.extend_from_slice(more);
        let now = best_score(&sink);
        assert!(now >= last);
        last = now;
    }
    assert_eq!(last, 9);
}
