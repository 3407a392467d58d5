//! The result sink: a text file that holds one header line and then one line
//! for each find, and from which the best score so far is read back.
//!
//! The file is read by the caller. Here is how the best score is found in
//! its bytes, and why it never falls while lines are appended.

use vstd::prelude::*;
use vstd::string::*;
use vstd::utf8::{encode_utf8, is_ascii_chars, is_ascii_chars_encode_utf8, valid_utf8};

use crate::ascii::{ascii_text, CH_COMMA, CH_NEWLINE, CH_RETURN};
use crate::decimal::{parse_decimal, parsed_decimal};

verus! {

/// `std::str::from_utf8` accepts exactly the byte sequences that are valid UTF-8.
#[verifier::external_body]
pub(crate) fn is_utf8(bytes: &[u8]) -> (ok: bool)
    ensures
        ok == valid_utf8(bytes@),
{
    std::str::from_utf8(bytes).is_ok()
}

/// The first place at or after `from` where the text holds `b`, or the
/// length of the text where it holds none.
pub open spec fn first_at(text: Seq<u8>, b: u8, from: int) -> int
    decreases text.len() - from,
{
    if from >= text.len() {
        text.len() as int
    } else if text[from] == b {
        from
    } else {
        first_at(text, b, from + 1)
    }
}

/// What `first_at` finds lies between `from` and the end, nothing before it
/// is `b`, and it is `b` unless it is the end.
pub proof fn lemma_first_at(text: Seq<u8>, b: u8, from: int)
    requires
        0 <= from <= text.len(),
    ensures
        from <= first_at(text, b, from) <= text.len(),
        forall|k: int| from <= k < first_at(text, b, from) ==> text[k] != b,
        first_at(text, b, from) < text.len() ==> text[first_at(text, b, from)] == b,
    decreases text.len() - from,
{
    if from < text.len() && text[from] != b {
        lemma_first_at(text, b, from + 1);
    }
}

/// A place with nothing equal to `b` between `from` and it, which holds `b`
/// or is the end, is what `first_at` finds.
pub proof fn lemma_first_at_is(text: Seq<u8>, b: u8, from: int, place: int)
    requires
        0 <= from <= place <= text.len(),
        forall|k: int| from <= k < place ==> text[k] != b,
        place == text.len() || text[place] == b,
    ensures
        first_at(text, b, from) == place,
    decreases place - from,
{
    if from < place {
        lemma_first_at_is(text, b, from + 1, place);
    }
}

/// The line without a carriage return at its end, if it has one.
pub open spec fn without_return(line: Seq<u8>) -> Seq<u8> {
    if line.len() > 0 && line.last() == CH_RETURN {
        line.drop_last()
    } else {
        line
    }
}

/// The third of the fields that commas separate in a line, if it has three.
pub open spec fn score_field(line: Seq<u8>) -> Option<Seq<u8>> {
    let first_comma = first_at(line, CH_COMMA, 0);
    let second_comma = first_at(line, CH_COMMA, first_comma + 1);
    if second_comma < line.len() {
        Some(line.subrange(second_comma + 1, first_at(line, CH_COMMA, second_comma + 1)))
    } else {
        None
    }
}

/// The score that a line records: the number in its third field, where the
/// line is valid UTF-8, has a third field, and that field is a decimal number
/// that fits in thirty-two bits. Any other line counts as zero.
pub open spec fn line_score(line: Seq<u8>) -> nat {
    if !valid_utf8(line) {
        0
    } else {
        match score_field(line) {
            Some(field) => match parsed_decimal(field, u32::MAX as nat) {
                Some(score) => score,
                None => 0,
            },
            None => 0,
        }
    }
}

/// The larger of two numbers.
pub open spec fn larger(a: nat, b: nat) -> nat {
    if a >= b {
        a
    } else {
        b
    }
}

/// The greatest score among the lines of a text. A line ends with a line
/// feed, before which a carriage return is dropped; what follows the last
/// line feed is a line too, unless it is empty.
pub open spec fn best_of_lines(text: Seq<u8>) -> nat
    decreases text.len(),
{
    if text.len() == 0 {
        0
    } else {
        let end = first_at(text, CH_NEWLINE, 0);
        if 0 <= end < text.len() {
            larger(
                line_score(without_return(text.subrange(0, end))),
                best_of_lines(text.skip(end + 1)),
            )
        } else {
            line_score(text)
        }
    }
}

/// The best score that the contents of a sink record: the greatest score
/// among its lines after the first, which is the header; zero where there is none.
pub open spec fn best_score_of(contents: Seq<u8>) -> nat {
    let end = first_at(contents, CH_NEWLINE, 0);
    if end < contents.len() {
        best_of_lines(contents.skip(end + 1))
    } else {
        0
    }
}

/// Finds the first `b` at or after `from`; the length of the text where there is none.
pub fn find_byte(text: &[u8], b: u8, from: usize) -> (place: usize)
    ensures
        place == first_at(text@, b, from as int),
        place <= text@.len(),
        from <= text@.len() ==> from <= place,
{
    if from >= text.len() {
        return text.len();
    }
    let mut place: usize = from;
    while place < text.len() && text[place] != b
        invariant
            from <= place <= text@.len(),
            forall|k: int| from <= k < place ==> text@[k] != b,
        decreases text@.len() - place,
    {
        place += 1;
    }
    proof {
        lemma_first_at_is(text@, b, from as int, place as int);
    }
    place
}

/// Reads the score that a line records.
pub fn score_of_line(line: &[u8]) -> (score: u32)
    ensures
        score == line_score(line@),
{
    if !is_utf8(line) {
        return 0;
    }
    let n: usize = line.len();
    let first_comma: usize = find_byte(line, CH_COMMA, 0);
    if first_comma >= n {
        return 0;
    }
    let second_comma: usize = find_byte(line, CH_COMMA, first_comma + 1);
    if second_comma >= n {
        return 0;
    }
    let third_comma: usize = find_byte(line, CH_COMMA, second_comma + 1);
    let field = vstd::slice::slice_subrange(line, second_comma + 1, third_comma);
    match parse_decimal(field, 0xffff_ffff) {
        Some(score) => score as u32,
        None => 0,
    }
}

/// The best score that the contents of a sink record, or `floor` where that is more.
pub fn best_score_from(contents: &[u8], floor: u32) -> (best: u32)
    ensures
        best == larger(floor as nat, best_score_of(contents@)),
{
    let n: usize = contents.len();
    let header_end: usize = find_byte(contents, CH_NEWLINE, 0);
    if header_end >= n {
        return floor;
    }
    let mut best: u32 = floor;
    let mut pos: usize = header_end + 1;
    while pos < n
        invariant
            header_end < n,
            header_end + 1 <= pos <= n,
            n == contents@.len(),
            floor <= best,
            larger(best as nat, best_of_lines(contents@.skip(pos as int))) == larger(
                floor as nat,
                best_of_lines(contents@.skip(header_end + 1)),
            ),
        decreases n - pos,
    {
        let rest = vstd::slice::slice_subrange(contents, pos, n);
        assert(rest@ =~= contents@.skip(pos as int));
        let end: usize = find_byte(rest, CH_NEWLINE, 0);
        if end < rest.len() {
            let terminated = vstd::slice::slice_subrange(rest, 0, end);
            let line = if end > 0 && terminated[end - 1] == CH_RETURN {
                vstd::slice::slice_subrange(terminated, 0, end - 1)
            } else {
                terminated
            };
            assert(line@ =~= without_return(rest@.subrange(0, end as int)));
            let score: u32 = score_of_line(line);
            if score > best {
                best = score;
            }
            assert(rest@.skip(end + 1) =~= contents@.skip(pos + end + 1));
            pos = pos + end + 1;
        } else {
            let score: u32 = score_of_line(rest);
            if score > best {
                best = score;
            }
            pos = n;
        }
    }
    best
}

/// The best score that the contents of a sink record.
pub fn best_score(contents: &[u8]) -> (best: u32)
    ensures
        best == best_score_of(contents@),
{
    best_score_from(contents, 0)
}

/// The text is empty or ends with a line feed: nothing is appended to a line of it.
pub open spec fn ends_with_lines(text: Seq<u8>) -> bool {
    text.len() == 0 || text.last() == CH_NEWLINE
}

/// What is found in a text from a place on is found in the text with more
/// after it, where it is found before the end.
pub proof fn lemma_first_at_extended(text: Seq<u8>, more: Seq<u8>, b: u8, from: int)
    requires
        0 <= from <= text.len(),
        first_at(text, b, from) < text.len(),
    ensures
        first_at(text + more, b, from) == first_at(text, b, from),
{
    let place = first_at(text, b, from);
    lemma_first_at(text, b, from);
    assert forall|k: int| from <= k < place implies (text + more)[k] != b by {
        assert((text + more)[k] == text[k]);
    }
    assert((text + more)[place] == text[place]);
    lemma_first_at_is(text + more, b, from, place);
}

/// Whole lines keep their scores when more is appended after them.
pub proof fn lemma_best_of_lines_extended(text: Seq<u8>, more: Seq<u8>)
    requires
        ends_with_lines(text),
    ensures
        best_of_lines(text) <= best_of_lines(text + more),
    decreases text.len(),
{
    if text.len() > 0 {
        lemma_first_at(text, CH_NEWLINE, 0);
        let end = first_at(text, CH_NEWLINE, 0);
        assert(end < text.len()) by {
            if end >= text.len() {
                assert(text[text.len() - 1] != CH_NEWLINE);
            }
        }
        lemma_first_at_extended(text, more, CH_NEWLINE, 0);
        let rest = text.skip(end + 1);
        assert((text + more).subrange(0, end) =~= text.subrange(0, end));
        assert((text + more).skip(end + 1) =~= rest + more);
        assert(ends_with_lines(rest)) by {
            if rest.len() > 0 {
                assert(rest.last() == text.last());
            }
        }
        lemma_best_of_lines_extended(rest, more);
    }
}

/// The best score of a sink never falls when more is appended to it, as long
/// as what it held before ended with a whole line.
pub proof fn law_best_score_grows(contents: Seq<u8>, more: Seq<u8>)
    requires
        ends_with_lines(contents),
    ensures
        best_score_of(contents) <= best_score_of(contents + more),
{
    if contents.len() > 0 {
        lemma_first_at(contents, CH_NEWLINE, 0);
        let end = first_at(contents, CH_NEWLINE, 0);
        assert(end < contents.len()) by {
            if end >= contents.len() {
                assert(contents[contents.len() - 1] != CH_NEWLINE);
            }
        }
        lemma_first_at_extended(contents, more, CH_NEWLINE, 0);
        let rest = contents.skip(end + 1);
        assert((contents + more).skip(end + 1) =~= rest + more);
        assert(ends_with_lines(rest)) by {
            if rest.len() > 0 {
                assert(rest.last() == contents.last());
            }
        }
        lemma_best_of_lines_extended(rest, more);
    } else {
        lemma_first_at(contents, CH_NEWLINE, 0);
    }
}

} // verus!
