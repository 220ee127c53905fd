//! The export record format: one four-field row per match, with an
//! absent line number carried as an empty field. A row parses back to
//! exactly the match it was written from.
use vstd::prelude::*;
use crate::results::{MatchV, SearchResult};
use crate::text::{spec_decimal, decimal_chars, str_chars, chars_to_string};

verus! {

/// A decimal digit character.
pub open spec fn spec_is_digit(c: char) -> bool {
    ('0' as u32) <= (c as u32) && (c as u32) <= ('9' as u32)
}

/// The value of a digit character.
pub open spec fn spec_digit_val(c: char) -> int {
    (c as u32) - ('0' as u32)
}

/// Left-to-right checked decimal parsing: a non-digit or an overflow
/// of the accumulator rejects the text.
pub open spec fn spec_parse_from(s: Seq<char>, i: int, acc: u64) -> Option<u64>
    decreases s.len() - i,
    when 0 <= i <= s.len()
{
    if i >= s.len() {
        Some(acc)
    } else if !spec_is_digit(s[i]) {
        None
    } else if acc as int > (u64::MAX - spec_digit_val(s[i])) / 10 {
        None
    } else {
        spec_parse_from(s, i + 1, (acc * 10 + spec_digit_val(s[i])) as u64)
    }
}

/// The number a non-empty digit string denotes; `None` for an empty
/// text, a non-digit, or a value beyond the machine range.
pub open spec fn spec_parse_dec(s: Seq<char>) -> Option<u64> {
    if s.len() == 0 {
        None
    } else {
        spec_parse_from(s, 0, 0)
    }
}

/// Parse a decimal character vector.
pub fn parse_decimal(s: &Vec<char>) -> (r: Option<u64>)
    ensures
        r == spec_parse_dec(s@),
{
    if s.len() == 0 {
        return None;
    }
    let mut acc: u64 = 0;
    let mut i: usize = 0;
    while i < s.len()
        invariant
            i <= s@.len(),
            spec_parse_from(s@, i as int, acc) == spec_parse_from(s@, 0, 0),
        decreases s@.len() - i,
    {
        let c = s[i];
        let cu = c as u32;
        if cu < '0' as u32 || cu > '9' as u32 {
            return None;
        }
        let d: u64 = (cu - ('0' as u32)) as u64;
        if acc > (u64::MAX - d) / 10 {
            return None;
        }
        acc = acc * 10 + d;
        i += 1;
    }
    Some(acc)
}

/// Parsing is inverse to decimal rendering: appending one digit to a
/// parsed text multiplies the value by ten and adds the digit.
proof fn lemma_parse_push(s: Seq<char>, c: char, i: int, acc: u64, v: u64)
    requires
        0 <= i <= s.len(),
        spec_parse_from(s, i, acc) == Some(v),
        spec_is_digit(c),
        v as int * 10 + spec_digit_val(c) <= u64::MAX,
    ensures
        spec_parse_from(s.push(c), i, acc) == Some((v * 10 + spec_digit_val(c)) as u64),
    decreases s.len() - i,
{
    assert(v as int <= (u64::MAX - spec_digit_val(c)) / 10) by (nonlinear_arith)
        requires
            v as int * 10 + spec_digit_val(c) <= u64::MAX,
            0 <= spec_digit_val(c) <= 9,
    ;
    if i >= s.len() {
        assert(s.push(c)[i] == c);
        assert(spec_parse_from(s.push(c), i, acc) == spec_parse_from(
            s.push(c),
            i + 1,
            (acc * 10 + spec_digit_val(c)) as u64,
        ));
    } else {
        assert(s.push(c)[i] == s[i]);
        lemma_parse_push(s, c, i + 1, (acc * 10 + spec_digit_val(s[i])) as u64, v);
    }
}

/// The round trip on line numbers: a rendered number parses back to
/// itself.
pub proof fn lemma_decimal_round_trip(n: u64)
    ensures
        spec_parse_dec(spec_decimal(n as int)) == Some(n),
    decreases n,
{
    if n < 10 {
        let s = spec_decimal(n as int);
        assert(s == seq![crate::text::spec_digit_char(n as int)]);
        assert(s[0] == crate::text::spec_digit_char(n as int) && s.len() == 1);
        assert(spec_is_digit(s[0]));
        assert(spec_digit_val(s[0]) == n as int);
        assert(spec_parse_from(s, 0, 0) == spec_parse_from(s, 1, n));
        assert(spec_parse_from(s, 1, n) == Some(n));
    } else {
        lemma_decimal_round_trip(n / 10);
        let d = crate::text::spec_digit_char((n % 10) as int);
        assert(spec_is_digit(d) && spec_digit_val(d) == n % 10);
        lemma_parse_push(spec_decimal((n / 10) as int), d, 0, 0, n / 10);
        assert((n / 10) * 10 + n % 10 == n);
    }
}

/// The four fields one match exports: location, line (empty when
/// absent), content, and tag.
pub open spec fn spec_record_of(m: MatchV) -> Seq<Seq<char>> {
    seq![
        m.location,
        match m.line {
            Some(k) => spec_decimal(k as int),
            None => Seq::<char>::empty(),
        },
        m.content,
        m.category,
    ]
}

/// The match a four-field row denotes, when its line field is empty or
/// a machine-range number.
pub open spec fn spec_match_of_record(row: Seq<Seq<char>>) -> Option<MatchV> {
    if row.len() != 4 {
        None
    } else if row[1].len() == 0 {
        Some(MatchV { location: row[0], line: None, content: row[2], category: row[3] })
    } else {
        match spec_parse_dec(row[1]) {
            Some(v) => {
                if v <= usize::MAX as u64 {
                    Some(
                        MatchV {
                            location: row[0],
                            line: Some(v as usize),
                            content: row[2],
                            category: row[3],
                        },
                    )
                } else {
                    None
                }
            },
            None => None,
        }
    }
}

/// Build the export row of one match.
pub fn record_of(m: &SearchResult) -> (r: Vec<String>)
    ensures
        r.deep_view() == spec_record_of(m@),
{
    let mut r: Vec<String> = Vec::new();
    r.push(m.file_location.clone());
    match m.line_number {
        Some(k) => {
            let d = decimal_chars(k as u64);
            r.push(chars_to_string(&d));
        },
        None => {
            r.push(String::new());
        },
    }
    r.push(m.line_content.clone());
    r.push(m.match_type.clone());
    proof {
        assert(r.deep_view() =~= spec_record_of(m@));
    }
    r
}

/// Read one export row back into a match.
pub fn match_of_record(row: &Vec<String>) -> (r: Option<SearchResult>)
    ensures
        match r {
            Some(m) => spec_match_of_record(row.deep_view()) == Some(m@),
            None => spec_match_of_record(row.deep_view()) is None,
        },
{
    if row.len() != 4 {
        return None;
    }
    proof {
        assert(row.deep_view()[1] == row@[1]@);
        assert(row.deep_view()[0] == row@[0]@);
        assert(row.deep_view()[2] == row@[2]@);
        assert(row.deep_view()[3] == row@[3]@);
    }
    let line_chars = str_chars(row[1].as_str());
    let line: Option<usize> = if line_chars.len() == 0 {
        None
    } else {
        match parse_decimal(&line_chars) {
            Some(v) => {
                if v <= usize::MAX as u64 {
                    Some(v as usize)
                } else {
                    return None;
                }
            },
            None => {
                return None;
            },
        }
    };
    Some(
        SearchResult {
            file_location: row[0].clone(),
            line_number: line,
            line_content: row[2].clone(),
            match_type: row[3].clone(),
        },
    )
}

/// The record round trip: reading the row written for a match yields
/// exactly that match — an absent line number passes through the empty
/// field.
pub proof fn lemma_record_round_trip(m: MatchV)
    ensures
        spec_match_of_record(spec_record_of(m)) == Some(m),
{
    let row = spec_record_of(m);
    match m.line {
        Some(k) => {
            lemma_decimal_round_trip(k as u64);
            assert(spec_decimal(k as int).len() > 0);
            assert(spec_parse_dec(row[1]) == Some(k as u64));
        },
        None => {
            assert(row[1].len() == 0);
        },
    }
}

/// The header row of the export table.
pub fn export_header() -> (r: Vec<String>)
    ensures
        r.deep_view() == seq!["file_location"@, "line"@, "line_content"@, "match_type"@],
{
    let mut r: Vec<String> = Vec::new();
    r.push("file_location".to_owned());
    r.push("line".to_owned());
    r.push("line_content".to_owned());
    r.push("match_type".to_owned());
    proof {
        assert(r.deep_view() =~= seq!["file_location"@, "line"@, "line_content"@, "match_type"@]);
    }
    r
}

} // verus!
