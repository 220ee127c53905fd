//! Content scanners: coarse extraction of printable runs from raw
//! bytes, and line-by-line scanning of decoded text. Each returns the
//! exact sequence of matches its specification describes.
use vstd::prelude::*;
use crate::pattern::{regex_match, regex_source, regex_is_match};
use crate::results::{MatchV, SearchResult};
use crate::text::{spec_trim, trim_chars, str_chars, chars_to_string};

verus! {

/// True when a byte is printable for the purpose of coarse string
/// extraction: graphic ASCII, space, or tab.
pub open spec fn spec_printable(b: u8) -> bool {
    (0x21 <= b <= 0x7e) || b == 0x20 || b == 0x09
}

pub fn is_printable(b: u8) -> (r: bool)
    ensures
        r == spec_printable(b),
{
    (0x21 <= b && b <= 0x7e) || b == 0x20 || b == 0x09
}

/// A binary match: no line number, the run itself as content.
pub open spec fn bin_match(loc: Seq<char>, cat: Seq<char>, run: Seq<char>) -> MatchV {
    MatchV { location: loc, line: None, content: run, category: cat }
}

/// The matches that coarse extraction emits from position `i` onward,
/// with `run` the printable characters accumulated so far: a maximal
/// printable run of length at least four that the pattern matches is
/// emitted exactly once, including a final in-progress run at the end
/// of the buffer.
pub open spec fn spec_bin_scan(
    p: Seq<char>,
    data: Seq<u8>,
    i: int,
    run: Seq<char>,
    loc: Seq<char>,
    cat: Seq<char>,
) -> Seq<MatchV>
    decreases data.len() - i,
    when 0 <= i <= data.len()
{
    if i >= data.len() {
        if run.len() >= 4 && regex_match(p, run) {
            seq![bin_match(loc, cat, run)]
        } else {
            Seq::empty()
        }
    } else if spec_printable(data[i]) {
        spec_bin_scan(p, data, i + 1, run.push(data[i] as char), loc, cat)
    } else {
        let rest = spec_bin_scan(p, data, i + 1, Seq::empty(), loc, cat);
        if run.len() >= 4 && regex_match(p, run) {
            seq![bin_match(loc, cat, run)] + rest
        } else {
            rest
        }
    }
}

/// All matches that coarse extraction emits from a byte buffer.
pub open spec fn spec_bin_matches(
    p: Seq<char>,
    data: Seq<u8>,
    loc: Seq<char>,
    cat: Seq<char>,
) -> Seq<MatchV> {
    spec_bin_scan(p, data, 0, Seq::empty(), loc, cat)
}

/// Every emitted binary match has a content of length at least four
/// that the pattern matches, at the given location with the given tag.
pub proof fn lemma_bin_scan_emitted(
    p: Seq<char>,
    data: Seq<u8>,
    i: int,
    run: Seq<char>,
    loc: Seq<char>,
    cat: Seq<char>,
)
    requires
        0 <= i <= data.len(),
    ensures
        forall|k: int|
            0 <= k < spec_bin_scan(p, data, i, run, loc, cat).len() ==> {
                let m = #[trigger] spec_bin_scan(p, data, i, run, loc, cat)[k];
                m.content.len() >= 4 && regex_match(p, m.content) && m.location == loc
                    && m.category == cat && m.line is None
            },
    decreases data.len() - i,
{
    if i >= data.len() {
    } else if spec_printable(data[i]) {
        lemma_bin_scan_emitted(p, data, i + 1, run.push(data[i] as char), loc, cat);
    } else {
        lemma_bin_scan_emitted(p, data, i + 1, Seq::empty(), loc, cat);
    }
}

/// Extract printable runs from raw bytes and return one match for each
/// maximal run of length at least four that the pattern matches.
pub fn scan_binary(re: &regex::Regex, data: &Vec<u8>, loc: &String, cat: &String) -> (out: Vec<
    SearchResult,
>)
    ensures
        out.deep_view() == spec_bin_matches(regex_source(*re), data@, loc@, cat@),
{
    let ghost p = regex_source(*re);
    let mut out: Vec<SearchResult> = Vec::new();
    let mut run: Vec<char> = Vec::new();
    let mut i: usize = 0;
    while i < data.len()
        invariant
            i <= data@.len(),
            p == regex_source(*re),
            out.deep_view() + spec_bin_scan(p, data@, i as int, run@, loc@, cat@)
                == spec_bin_matches(p, data@, loc@, cat@),
        decreases data@.len() - i,
    {
        let ghost run0 = run@;
        let ghost outd0 = out.deep_view();
        let b = data[i];
        if is_printable(b) {
            run.push(b as char);
            proof {
                assert(spec_bin_scan(p, data@, i as int, run0, loc@, cat@) == spec_bin_scan(
                    p,
                    data@,
                    i + 1,
                    run0.push(data@[i as int] as char),
                    loc@,
                    cat@,
                ));
            }
        } else {
            if run.len() >= 4 && regex_is_match(re, &run) {
                let m = SearchResult {
                    file_location: loc.clone(),
                    line_number: None,
                    line_content: chars_to_string(&run),
                    match_type: cat.clone(),
                };
                proof {
                    assert(m@ == bin_match(loc@, cat@, run@));
                }
                out.push(m);
                proof {
                    assert(out.deep_view() =~= outd0.push(bin_match(loc@, cat@, run0)));
                    assert(spec_bin_scan(p, data@, i as int, run0, loc@, cat@) == seq![
                        bin_match(loc@, cat@, run0),
                    ] + spec_bin_scan(p, data@, i + 1, Seq::empty(), loc@, cat@));
                    assert(outd0.push(bin_match(loc@, cat@, run0)) + spec_bin_scan(
                        p,
                        data@,
                        i + 1,
                        Seq::empty(),
                        loc@,
                        cat@,
                    ) =~= outd0 + spec_bin_scan(p, data@, i as int, run0, loc@, cat@));
                }
            } else {
                proof {
                    assert(spec_bin_scan(p, data@, i as int, run0, loc@, cat@) == spec_bin_scan(
                        p,
                        data@,
                        i + 1,
                        Seq::empty(),
                        loc@,
                        cat@,
                    ));
                }
            }
            run = Vec::new();
        }
        i += 1;
        proof {
            assert(out.deep_view() + spec_bin_scan(p, data@, i as int, run@, loc@, cat@)
                =~= spec_bin_matches(p, data@, loc@, cat@));
        }
    }
    if run.len() >= 4 && regex_is_match(re, &run) {
        let m = SearchResult {
            file_location: loc.clone(),
            line_number: None,
            line_content: chars_to_string(&run),
            match_type: cat.clone(),
        };
        let ghost out0 = out.deep_view();
        proof {
            assert(m@ == bin_match(loc@, cat@, run@));
        }
        out.push(m);
        proof {
            assert(out.deep_view() =~= out0.push(bin_match(loc@, cat@, run@)));
        }
    }
    proof {
        assert(out.deep_view() =~= spec_bin_matches(p, data@, loc@, cat@));
    }
    out
}

/// The line-number counter, saturating at the machine limit.
pub open spec fn spec_inc_line(n: usize) -> usize {
    if n < usize::MAX {
        (n + 1) as usize
    } else {
        n
    }
}

/// A line without its trailing carriage return, when it has one.
pub open spec fn spec_strip_cr(s: Seq<char>) -> Seq<char> {
    if s.len() > 0 && s[s.len() - 1] == '\r' {
        s.drop_last()
    } else {
        s
    }
}

/// A text-line match: 1-based line number, trimmed content.
pub open spec fn line_match(loc: Seq<char>, cat: Seq<char>, n: usize, line: Seq<char>) -> MatchV {
    MatchV { location: loc, line: Some(n), content: spec_trim(line), category: cat }
}

/// The matches that line scanning emits from position `i` onward, with
/// `cur` the characters of the current line so far and `n` its 1-based
/// number: lines are split at newlines, a carriage return before a
/// newline is stripped, the final line needs no newline, and each line
/// the pattern matches is emitted with its trimmed content.
pub open spec fn spec_line_scan(
    p: Seq<char>,
    text: Seq<char>,
    i: int,
    cur: Seq<char>,
    n: usize,
    loc: Seq<char>,
    cat: Seq<char>,
) -> Seq<MatchV>
    decreases text.len() - i,
    when 0 <= i <= text.len()
{
    if i >= text.len() {
        if cur.len() > 0 && regex_match(p, cur) {
            seq![line_match(loc, cat, n, cur)]
        } else {
            Seq::empty()
        }
    } else if text[i] == '\n' {
        let line = spec_strip_cr(cur);
        let rest = spec_line_scan(p, text, i + 1, Seq::empty(), spec_inc_line(n), loc, cat);
        if regex_match(p, line) {
            seq![line_match(loc, cat, n, line)] + rest
        } else {
            rest
        }
    } else {
        spec_line_scan(p, text, i + 1, cur.push(text[i]), n, loc, cat)
    }
}

/// All matches that line scanning emits from a text.
pub open spec fn spec_line_matches(
    p: Seq<char>,
    text: Seq<char>,
    loc: Seq<char>,
    cat: Seq<char>,
) -> Seq<MatchV> {
    spec_line_scan(p, text, 0, Seq::empty(), 1, loc, cat)
}

/// Every emitted line match sits at the given location with the given
/// tag and a line number.
pub proof fn lemma_line_scan_emitted(
    p: Seq<char>,
    text: Seq<char>,
    i: int,
    cur: Seq<char>,
    n: usize,
    loc: Seq<char>,
    cat: Seq<char>,
)
    requires
        0 <= i <= text.len(),
    ensures
        forall|k: int|
            0 <= k < spec_line_scan(p, text, i, cur, n, loc, cat).len() ==> {
                let m = #[trigger] spec_line_scan(p, text, i, cur, n, loc, cat)[k];
                m.location == loc && m.category == cat && m.line is Some
            },
    decreases text.len() - i,
{
    if i >= text.len() {
    } else if text[i] == '\n' {
        lemma_line_scan_emitted(p, text, i + 1, Seq::empty(), spec_inc_line(n), loc, cat);
    } else {
        lemma_line_scan_emitted(p, text, i + 1, cur.push(text[i]), n, loc, cat);
    }
}

/// Scan a text line by line and return one match for each line the
/// pattern matches, numbered from one, with trimmed content.
pub fn scan_text(re: &regex::Regex, text: &str, loc: &String, cat: &String) -> (out: Vec<
    SearchResult,
>)
    ensures
        out.deep_view() == spec_line_matches(regex_source(*re), text@, loc@, cat@),
{
    let ghost p = regex_source(*re);
    let chars = str_chars(text);
    let mut out: Vec<SearchResult> = Vec::new();
    let mut cur: Vec<char> = Vec::new();
    let mut n: usize = 1;
    let mut i: usize = 0;
    while i < chars.len()
        invariant
            i <= chars@.len(),
            chars@ == text@,
            p == regex_source(*re),
            out.deep_view() + spec_line_scan(p, text@, i as int, cur@, n, loc@, cat@)
                == spec_line_matches(p, text@, loc@, cat@),
        decreases chars@.len() - i,
    {
        let ghost cur0 = cur@;
        let ghost n0 = n;
        let ghost outd0 = out.deep_view();
        let c = chars[i];
        if c == '\n' {
            let mut line = cur;
            if line.len() > 0 && line[line.len() - 1] == '\r' {
                let ghost before = line@;
                line.pop();
                proof {
                    assert(line@ =~= spec_strip_cr(before));
                }
            }
            proof {
                assert(line@ == spec_strip_cr(cur0));
            }
            if regex_is_match(re, &line) {
                let t = trim_chars(&line);
                let m = SearchResult {
                    file_location: loc.clone(),
                    line_number: Some(n),
                    line_content: chars_to_string(&t),
                    match_type: cat.clone(),
                };
                proof {
                    assert(m@ == line_match(loc@, cat@, n, line@));
                }
                out.push(m);
                proof {
                    assert(out.deep_view() =~= outd0.push(
                        line_match(loc@, cat@, n0, spec_strip_cr(cur0)),
                    ));
                    assert(spec_line_scan(p, text@, i as int, cur0, n0, loc@, cat@) == seq![
                        line_match(loc@, cat@, n0, spec_strip_cr(cur0)),
                    ] + spec_line_scan(p, text@, i + 1, Seq::empty(), spec_inc_line(n0), loc@, cat@));
                    assert(outd0.push(line_match(loc@, cat@, n0, spec_strip_cr(cur0)))
                        + spec_line_scan(p, text@, i + 1, Seq::empty(), spec_inc_line(n0), loc@, cat@)
                        =~= outd0 + spec_line_scan(p, text@, i as int, cur0, n0, loc@, cat@));
                }
            } else {
                proof {
                    assert(spec_line_scan(p, text@, i as int, cur0, n0, loc@, cat@)
                        == spec_line_scan(
                        p,
                        text@,
                        i + 1,
                        Seq::empty(),
                        spec_inc_line(n0),
                        loc@,
                        cat@,
                    ));
                }
            }
            cur = Vec::new();
            if n < usize::MAX {
                n = n + 1;
            }
            proof {
                assert(n == spec_inc_line(n0));
            }
        } else {
            cur.push(c);
            proof {
                assert(spec_line_scan(p, text@, i as int, cur0, n0, loc@, cat@) == spec_line_scan(
                    p,
                    text@,
                    i + 1,
                    cur0.push(text@[i as int]),
                    n0,
                    loc@,
                    cat@,
                ));
            }
        }
        i += 1;
        proof {
            assert(out.deep_view() + spec_line_scan(p, text@, i as int, cur@, n, loc@, cat@)
                =~= spec_line_matches(p, text@, loc@, cat@));
        }
    }
    if cur.len() > 0 && regex_is_match(re, &cur) {
        let t = trim_chars(&cur);
        let m = SearchResult {
            file_location: loc.clone(),
            line_number: Some(n),
            line_content: chars_to_string(&t),
            match_type: cat.clone(),
        };
        let ghost out0 = out.deep_view();
        proof {
            assert(m@ == line_match(loc@, cat@, n, cur@));
        }
        out.push(m);
        proof {
            assert(out.deep_view() =~= out0.push(line_match(loc@, cat@, n, cur@)));
        }
    }
    proof {
        assert(out.deep_view() =~= spec_line_matches(p, text@, loc@, cat@));
    }
    out
}

/// A byte line without its trailing carriage-return byte.
pub open spec fn spec_strip_cr_bytes(s: Seq<u8>) -> Seq<u8> {
    if s.len() > 0 && s[s.len() - 1] == 0x0d {
        s.drop_last()
    } else {
        s
    }
}

/// The matches that scanning a loose file's bytes emits from position
/// `i` onward, with `cur` the bytes of the current line so far and `n`
/// its 1-based number. Lines are split at newline bytes and decoded
/// one by one: a decodable line the pattern matches is emitted with
/// its trimmed content; at the first undecodable line the scan either
/// falls back once to coarse extraction over the whole buffer and
/// stops, or — without the fallback — skips just that line and goes
/// on. A final line needs no newline and keeps a bare carriage return.
pub open spec fn spec_byte_scan(
    p: Seq<char>,
    data: Seq<u8>,
    i: int,
    cur: Seq<u8>,
    n: usize,
    loc: Seq<char>,
    cat: Seq<char>,
    bcat: Seq<char>,
    fallback: bool,
) -> Seq<MatchV>
    decreases data.len() - i,
    when 0 <= i <= data.len()
{
    if i >= data.len() {
        if cur.len() == 0 {
            Seq::empty()
        } else if vstd::utf8::valid_utf8(cur) {
            if regex_match(p, vstd::utf8::decode_utf8(cur)) {
                seq![line_match(loc, cat, n, vstd::utf8::decode_utf8(cur))]
            } else {
                Seq::empty()
            }
        } else if fallback {
            spec_bin_matches(p, data, loc, bcat)
        } else {
            Seq::empty()
        }
    } else if data[i] == 0x0a {
        let line = spec_strip_cr_bytes(cur);
        if vstd::utf8::valid_utf8(line) {
            let rest = spec_byte_scan(
                p,
                data,
                i + 1,
                Seq::empty(),
                spec_inc_line(n),
                loc,
                cat,
                bcat,
                fallback,
            );
            if regex_match(p, vstd::utf8::decode_utf8(line)) {
                seq![line_match(loc, cat, n, vstd::utf8::decode_utf8(line))] + rest
            } else {
                rest
            }
        } else if fallback {
            spec_bin_matches(p, data, loc, bcat)
        } else {
            spec_byte_scan(p, data, i + 1, Seq::empty(), spec_inc_line(n), loc, cat, bcat, fallback)
        }
    } else {
        spec_byte_scan(p, data, i + 1, cur.push(data[i]), n, loc, cat, bcat, fallback)
    }
}

/// All matches that byte-line scanning emits from a buffer.
pub open spec fn spec_byte_matches(
    p: Seq<char>,
    data: Seq<u8>,
    loc: Seq<char>,
    cat: Seq<char>,
    bcat: Seq<char>,
    fallback: bool,
) -> Seq<MatchV> {
    spec_byte_scan(p, data, 0, Seq::empty(), 1, loc, cat, bcat, fallback)
}

/// Every emitted byte-scan match sits at the given location.
pub proof fn lemma_byte_scan_emitted(
    p: Seq<char>,
    data: Seq<u8>,
    i: int,
    cur: Seq<u8>,
    n: usize,
    loc: Seq<char>,
    cat: Seq<char>,
    bcat: Seq<char>,
    fallback: bool,
)
    requires
        0 <= i <= data.len(),
    ensures
        forall|k: int|
            0 <= k < spec_byte_scan(p, data, i, cur, n, loc, cat, bcat, fallback).len() ==> (
            #[trigger] spec_byte_scan(p, data, i, cur, n, loc, cat, bcat, fallback)[k]).location
                == loc,
    decreases data.len() - i,
{
    if i >= data.len() {
        if cur.len() > 0 && !vstd::utf8::valid_utf8(cur) && fallback {
            lemma_bin_scan_emitted(p, data, 0, Seq::empty(), loc, bcat);
        }
    } else if data[i] == 0x0a {
        let line = spec_strip_cr_bytes(cur);
        if vstd::utf8::valid_utf8(line) {
            lemma_byte_scan_emitted(
                p,
                data,
                i + 1,
                Seq::empty(),
                spec_inc_line(n),
                loc,
                cat,
                bcat,
                fallback,
            );
        } else if fallback {
            lemma_bin_scan_emitted(p, data, 0, Seq::empty(), loc, bcat);
        } else {
            lemma_byte_scan_emitted(
                p,
                data,
                i + 1,
                Seq::empty(),
                spec_inc_line(n),
                loc,
                cat,
                bcat,
                fallback,
            );
        }
    } else {
        lemma_byte_scan_emitted(p, data, i + 1, cur.push(data[i]), n, loc, cat, bcat, fallback);
    }
}

/// Scan a loose file's bytes line by line, decoding each line on its
/// own: one match per decodable line the pattern matches; at the first
/// undecodable line either one fallback pass of coarse extraction over
/// the whole buffer (and stop), or — without the fallback — that line
/// alone is skipped.
pub fn scan_byte_lines(
    re: &regex::Regex,
    data: &Vec<u8>,
    loc: &String,
    cat: &String,
    bcat: &String,
    fallback: bool,
) -> (out: Vec<SearchResult>)
    ensures
        out.deep_view() == spec_byte_matches(
            regex_source(*re),
            data@,
            loc@,
            cat@,
            bcat@,
            fallback,
        ),
{
    let ghost p = regex_source(*re);
    let mut out: Vec<SearchResult> = Vec::new();
    let mut cur: Vec<u8> = Vec::new();
    let mut n: usize = 1;
    let mut i: usize = 0;
    while i < data.len()
        invariant
            i <= data@.len(),
            p == regex_source(*re),
            out.deep_view() + spec_byte_scan(p, data@, i as int, cur@, n, loc@, cat@, bcat@, fallback)
                == spec_byte_matches(p, data@, loc@, cat@, bcat@, fallback),
        decreases data@.len() - i,
    {
        let ghost cur0 = cur@;
        let ghost n0 = n;
        let ghost outd0 = out.deep_view();
        let b = data[i];
        if b == 0x0a {
            let mut line = cur;
            if line.len() > 0 && line[line.len() - 1] == 0x0d {
                let ghost before = line@;
                line.pop();
                proof {
                    assert(line@ =~= spec_strip_cr_bytes(before));
                }
            }
            proof {
                assert(line@ == spec_strip_cr_bytes(cur0));
            }
            match bytes_to_text(&line) {
                Some(text) => {
                    let lv = str_chars(text.as_str());
                    if regex_is_match(re, &lv) {
                        let t = trim_chars(&lv);
                        let m = SearchResult {
                            file_location: loc.clone(),
                            line_number: Some(n),
                            line_content: chars_to_string(&t),
                            match_type: cat.clone(),
                        };
                        proof {
                            assert(m@ == line_match(
                                loc@,
                                cat@,
                                n0,
                                vstd::utf8::decode_utf8(spec_strip_cr_bytes(cur0)),
                            ));
                        }
                        out.push(m);
                        proof {
                            assert(out.deep_view() =~= outd0.push(
                                line_match(
                                    loc@,
                                    cat@,
                                    n0,
                                    vstd::utf8::decode_utf8(spec_strip_cr_bytes(cur0)),
                                ),
                            ));
                        }
                    }
                    proof {
                        assert(spec_byte_scan(p, data@, i as int, cur0, n0, loc@, cat@, bcat@, fallback)
                            == (if regex_match(
                            p,
                            vstd::utf8::decode_utf8(spec_strip_cr_bytes(cur0)),
                        ) {
                            seq![
                                line_match(
                                    loc@,
                                    cat@,
                                    n0,
                                    vstd::utf8::decode_utf8(spec_strip_cr_bytes(cur0)),
                                ),
                            ]
                        } else {
                            Seq::empty()
                        }) + spec_byte_scan(
                            p,
                            data@,
                            i + 1,
                            Seq::empty(),
                            spec_inc_line(n0),
                            loc@,
                            cat@,
                            bcat@,
                            fallback,
                        ));
                    }
                },
                None => {
                    if fallback {
                        let ms = scan_binary(re, data, loc, bcat);
                        proof {
                            assert(spec_byte_scan(
                                p,
                                data@,
                                i as int,
                                cur0,
                                n0,
                                loc@,
                                cat@,
                                bcat@,
                                fallback,
                            ) == spec_bin_matches(p, data@, loc@, bcat@));
                        }
                        crate::units::append_results(&mut out, ms);
                        proof {
                            assert(out.deep_view() =~= spec_byte_matches(
                                p,
                                data@,
                                loc@,
                                cat@,
                                bcat@,
                                fallback,
                            ));
                        }
                        return out;
                    }
                    proof {
                        assert(spec_byte_scan(p, data@, i as int, cur0, n0, loc@, cat@, bcat@, fallback)
                            == spec_byte_scan(
                            p,
                            data@,
                            i + 1,
                            Seq::empty(),
                            spec_inc_line(n0),
                            loc@,
                            cat@,
                            bcat@,
                            fallback,
                        ));
                    }
                },
            }
            cur = Vec::new();
            if n < usize::MAX {
                n = n + 1;
            }
            proof {
                assert(n == spec_inc_line(n0));
            }
        } else {
            cur.push(b);
            proof {
                assert(spec_byte_scan(p, data@, i as int, cur0, n0, loc@, cat@, bcat@, fallback)
                    == spec_byte_scan(
                    p,
                    data@,
                    i + 1,
                    cur0.push(data@[i as int]),
                    n0,
                    loc@,
                    cat@,
                    bcat@,
                    fallback,
                ));
            }
        }
        i += 1;
        proof {
            assert(out.deep_view() + spec_byte_scan(
                p,
                data@,
                i as int,
                cur@,
                n,
                loc@,
                cat@,
                bcat@,
                fallback,
            ) =~= spec_byte_matches(p, data@, loc@, cat@, bcat@, fallback));
        }
    }
    if cur.len() > 0 {
        match bytes_to_text(&cur) {
            Some(text) => {
                let lv = str_chars(text.as_str());
                if regex_is_match(re, &lv) {
                    let t = trim_chars(&lv);
                    let m = SearchResult {
                        file_location: loc.clone(),
                        line_number: Some(n),
                        line_content: chars_to_string(&t),
                        match_type: cat.clone(),
                    };
                    let ghost outd0 = out.deep_view();
                    proof {
                        assert(m@ == line_match(loc@, cat@, n, vstd::utf8::decode_utf8(cur@)));
                    }
                    out.push(m);
                    proof {
                        assert(out.deep_view() =~= outd0.push(
                            line_match(loc@, cat@, n, vstd::utf8::decode_utf8(cur@)),
                        ));
                    }
                }
            },
            None => {
                if fallback {
                    let ms = scan_binary(re, data, loc, bcat);
                    crate::units::append_results(&mut out, ms);
                }
            },
        }
    }
    proof {
        assert(out.deep_view() =~= spec_byte_matches(p, data@, loc@, cat@, bcat@, fallback));
    }
    out
}

/// Relies on core::str::from_utf8: decoding succeeds exactly on valid
/// UTF-8 and yields the encoded scalar sequence.
#[verifier::external_body]
pub(crate) fn bytes_to_text(b: &Vec<u8>) -> (r: Option<String>)
    ensures
        r is Some <==> vstd::utf8::valid_utf8(b@),
        r is Some ==> r->0@ == vstd::utf8::decode_utf8(b@),
{
    match std::str::from_utf8(b.as_slice()) {
        Ok(s) => Some(s.to_string()),
        Err(_) => None,
    }
}

} // verus!
