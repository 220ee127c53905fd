//! Per-unit processing: one container or one loose file, scanned in
//! full. Each function returns the exact match list and counter deltas
//! its specification gives as a function of the unit's bytes.
use vstd::prelude::*;
use crate::classify::{spec_entry_tag, spec_type_tag, entry_tag, type_tag};
use crate::matching::{
    class_suffix, spec_dotted, spec_exact_match, spec_substring_match, spec_package_match,
    is_class_entry, dotted_name, exact_match, substring_match, package_match,
};
use crate::pattern::regex_source;
use crate::results::{MatchV, SearchResult};
use crate::scan::{
    spec_bin_matches, spec_line_matches, spec_byte_matches, scan_binary, scan_text,
    scan_byte_lines, bytes_to_text,
};
use crate::text::{spec_ends_with, ends_with_chars, str_chars, chars_to_string};
use crate::classify::chars_eq_str;
use crate::tool::{FileEntry, FileEntryV};
use crate::ziparch::{
    zip_ok, zip_names, zip_name_ok, zip_payload, zip_payload_ok, archive_source, zip_open, zip_len,
    zip_entry,
};

verus! {

/// Where a match inside a container is reported: `archivePath:entryName`.
pub open spec fn entry_location(jar: Seq<char>, name: Seq<char>) -> Seq<char> {
    jar + ":"@ + name
}

/// Build the location string for an entry inside a container.
pub fn entry_loc(jar: &String, name: &str) -> (r: String)
    ensures
        r@ == entry_location(jar@, name@),
{
    let mut l = jar.clone();
    l.append(":");
    l.append(name);
    l
}

/// A class-name match for an entry.
pub open spec fn class_match(jar: Seq<char>, name: Seq<char>) -> MatchV {
    MatchV {
        location: entry_location(jar, name),
        line: None,
        content: spec_dotted(name),
        category: "class"@,
    }
}

/// A package match for an entry.
pub open spec fn package_match_v(jar: Seq<char>, name: Seq<char>) -> MatchV {
    MatchV {
        location: entry_location(jar, name),
        line: None,
        content: spec_dotted(name),
        category: "package"@,
    }
}

/// Whether an entry's dotted name satisfies the exact or substring
/// class policy.
pub open spec fn spec_class_policy(q: Seq<char>, exact: bool, name: Seq<char>) -> bool {
    if exact {
        spec_exact_match(q, spec_dotted(name))
    } else {
        spec_substring_match(q, spec_dotted(name))
    }
}

/// The class-name matches among a container's entries from index `i`.
pub open spec fn spec_class_entries(
    q: Seq<char>,
    exact: bool,
    jar: Seq<char>,
    d: Seq<u8>,
    i: int,
) -> Seq<MatchV>
    decreases zip_names(d).len() - i,
    when 0 <= i <= zip_names(d).len()
{
    if i >= zip_names(d).len() {
        Seq::empty()
    } else {
        let rest = spec_class_entries(q, exact, jar, d, i + 1);
        if zip_name_ok(d, i) && spec_ends_with(zip_names(d)[i], class_suffix())
            && spec_class_policy(q, exact, zip_names(d)[i]) {
            seq![class_match(jar, zip_names(d)[i])] + rest
        } else {
            rest
        }
    }
}

/// The number of class entries a scan sees from index `i`.
pub open spec fn spec_class_count(d: Seq<u8>, i: int) -> int
    decreases zip_names(d).len() - i,
    when 0 <= i <= zip_names(d).len()
{
    if i >= zip_names(d).len() {
        0
    } else {
        (if zip_name_ok(d, i) && spec_ends_with(zip_names(d)[i], class_suffix()) {
            1int
        } else {
            0int
        }) + spec_class_count(d, i + 1)
    }
}

pub proof fn lemma_class_count_bound(d: Seq<u8>, i: int)
    requires
        0 <= i <= zip_names(d).len(),
    ensures
        0 <= spec_class_count(d, i) <= zip_names(d).len() - i,
    decreases zip_names(d).len() - i,
{
    if i < zip_names(d).len() {
        lemma_class_count_bound(d, i + 1);
    }
}

/// What a class search over one jar file yields: matches, class-entry
/// count, and whether the container opened.
pub open spec fn spec_jar_class_unit(q: Seq<char>, exact: bool, fv: FileEntryV) -> Seq<MatchV> {
    if zip_ok(fv.data) {
        spec_class_entries(q, exact, fv.path, fv.data, 0)
    } else {
        Seq::empty()
    }
}

pub open spec fn spec_jar_class_count(fv: FileEntryV) -> int {
    if zip_ok(fv.data) {
        spec_class_count(fv.data, 0)
    } else {
        0
    }
}

/// Scan one jar file for class-name matches.
pub fn scan_jar_class(q: &Vec<char>, exact: bool, f: &FileEntry) -> (r: (
    Vec<SearchResult>,
    usize,
    bool,
))
    ensures
        r.0.deep_view() == spec_jar_class_unit(q@, exact, f@),
        r.1 as int == spec_jar_class_count(f@),
        r.2 == zip_ok(f@.data),
{
    let mut a = match zip_open(&f.data) {
        Some(a) => a,
        None => {
            let out: Vec<SearchResult> = Vec::new();
            proof {
                assert(out.deep_view() =~= Seq::<MatchV>::empty());
            }
            return (out, 0, false);
        },
    };
    let n = zip_len(&a);
    let mut out: Vec<SearchResult> = Vec::new();
    let mut count: usize = 0;
    let mut i: usize = 0;
    proof {
        lemma_class_count_bound(f@.data, 0);
    }
    while i < n
        invariant
            i <= n,
            n == zip_names(f@.data).len(),
            archive_source(a) == f@.data,
            zip_ok(f@.data),
            count <= i,
            out.deep_view() + spec_class_entries(q@, exact, f@.path, f@.data, i as int)
                == spec_class_entries(q@, exact, f@.path, f@.data, 0),
            count + spec_class_count(f@.data, i as int) == spec_class_count(f@.data, 0),
        decreases n - i,
    {
        let ghost outd0 = out.deep_view();
        match zip_entry(&mut a, i) {
            Some(pair) => {
                let name = str_chars(pair.0.as_str());
                if is_class_entry(&name) {
                    count += 1;
                    let dn = dotted_name(&name);
                    let matched = if exact {
                        exact_match(q, &dn)
                    } else {
                        substring_match(q, &dn)
                    };
                    if matched {
                        let m = SearchResult {
                            file_location: entry_loc(&f.path, pair.0.as_str()),
                            line_number: None,
                            line_content: chars_to_string(&dn),
                            match_type: "class".to_owned(),
                        };
                        proof {
                            assert(m@ == class_match(f@.path, name@));
                        }
                        out.push(m);
                        proof {
                            assert(out.deep_view() =~= outd0.push(class_match(f@.path, name@)));
                        }
                    }
                }
            },
            None => {},
        }
        i += 1;
        proof {
            assert(out.deep_view() + spec_class_entries(q@, exact, f@.path, f@.data, i as int)
                =~= spec_class_entries(q@, exact, f@.path, f@.data, 0));
        }
    }
    (out, count, true)
}

/// The package matches among a container's entries from index `i`.
pub open spec fn spec_package_entries(q: Seq<char>, jar: Seq<char>, d: Seq<u8>, i: int) -> Seq<
    MatchV,
>
    decreases zip_names(d).len() - i,
    when 0 <= i <= zip_names(d).len()
{
    if i >= zip_names(d).len() {
        Seq::empty()
    } else {
        let rest = spec_package_entries(q, jar, d, i + 1);
        if zip_name_ok(d, i) && spec_package_match(q, zip_names(d)[i]) {
            seq![package_match_v(jar, zip_names(d)[i])] + rest
        } else {
            rest
        }
    }
}

/// What a package search over one jar file yields.
pub open spec fn spec_jar_package_unit(q: Seq<char>, fv: FileEntryV) -> Seq<MatchV> {
    if zip_ok(fv.data) {
        spec_package_entries(q, fv.path, fv.data, 0)
    } else {
        Seq::empty()
    }
}

/// Scan one jar file for entries under a package.
pub fn scan_jar_package(q: &Vec<char>, f: &FileEntry) -> (r: (Vec<SearchResult>, bool))
    ensures
        r.0.deep_view() == spec_jar_package_unit(q@, f@),
        r.1 == zip_ok(f@.data),
{
    let mut a = match zip_open(&f.data) {
        Some(a) => a,
        None => {
            let out: Vec<SearchResult> = Vec::new();
            proof {
                assert(out.deep_view() =~= Seq::<MatchV>::empty());
            }
            return (out, false);
        },
    };
    let n = zip_len(&a);
    let mut out: Vec<SearchResult> = Vec::new();
    let mut i: usize = 0;
    while i < n
        invariant
            i <= n,
            n == zip_names(f@.data).len(),
            archive_source(a) == f@.data,
            zip_ok(f@.data),
            out.deep_view() + spec_package_entries(q@, f@.path, f@.data, i as int)
                == spec_package_entries(q@, f@.path, f@.data, 0),
        decreases n - i,
    {
        let ghost outd0 = out.deep_view();
        match zip_entry(&mut a, i) {
            Some(pair) => {
                let name = str_chars(pair.0.as_str());
                if package_match(q, &name) {
                    let dn = dotted_name(&name);
                    let m = SearchResult {
                        file_location: entry_loc(&f.path, pair.0.as_str()),
                        line_number: None,
                        line_content: chars_to_string(&dn),
                        match_type: "package".to_owned(),
                    };
                    proof {
                        assert(m@ == package_match_v(f@.path, name@));
                    }
                    out.push(m);
                    proof {
                        assert(out.deep_view() =~= outd0.push(package_match_v(f@.path, name@)));
                    }
                }
            },
            None => {},
        }
        i += 1;
        proof {
            assert(out.deep_view() + spec_package_entries(q@, f@.path, f@.data, i as int)
                =~= spec_package_entries(q@, f@.path, f@.data, 0));
        }
    }
    (out, true)
}

/// Append a list of matches to an accumulator, in order.
pub fn append_results(dst: &mut Vec<SearchResult>, src: Vec<SearchResult>)
    ensures
        final(dst).deep_view() == old(dst).deep_view() + src.deep_view(),
{
    let n = src.len();
    let mut i: usize = 0;
    while i < n
        invariant
            i <= n,
            n == src.deep_view().len(),
            dst.deep_view() == old(dst).deep_view() + src.deep_view().subrange(0, i as int),
        decreases n - i,
    {
        let m = src[i].clone();
        proof {
            assert(m@ == src.deep_view()[i as int]);
        }
        let ghost d0 = dst.deep_view();
        dst.push(m);
        proof {
            assert(dst.deep_view() =~= d0.push(src.deep_view()[i as int]));
            assert(d0.push(src.deep_view()[i as int]) =~= old(dst).deep_view()
                + src.deep_view().subrange(0, i + 1));
        }
        i += 1;
    }
    proof {
        assert(src.deep_view().subrange(0, n as int) =~= src.deep_view());
        assert(dst.deep_view() =~= old(dst).deep_view() + src.deep_view());
    }
}

/// The per-entry type filter of a content search: `*` admits every
/// entry, otherwise an entry is admitted by its kind.
pub open spec fn spec_types_allow(types: Seq<Seq<char>>, name: Seq<char>) -> bool {
    ||| types.contains("*"@)
    ||| (types.contains("class"@) && spec_ends_with(name, ".class"@))
    ||| (types.contains("java"@) && spec_ends_with(name, ".java"@))
    ||| (types.contains("other"@) && !spec_ends_with(name, ".class"@) && !spec_ends_with(
        name,
        ".java"@,
    ))
}

/// Whether a type list contains a given word.
fn types_contains(types: &Vec<String>, s: &str) -> (r: bool)
    ensures
        r == types.deep_view().contains(s@),
{
    let mut k: usize = 0;
    while k < types.len()
        invariant
            k <= types@.len(),
            forall|j: int| 0 <= j < k ==> #[trigger] types.deep_view()[j] != s@,
        decreases types@.len() - k,
    {
        let tc = str_chars(types[k].as_str());
        if chars_eq_str(&tc, s) {
            proof {
                assert(types.deep_view()[k as int] == s@);
            }
            return true;
        }
        proof {
            assert(types.deep_view()[k as int] == types@[k as int]@);
        }
        k += 1;
    }
    proof {
        if types.deep_view().contains(s@) {
            let j = choose|j: int|
                0 <= j < types.deep_view().len() && types.deep_view()[j] == s@;
            assert(false);
        }
    }
    false
}

/// Evaluate the type filter on an entry name.
pub fn types_allow(types: &Vec<String>, name: &Vec<char>) -> (r: bool)
    ensures
        r == spec_types_allow(types.deep_view(), name@),
{
    if types_contains(types, "*") {
        return true;
    }
    let cl = str_chars(".class");
    let ja = str_chars(".java");
    let is_class = ends_with_chars(name, &cl);
    let is_java = ends_with_chars(name, &ja);
    if types_contains(types, "class") && is_class {
        return true;
    }
    if types_contains(types, "java") && is_java {
        return true;
    }
    if types_contains(types, "other") && !is_class && !is_java {
        return true;
    }
    false
}

/// The matches one container entry contributes to a content search:
/// directories and filtered-out kinds yield nothing, class entries go
/// through coarse binary extraction, everything else through text line
/// scanning when its bytes decode.
pub open spec fn spec_content_entry(
    p: Seq<char>,
    types: Seq<Seq<char>>,
    jar: Seq<char>,
    d: Seq<u8>,
    i: int,
) -> Seq<MatchV> {
    if !zip_name_ok(d, i) {
        Seq::empty()
    } else {
        let name = zip_names(d)[i];
        if spec_ends_with(name, "/"@) {
            Seq::empty()
        } else if !spec_types_allow(types, name) {
            Seq::empty()
        } else if spec_ends_with(name, class_suffix()) {
            if zip_payload_ok(d, i) {
                spec_bin_matches(p, zip_payload(d, i), entry_location(jar, name), "class_bytecode"@)
            } else {
                Seq::empty()
            }
        } else {
            if zip_payload_ok(d, i) && vstd::utf8::valid_utf8(zip_payload(d, i)) {
                spec_line_matches(
                    p,
                    vstd::utf8::decode_utf8(zip_payload(d, i)),
                    entry_location(jar, name),
                    spec_entry_tag(name),
                )
            } else {
                Seq::empty()
            }
        }
    }
}

/// The content-search matches among a container's entries from `i`.
pub open spec fn spec_content_entries(
    p: Seq<char>,
    types: Seq<Seq<char>>,
    jar: Seq<char>,
    d: Seq<u8>,
    i: int,
) -> Seq<MatchV>
    decreases zip_names(d).len() - i,
    when 0 <= i <= zip_names(d).len()
{
    if i >= zip_names(d).len() {
        Seq::empty()
    } else {
        spec_content_entry(p, types, jar, d, i) + spec_content_entries(p, types, jar, d, i + 1)
    }
}

/// Class, source and other entry counts from index `i`: every readable
/// non-directory entry falls in exactly one.
pub open spec fn spec_entry_counts(d: Seq<u8>, i: int) -> (int, int, int)
    decreases zip_names(d).len() - i,
    when 0 <= i <= zip_names(d).len()
{
    if i >= zip_names(d).len() {
        (0int, 0int, 0int)
    } else {
        let rest = spec_entry_counts(d, i + 1);
        if zip_name_ok(d, i) && !spec_ends_with(zip_names(d)[i], "/"@) {
            if spec_ends_with(zip_names(d)[i], class_suffix()) {
                (rest.0 + 1, rest.1, rest.2)
            } else if spec_ends_with(zip_names(d)[i], ".java"@) {
                (rest.0, rest.1 + 1, rest.2)
            } else {
                (rest.0, rest.1, rest.2 + 1)
            }
        } else {
            rest
        }
    }
}

pub proof fn lemma_entry_counts_bound(d: Seq<u8>, i: int)
    requires
        0 <= i <= zip_names(d).len(),
    ensures
        0 <= spec_entry_counts(d, i).0,
        0 <= spec_entry_counts(d, i).1,
        0 <= spec_entry_counts(d, i).2,
        spec_entry_counts(d, i).0 + spec_entry_counts(d, i).1 + spec_entry_counts(d, i).2
            <= zip_names(d).len() - i,
    decreases zip_names(d).len() - i,
{
    if i < zip_names(d).len() {
        lemma_entry_counts_bound(d, i + 1);
    }
}

/// What a content search over one jar file yields.
pub open spec fn spec_jar_content_unit(p: Seq<char>, types: Seq<Seq<char>>, fv: FileEntryV) -> Seq<
    MatchV,
> {
    if zip_ok(fv.data) {
        spec_content_entries(p, types, fv.path, fv.data, 0)
    } else {
        Seq::empty()
    }
}

pub open spec fn spec_jar_content_counts(fv: FileEntryV) -> (int, int, int) {
    if zip_ok(fv.data) {
        spec_entry_counts(fv.data, 0)
    } else {
        (0int, 0int, 0int)
    }
}

/// Scan one jar file's entries for content matches: class entries by
/// binary extraction, the rest line by line, subject to the type
/// filter; returns the matches, the class/source/other entry counts,
/// and whether the container opened.
pub fn scan_jar_content(re: &regex::Regex, types: &Vec<String>, f: &FileEntry) -> (r: (
    Vec<SearchResult>,
    usize,
    usize,
    usize,
    bool,
))
    ensures
        r.0.deep_view() == spec_jar_content_unit(regex_source(*re), types.deep_view(), f@),
        r.1 as int == spec_jar_content_counts(f@).0,
        r.2 as int == spec_jar_content_counts(f@).1,
        r.3 as int == spec_jar_content_counts(f@).2,
        r.4 == zip_ok(f@.data),
{
    let ghost p = regex_source(*re);
    let mut a = match zip_open(&f.data) {
        Some(a) => a,
        None => {
            let out: Vec<SearchResult> = Vec::new();
            proof {
                assert(out.deep_view() =~= Seq::<MatchV>::empty());
            }
            return (out, 0, 0, 0, false);
        },
    };
    let n = zip_len(&a);
    let mut out: Vec<SearchResult> = Vec::new();
    let mut c_class: usize = 0;
    let mut c_java: usize = 0;
    let mut c_other: usize = 0;
    let mut i: usize = 0;
    proof {
        lemma_entry_counts_bound(f@.data, 0);
    }
    while i < n
        invariant
            i <= n,
            n == zip_names(f@.data).len(),
            archive_source(a) == f@.data,
            zip_ok(f@.data),
            p == regex_source(*re),
            c_class + c_java + c_other <= i,
            out.deep_view() + spec_content_entries(p, types.deep_view(), f@.path, f@.data, i as int)
                == spec_content_entries(p, types.deep_view(), f@.path, f@.data, 0),
            c_class + spec_entry_counts(f@.data, i as int).0 == spec_entry_counts(f@.data, 0).0,
            c_java + spec_entry_counts(f@.data, i as int).1 == spec_entry_counts(f@.data, 0).1,
            c_other + spec_entry_counts(f@.data, i as int).2 == spec_entry_counts(f@.data, 0).2,
        decreases n - i,
    {
        let ghost outd0 = out.deep_view();
        proof {
            lemma_entry_counts_bound(f@.data, i as int);
            lemma_entry_counts_bound(f@.data, i + 1);
        }
        match zip_entry(&mut a, i) {
            Some(pair) => {
                let name = str_chars(pair.0.as_str());
                let sl = str_chars("/");
                if !ends_with_chars(&name, &sl) {
                    let cl = str_chars(".class");
                    let ja = str_chars(".java");
                    let is_class = ends_with_chars(&name, &cl);
                    let is_java = ends_with_chars(&name, &ja);
                    if is_class {
                        c_class += 1;
                    } else if is_java {
                        c_java += 1;
                    } else {
                        c_other += 1;
                    }
                    if types_allow(types, &name) {
                        let loc = entry_loc(&f.path, pair.0.as_str());
                        if is_class {
                            match pair.1 {
                                Some(payload) => {
                                    let cat = "class_bytecode".to_owned();
                                    let ms = scan_binary(re, &payload, &loc, &cat);
                                    append_results(&mut out, ms);
                                },
                                None => {},
                            }
                        } else {
                            match pair.1 {
                                Some(payload) => {
                                    match bytes_to_text(&payload) {
                                        Some(text) => {
                                            let cat = entry_tag(&name);
                                            let ms = scan_text(re, text.as_str(), &loc, &cat);
                                            append_results(&mut out, ms);
                                        },
                                        None => {},
                                    }
                                },
                                None => {},
                            }
                        }
                    }
                }
            },
            None => {},
        }
        i += 1;
        proof {
            assert(out.deep_view() + spec_content_entries(
                p,
                types.deep_view(),
                f@.path,
                f@.data,
                i as int,
            ) =~= spec_content_entries(p, types.deep_view(), f@.path, f@.data, 0));
        }
    }
    (out, c_class, c_java, c_other, true)
}

/// The matches one container entry contributes to a text-only scan.
pub open spec fn spec_ziptext_entry(p: Seq<char>, zp: Seq<char>, d: Seq<u8>, i: int) -> Seq<
    MatchV,
> {
    if zip_name_ok(d, i) && !spec_ends_with(zip_names(d)[i], "/"@) && zip_payload_ok(d, i)
        && vstd::utf8::valid_utf8(zip_payload(d, i)) {
        spec_line_matches(
            p,
            vstd::utf8::decode_utf8(zip_payload(d, i)),
            entry_location(zp, zip_names(d)[i]),
            spec_entry_tag(zip_names(d)[i]),
        )
    } else {
        Seq::empty()
    }
}

pub open spec fn spec_ziptext_entries(p: Seq<char>, zp: Seq<char>, d: Seq<u8>, i: int) -> Seq<
    MatchV,
>
    decreases zip_names(d).len() - i,
    when 0 <= i <= zip_names(d).len()
{
    if i >= zip_names(d).len() {
        Seq::empty()
    } else {
        spec_ziptext_entry(p, zp, d, i) + spec_ziptext_entries(p, zp, d, i + 1)
    }
}

/// What a text-only scan over one zip-family container yields.
pub open spec fn spec_zip_text_unit(p: Seq<char>, fv: FileEntryV) -> Seq<MatchV> {
    if zip_ok(fv.data) {
        spec_ziptext_entries(p, fv.path, fv.data, 0)
    } else {
        Seq::empty()
    }
}

/// Scan one zip-family container, every non-directory entry as text.
pub fn scan_zip_text(re: &regex::Regex, f: &FileEntry) -> (r: (Vec<SearchResult>, bool))
    ensures
        r.0.deep_view() == spec_zip_text_unit(regex_source(*re), f@),
        r.1 == zip_ok(f@.data),
{
    let ghost p = regex_source(*re);
    let mut a = match zip_open(&f.data) {
        Some(a) => a,
        None => {
            let out: Vec<SearchResult> = Vec::new();
            proof {
                assert(out.deep_view() =~= Seq::<MatchV>::empty());
            }
            return (out, false);
        },
    };
    let n = zip_len(&a);
    let mut out: Vec<SearchResult> = Vec::new();
    let mut i: usize = 0;
    while i < n
        invariant
            i <= n,
            n == zip_names(f@.data).len(),
            archive_source(a) == f@.data,
            zip_ok(f@.data),
            p == regex_source(*re),
            out.deep_view() + spec_ziptext_entries(p, f@.path, f@.data, i as int)
                == spec_ziptext_entries(p, f@.path, f@.data, 0),
        decreases n - i,
    {
        match zip_entry(&mut a, i) {
            Some(pair) => {
                let name = str_chars(pair.0.as_str());
                let sl = str_chars("/");
                if !ends_with_chars(&name, &sl) {
                    match pair.1 {
                        Some(payload) => {
                            match bytes_to_text(&payload) {
                                Some(text) => {
                                    let loc = entry_loc(&f.path, pair.0.as_str());
                                    let cat = entry_tag(&name);
                                    let ms = scan_text(re, text.as_str(), &loc, &cat);
                                    append_results(&mut out, ms);
                                },
                                None => {},
                            }
                        },
                        None => {},
                    }
                }
            },
            None => {},
        }
        i += 1;
        proof {
            assert(out.deep_view() + spec_ziptext_entries(p, f@.path, f@.data, i as int)
                =~= spec_ziptext_entries(p, f@.path, f@.data, 0));
        }
    }
    (out, true)
}

/// What scanning one loose file yields: its byte lines decoded one by
/// one, each decodable line tested against the pattern; at the first
/// undecodable line either one fallback pass of coarse extraction over
/// the whole file under a `_binary`-suffixed tag (and stop), or — for
/// source files, which have no fallback — that line alone skipped.
pub open spec fn spec_loose_unit(p: Seq<char>, fv: FileEntryV, fallback: bool) -> Seq<MatchV> {
    spec_byte_matches(
        p,
        fv.data,
        fv.path,
        spec_type_tag(fv.path),
        spec_type_tag(fv.path) + "_binary"@,
        fallback,
    )
}

/// Scan one loose file line by line, with an optional one-shot binary
/// fallback at the first line whose bytes do not decode.
pub fn scan_loose_file(re: &regex::Regex, f: &FileEntry, fallback: bool) -> (out: Vec<
    SearchResult,
>)
    ensures
        out.deep_view() == spec_loose_unit(regex_source(*re), f@, fallback),
{
    let pathv = str_chars(f.path.as_str());
    let cat = type_tag(&pathv);
    let mut bcat = type_tag(&pathv);
    bcat.append("_binary");
    scan_byte_lines(re, &f.data, &f.path, &cat, &bcat, fallback)
}

/// A match originates from a file: its location is the file's path, or
/// that path extended with a colon and an entry name.
pub open spec fn from_file(m: MatchV, fv: FileEntryV) -> bool {
    m.location == fv.path || exists|nm: Seq<char>| m.location == entry_location(fv.path, nm)
}

pub proof fn lemma_class_entries_from(
    q: Seq<char>,
    exact: bool,
    jar: Seq<char>,
    d: Seq<u8>,
    i: int,
)
    requires
        0 <= i <= zip_names(d).len(),
    ensures
        forall|k: int|
            0 <= k < spec_class_entries(q, exact, jar, d, i).len() ==> exists|nm: Seq<char>|
                (#[trigger] spec_class_entries(q, exact, jar, d, i)[k]).location
                    == entry_location(jar, nm),
    decreases zip_names(d).len() - i,
{
    if i < zip_names(d).len() {
        lemma_class_entries_from(q, exact, jar, d, i + 1);
        let cur = spec_class_entries(q, exact, jar, d, i);
        let rest = spec_class_entries(q, exact, jar, d, i + 1);
        assert forall|k: int| 0 <= k < cur.len() implies exists|nm: Seq<char>|
            (#[trigger] cur[k]).location == entry_location(jar, nm) by {
            if zip_name_ok(d, i) && spec_ends_with(zip_names(d)[i], class_suffix())
                && spec_class_policy(q, exact, zip_names(d)[i]) {
                if k == 0 {
                    assert(cur[0].location == entry_location(jar, zip_names(d)[i]));
                } else {
                    assert(cur[k] == rest[k - 1]);
                }
            } else {
                assert(cur[k] == rest[k]);
            }
        }
    }
}

pub proof fn lemma_package_entries_from(q: Seq<char>, jar: Seq<char>, d: Seq<u8>, i: int)
    requires
        0 <= i <= zip_names(d).len(),
    ensures
        forall|k: int|
            0 <= k < spec_package_entries(q, jar, d, i).len() ==> exists|nm: Seq<char>|
                (#[trigger] spec_package_entries(q, jar, d, i)[k]).location == entry_location(
                    jar,
                    nm,
                ),
    decreases zip_names(d).len() - i,
{
    if i < zip_names(d).len() {
        lemma_package_entries_from(q, jar, d, i + 1);
        let cur = spec_package_entries(q, jar, d, i);
        let rest = spec_package_entries(q, jar, d, i + 1);
        assert forall|k: int| 0 <= k < cur.len() implies exists|nm: Seq<char>|
            (#[trigger] cur[k]).location == entry_location(jar, nm) by {
            if zip_name_ok(d, i) && spec_package_match(q, zip_names(d)[i]) {
                if k == 0 {
                    assert(cur[0].location == entry_location(jar, zip_names(d)[i]));
                } else {
                    assert(cur[k] == rest[k - 1]);
                }
            } else {
                assert(cur[k] == rest[k]);
            }
        }
    }
}

proof fn lemma_content_entry_from(
    p: Seq<char>,
    types: Seq<Seq<char>>,
    jar: Seq<char>,
    d: Seq<u8>,
    i: int,
)
    ensures
        forall|k: int|
            0 <= k < spec_content_entry(p, types, jar, d, i).len() ==> exists|nm: Seq<char>|
                (#[trigger] spec_content_entry(p, types, jar, d, i)[k]).location
                    == entry_location(jar, nm),
{
    if zip_name_ok(d, i) {
        let name = zip_names(d)[i];
        crate::scan::lemma_bin_scan_emitted(
            p,
            zip_payload(d, i),
            0,
            Seq::empty(),
            entry_location(jar, name),
            "class_bytecode"@,
        );
        crate::scan::lemma_line_scan_emitted(
            p,
            vstd::utf8::decode_utf8(zip_payload(d, i)),
            0,
            Seq::empty(),
            1,
            entry_location(jar, name),
            spec_entry_tag(name),
        );
    }
}

pub proof fn lemma_content_entries_from(
    p: Seq<char>,
    types: Seq<Seq<char>>,
    jar: Seq<char>,
    d: Seq<u8>,
    i: int,
)
    requires
        0 <= i <= zip_names(d).len(),
    ensures
        forall|k: int|
            0 <= k < spec_content_entries(p, types, jar, d, i).len() ==> exists|nm: Seq<char>|
                (#[trigger] spec_content_entries(p, types, jar, d, i)[k]).location
                    == entry_location(jar, nm),
    decreases zip_names(d).len() - i,
{
    if i < zip_names(d).len() {
        lemma_content_entry_from(p, types, jar, d, i);
        lemma_content_entries_from(p, types, jar, d, i + 1);
        let hd = spec_content_entry(p, types, jar, d, i);
        let cur = spec_content_entries(p, types, jar, d, i);
        let rest = spec_content_entries(p, types, jar, d, i + 1);
        assert forall|k: int| 0 <= k < cur.len() implies exists|nm: Seq<char>|
            (#[trigger] cur[k]).location == entry_location(jar, nm) by {
            if k < hd.len() {
                assert(cur[k] == hd[k]);
            } else {
                assert(cur[k] == rest[k - hd.len()]);
            }
        }
    }
}

pub proof fn lemma_ziptext_entries_from(p: Seq<char>, zp: Seq<char>, d: Seq<u8>, i: int)
    requires
        0 <= i <= zip_names(d).len(),
    ensures
        forall|k: int|
            0 <= k < spec_ziptext_entries(p, zp, d, i).len() ==> exists|nm: Seq<char>|
                (#[trigger] spec_ziptext_entries(p, zp, d, i)[k]).location == entry_location(
                    zp,
                    nm,
                ),
    decreases zip_names(d).len() - i,
{
    if i < zip_names(d).len() {
        if zip_name_ok(d, i) {
            let name = zip_names(d)[i];
            crate::scan::lemma_line_scan_emitted(
                p,
                vstd::utf8::decode_utf8(zip_payload(d, i)),
                0,
                Seq::empty(),
                1,
                entry_location(zp, name),
                spec_entry_tag(name),
            );
        }
        lemma_ziptext_entries_from(p, zp, d, i + 1);
        let hd = spec_ziptext_entry(p, zp, d, i);
        let cur = spec_ziptext_entries(p, zp, d, i);
        let rest = spec_ziptext_entries(p, zp, d, i + 1);
        assert forall|k: int| 0 <= k < cur.len() implies exists|nm: Seq<char>|
            (#[trigger] cur[k]).location == entry_location(zp, nm) by {
            if k < hd.len() {
                assert(cur[k] == hd[k]);
                assert(hd[k].location == entry_location(zp, zip_names(d)[i]));
            } else {
                assert(cur[k] == rest[k - hd.len()]);
            }
        }
    }
}

/// Every match one unit yields originates from that unit's file.
pub proof fn lemma_jar_class_unit_from(q: Seq<char>, exact: bool, fv: FileEntryV)
    ensures
        forall|k: int|
            0 <= k < spec_jar_class_unit(q, exact, fv).len() ==> from_file(
                #[trigger] spec_jar_class_unit(q, exact, fv)[k],
                fv,
            ),
{
    if zip_ok(fv.data) {
        lemma_class_entries_from(q, exact, fv.path, fv.data, 0);
    }
}

pub proof fn lemma_jar_package_unit_from(q: Seq<char>, fv: FileEntryV)
    ensures
        forall|k: int|
            0 <= k < spec_jar_package_unit(q, fv).len() ==> from_file(
                #[trigger] spec_jar_package_unit(q, fv)[k],
                fv,
            ),
{
    if zip_ok(fv.data) {
        lemma_package_entries_from(q, fv.path, fv.data, 0);
    }
}

pub proof fn lemma_jar_content_unit_from(p: Seq<char>, types: Seq<Seq<char>>, fv: FileEntryV)
    ensures
        forall|k: int|
            0 <= k < spec_jar_content_unit(p, types, fv).len() ==> from_file(
                #[trigger] spec_jar_content_unit(p, types, fv)[k],
                fv,
            ),
{
    if zip_ok(fv.data) {
        lemma_content_entries_from(p, types, fv.path, fv.data, 0);
    }
}

pub proof fn lemma_zip_text_unit_from(p: Seq<char>, fv: FileEntryV)
    ensures
        forall|k: int|
            0 <= k < spec_zip_text_unit(p, fv).len() ==> from_file(
                #[trigger] spec_zip_text_unit(p, fv)[k],
                fv,
            ),
{
    if zip_ok(fv.data) {
        lemma_ziptext_entries_from(p, fv.path, fv.data, 0);
    }
}

pub proof fn lemma_loose_unit_from(p: Seq<char>, fv: FileEntryV, fallback: bool)
    ensures
        forall|k: int|
            0 <= k < spec_loose_unit(p, fv, fallback).len() ==> from_file(
                #[trigger] spec_loose_unit(p, fv, fallback)[k],
                fv,
            ),
{
    crate::scan::lemma_byte_scan_emitted(
        p,
        fv.data,
        0,
        Seq::empty(),
        1,
        fv.path,
        spec_type_tag(fv.path),
        spec_type_tag(fv.path) + "_binary"@,
        fallback,
    );
}

/// Count a container's class entries, source entries, and payload
/// entries (directories skipped), for the analysis report.
pub fn count_entries(f: &FileEntry) -> (r: (usize, usize, usize))
    ensures
        r.0 as int == spec_jar_content_counts(f@).0,
        r.1 as int == spec_jar_content_counts(f@).1,
        r.2 as int == spec_jar_content_counts(f@).0 + spec_jar_content_counts(f@).1
            + spec_jar_content_counts(f@).2,
{
    let mut a = match zip_open(&f.data) {
        Some(a) => a,
        None => {
            return (0, 0, 0);
        },
    };
    let n = zip_len(&a);
    let mut c_class: usize = 0;
    let mut c_java: usize = 0;
    let mut c_other: usize = 0;
    let mut i: usize = 0;
    proof {
        lemma_entry_counts_bound(f@.data, 0);
    }
    while i < n
        invariant
            i <= n,
            n == zip_names(f@.data).len(),
            archive_source(a) == f@.data,
            zip_ok(f@.data),
            c_class + c_java + c_other <= i,
            c_class + spec_entry_counts(f@.data, i as int).0 == spec_entry_counts(f@.data, 0).0,
            c_java + spec_entry_counts(f@.data, i as int).1 == spec_entry_counts(f@.data, 0).1,
            c_other + spec_entry_counts(f@.data, i as int).2 == spec_entry_counts(f@.data, 0).2,
        decreases n - i,
    {
        proof {
            lemma_entry_counts_bound(f@.data, i as int);
            lemma_entry_counts_bound(f@.data, i + 1);
        }
        match zip_entry(&mut a, i) {
            Some(pair) => {
                let name = str_chars(pair.0.as_str());
                let sl = str_chars("/");
                if !ends_with_chars(&name, &sl) {
                    let cl = str_chars(".class");
                    let ja = str_chars(".java");
                    if ends_with_chars(&name, &cl) {
                        c_class += 1;
                    } else if ends_with_chars(&name, &ja) {
                        c_java += 1;
                    } else {
                        c_other += 1;
                    }
                }
            },
            None => {},
        }
        i += 1;
    }
    proof {
        lemma_entry_counts_bound(f@.data, 0);
    }
    (c_class, c_java, c_class + c_java + c_other)
}

} // verus!
