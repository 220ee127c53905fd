use std::io::Write;
use jartool::tool::{FileEntry, JarTool, SearchError};

fn make_zip(entries: &[(&str, &[u8])]) -> Vec<u8> {
    let cursor = std::io::Cursor::new(Vec::new());
    let mut w = zip::ZipWriter::new(cursor);
    let options = zip::write::SimpleFileOptions::default();
    for (name, data) in entries {
        w.start_file(*name, options).expect("start entry");
        w.write_all(data).expect("write entry");
    }
    w.finish().expect("finish archive").into_inner()
}

fn file(path: &str, data: &[u8]) -> FileEntry {
    FileEntry { path: path.to_string(), size: data.len() as u64, data: data.to_vec() }
}

#[test]
fn exact_class_search_finds_class_entries() {
    let jar = make_zip(&[
        ("com/foo/Bar.class", b"\x00\x01"),
        ("com/fooBar.class", b"\x00\x01"),
        ("com/foo/Other.class", b"\x00\x01"),
        ("META-INF/MANIFEST.MF", b"Manifest-Version: 1.0\n"),
    ]);
    let files = vec![file("lib/app.jar", &jar), file("notes.txt", b"Bar\n")];
    let mut tool = JarTool::new(false, 0, 1, Vec::new(), false);
    tool.search_exact_class("Bar", &files).expect("search runs");
    let results = tool.results();
    assert_eq!(results.len(), 1);
    assert_eq!(results[0].file_location, "lib/app.jar:com/foo/Bar.class");
    assert_eq!(results[0].line_content, "com.foo.Bar");
    assert_eq!(results[0].match_type, "class");
    assert_eq!(results[0].line_number, None);
    let stats = tool.stats();
    assert_eq!(stats.total_jars, 1);
    assert_eq!(stats.total_class_files, 3);
    assert_eq!(stats.files_processed, 1);
    assert_eq!(stats.matches_found, 1);
}

#[test]
fn class_substring_search_matches_anywhere() {
    let jar = make_zip(&[
        ("com/foo/Bar.class", b""),
        ("com/fooBar.class", b""),
        ("net/Baz.class", b""),
    ]);
    let files = vec![file("app.jar", &jar)];
    let mut tool = JarTool::new(false, 0, 1, Vec::new(), false);
    tool.search_class_substring("Bar", &files).expect("search runs");
    assert_eq!(tool.results().len(), 2);
    assert_eq!(tool.stats().matches_found, 2);
}

#[test]
fn package_search_respects_directory_boundary() {
    let jar = make_zip(&[
        ("com/foo/Bar.class", b""),
        ("com/foobar/Baz.class", b""),
        ("com/foo/notes.txt", b"x"),
    ]);
    let files = vec![file("app.jar", &jar)];
    let mut tool = JarTool::new(false, 0, 1, Vec::new(), false);
    tool.search_package("com.foo", &files).expect("search runs");
    let results = tool.results();
    assert_eq!(results.len(), 1);
    assert_eq!(results[0].file_location, "app.jar:com/foo/Bar.class");
    assert_eq!(results[0].match_type, "package");
}

#[test]
fn content_search_scans_class_bytecode_and_text_entries() {
    let jar = make_zip(&[
        ("com/X.class", b"\x00\x01secretFlagValue\x02"),
        ("conf/app.properties", b"name=alpha\nsecretFlagValue=on\n"),
    ]);
    let files = vec![file("app.jar", &jar)];
    let mut tool = JarTool::new(false, 0, 1, Vec::new(), false);
    let types = vec!["*".to_string()];
    tool.search_content("secretFlagValue", &files, &types).expect("pattern compiles");
    let results = tool.results();
    assert_eq!(results.len(), 2);
    let bin = results.iter().find(|r| r.match_type == "class_bytecode").expect("bytecode match");
    assert_eq!(bin.file_location, "app.jar:com/X.class");
    assert_eq!(bin.line_content, "secretFlagValue");
    assert_eq!(bin.line_number, None);
    let text = results.iter().find(|r| r.match_type == "properties").expect("text match");
    assert_eq!(text.file_location, "app.jar:conf/app.properties");
    assert_eq!(text.line_number, Some(2));
    assert_eq!(text.line_content, "secretFlagValue=on");
}

#[test]
fn content_search_type_filter_limits_entries() {
    let jar = make_zip(&[
        ("com/X.class", b"\x00\x01secretFlagValue\x02"),
        ("conf/app.properties", b"secretFlagValue=on\n"),
    ]);
    let files = vec![file("app.jar", &jar)];
    let mut tool = JarTool::new(false, 0, 1, Vec::new(), false);
    let types = vec!["other".to_string()];
    tool.search_content("secretFlagValue", &files, &types).expect("pattern compiles");
    assert_eq!(tool.results().len(), 1);
    assert_eq!(tool.results()[0].match_type, "properties");
}

#[test]
fn invalid_pattern_fails_fast() {
    let files = vec![file("a.txt", b"anything")];
    let mut tool = JarTool::new(false, 0, 1, Vec::new(), false);
    let types = vec!["*".to_string()];
    assert_eq!(
        tool.search_content("[unclosed", &files, &types),
        Err(SearchError::InvalidPattern)
    );
    assert_eq!(tool.master_search("[unclosed", &files), Err(SearchError::InvalidPattern));
    assert_eq!(tool.results().len(), 0);
    assert_eq!(tool.stats().matches_found, 0);
}

#[test]
fn master_search_covers_every_file_kind() {
    let jar = make_zip(&[("com/X.class", b"\x00\x01needleInJar!\x02")]);
    let zipf = make_zip(&[("docs/readme.txt", b"a needleInZip line\n")]);
    let files = vec![
        file("lib/app.jar", &jar),
        file("bundle.zip", &zipf),
        file("src/Main.java", b"// needleInJava\nclass Main {}\n"),
        file("conf/app.properties", b"needleInProps=1\n"),
        file("data.bin", b"\xff\xfe\x00needleInBinary\x01"),
    ];
    let mut tool = JarTool::new(false, 0, 1, Vec::new(), false);
    tool.master_search("needle", &files).expect("pattern compiles");
    let results = tool.results();
    assert_eq!(results.len(), 5);
    let locs: Vec<&str> = results.iter().map(|r| r.file_location.as_str()).collect();
    assert!(locs.contains(&"lib/app.jar:com/X.class"));
    assert!(locs.contains(&"bundle.zip:docs/readme.txt"));
    assert!(locs.contains(&"src/Main.java"));
    assert!(locs.contains(&"conf/app.properties"));
    assert!(locs.contains(&"data.bin"));
    let bin = results.iter().find(|r| r.file_location == "data.bin").expect("binary fallback");
    assert_eq!(bin.match_type, "bin_binary");
    assert_eq!(bin.line_content, "needleInBinary");
    let stats = tool.stats();
    assert_eq!(stats.total_jars, 1);
    assert_eq!(stats.total_zip_files, 1);
    assert_eq!(stats.total_java_files, 1);
    assert_eq!(stats.total_other_files, 2);
    assert_eq!(stats.files_processed, 5);
    assert_eq!(stats.matches_found, 5);
}

#[test]
fn mini_mode_counts_raw_matches_but_keeps_one_per_location() {
    // N raw matches over M distinct locations: M results, N counted
    let files = vec![
        file("a.txt", b"hit one\nhit two\n"),
        file("b.txt", b"hit three\nhit four\nhit five\n"),
        file("c.txt", b"nothing here\n"),
    ];
    let mut tool = JarTool::new(false, 0, 1, Vec::new(), true);
    tool.master_search("hit", &files).expect("pattern compiles");
    let results = tool.results();
    assert_eq!(results.len(), 2);
    assert!(results.iter().all(|r| r.line_content == "Found matches"));
    assert!(results.iter().all(|r| r.line_number.is_none()));
    assert_eq!(tool.stats().matches_found, 5);
}

#[test]
fn full_mode_keeps_every_raw_match() {
    let files = vec![file("a.txt", b"hit one\nhit two\n")];
    let mut tool = JarTool::new(false, 0, 1, Vec::new(), false);
    tool.master_search("hit", &files).expect("pattern compiles");
    assert_eq!(tool.results().len(), 2);
    assert_eq!(tool.stats().matches_found, 2);
}

#[test]
fn excluded_paths_yield_no_matches_and_no_counts() {
    let files = vec![
        file("work/skipme/secret.txt", b"needle\n"),
        file("work/keep/ok.txt", b"needle\n"),
    ];
    let excludes = vec!["skipme".to_string()];
    let mut tool = JarTool::new(false, 0, 1, excludes, false);
    tool.master_search("needle", &files).expect("pattern compiles");
    let results = tool.results();
    assert_eq!(results.len(), 1);
    assert_eq!(results[0].file_location, "work/keep/ok.txt");
    assert_eq!(tool.stats().total_other_files, 1);
    assert_eq!(tool.stats().files_processed, 1);
}

#[test]
fn size_threshold_skips_small_top_level_files() {
    let files = vec![
        file("small.txt", b"needle\n"),
        file("big.txt", b"needle with padding to pass the threshold\n"),
    ];
    let mut tool = JarTool::new(false, 10, 1, Vec::new(), false);
    tool.master_search("needle", &files).expect("pattern compiles");
    assert_eq!(tool.results().len(), 1);
    assert_eq!(tool.results()[0].file_location, "big.txt");
    // threshold zero disables the filter
    let files2 = vec![file("small.txt", b"needle\n")];
    let mut tool2 = JarTool::new(false, 0, 1, Vec::new(), false);
    tool2.master_search("needle", &files2).expect("pattern compiles");
    assert_eq!(tool2.results().len(), 1);
}

#[test]
fn corrupt_container_is_skipped_not_fatal() {
    let files = vec![
        file("broken.jar", b"this is not a zip archive"),
        file("fine.txt", b"needle\n"),
    ];
    let mut tool = JarTool::new(false, 0, 1, Vec::new(), false);
    tool.master_search("needle", &files).expect("pattern compiles");
    assert_eq!(tool.results().len(), 1);
    assert_eq!(tool.results()[0].file_location, "fine.txt");
    // the broken container was seen but never fully processed
    assert_eq!(tool.stats().total_jars, 1);
    assert_eq!(tool.stats().files_processed, 1);
}

#[test]
fn repeated_runs_agree_exactly() {
    let jar = make_zip(&[
        ("com/A.class", b"\x00\x01needleAlpha\x02"),
        ("conf/b.properties", b"x=needleBeta\n"),
    ]);
    let files = vec![
        file("app.jar", &jar),
        file("doc.txt", b"needleGamma\nneedleDelta\n"),
    ];
    let mut t1 = JarTool::new(false, 0, 1, Vec::new(), false);
    t1.master_search("needle", &files).expect("pattern compiles");
    let mut t2 = JarTool::new(false, 0, 1, Vec::new(), false);
    t2.master_search("needle", &files).expect("pattern compiles");
    let r1 = t1.results();
    let r2 = t2.results();
    assert_eq!(r1.len(), r2.len());
    for (a, b) in r1.iter().zip(r2.iter()) {
        assert_eq!(a.file_location, b.file_location);
        assert_eq!(a.line_number, b.line_number);
        assert_eq!(a.line_content, b.line_content);
        assert_eq!(a.match_type, b.match_type);
    }
    assert_eq!(t1.stats().matches_found, t2.stats().matches_found);
    assert_eq!(t1.stats().files_processed, t2.stats().files_processed);
}

#[test]
fn java_file_search_by_name_and_by_content() {
    let files = vec![
        file("src/FooTest.java", b"class FooTest { /* needle */ }\n"),
        file("src/Plain.java", b"class Plain {}\n"),
        file("other.txt", b"needle FooTest\n"),
    ];
    let mut t = JarTool::new(false, 0, 1, Vec::new(), false);
    t.search_java_files("Test", &files, false).expect("search runs");
    assert_eq!(t.results().len(), 1);
    assert_eq!(t.results()[0].file_location, "src/FooTest.java");
    assert_eq!(t.results()[0].match_type, "java_filename");
    assert_eq!(t.results()[0].line_content, "Java file name match");
    assert_eq!(t.stats().total_java_files, 2);

    let mut t2 = JarTool::new(false, 0, 1, Vec::new(), false);
    t2.search_java_files("needle", &files, true).expect("pattern compiles");
    assert_eq!(t2.results().len(), 1);
    assert_eq!(t2.results()[0].file_location, "src/FooTest.java");
    assert_eq!(t2.results()[0].line_number, Some(1));
}

#[test]
fn java_name_search_respects_exclusions() {
    let files = vec![
        file("src/FooTest.java", b"class FooTest {}\n"),
        file("vendor/BarTest.java", b"class BarTest { /* needle */ }\n"),
    ];
    let excludes = vec!["vendor".to_string()];
    let mut t = JarTool::new(false, 0, 1, excludes.clone(), false);
    t.search_java_files("Test", &files, false).expect("search runs");
    assert_eq!(t.results().len(), 1);
    assert_eq!(t.results()[0].file_location, "src/FooTest.java");
    assert_eq!(t.stats().total_java_files, 1);

    let mut t2 = JarTool::new(false, 0, 1, excludes, false);
    t2.search_java_files("needle", &files, true).expect("pattern compiles");
    assert_eq!(t2.results().len(), 0);
    assert_eq!(t2.stats().total_java_files, 1);
}

#[test]
fn decodable_lines_before_bad_bytes_still_match() {
    // master mode: the matching first line is kept, then the one-shot
    // binary fallback runs over the whole file
    let mut data = b"good needle line\n".to_vec();
    data.extend_from_slice(&[0xff, 0xfe, b'g', b'a', b'r', b'b']);
    let files = vec![file("notes.txt", &data)];
    let mut tool = JarTool::new(false, 0, 1, Vec::new(), false);
    tool.master_search("needle", &files).expect("pattern compiles");
    let results = tool.results();
    let text = results
        .iter()
        .find(|r| r.match_type == "text_file")
        .expect("text match kept");
    assert_eq!(text.line_number, Some(1));
    assert_eq!(text.line_content, "good needle line");
    let bin = results
        .iter()
        .find(|r| r.match_type == "text_file_binary")
        .expect("binary fallback ran");
    assert_eq!(bin.line_number, None);
    assert_eq!(bin.line_content, "good needle line");
}

#[test]
fn source_file_skips_undecodable_lines_individually() {
    // no fallback for source files: the bad line is skipped, lines
    // before and after still match, numbering counts the skipped line
    let mut data = b"first needle\n".to_vec();
    data.extend_from_slice(&[0xff, 0xfe, 0x0a]);
    data.extend_from_slice(b"third needle\n");
    let files = vec![file("src/A.java", &data)];
    let mut tool = JarTool::new(false, 0, 1, Vec::new(), false);
    tool.search_java_files("needle", &files, true).expect("pattern compiles");
    let results = tool.results();
    assert_eq!(results.len(), 2);
    assert_eq!(results[0].line_number, Some(1));
    assert_eq!(results[0].line_content, "first needle");
    assert_eq!(results[1].line_number, Some(3));
    assert_eq!(results[1].line_content, "third needle");
}

#[test]
fn unreadable_text_entry_in_zip_is_skipped() {
    // a zip-family container scanned as text only: a non-UTF-8 entry
    // is skipped, the rest still processed
    let zipf = make_zip(&[
        ("bin/raw.dat", b"\xff\xfe\x00needleHere\x01"),
        ("doc/a.txt", b"needleHere\n"),
    ]);
    let files = vec![file("b.zip", &zipf)];
    let mut tool = JarTool::new(false, 0, 1, Vec::new(), false);
    tool.master_search("needleHere", &files).expect("pattern compiles");
    assert_eq!(tool.results().len(), 1);
    assert_eq!(tool.results()[0].file_location, "b.zip:doc/a.txt");
}
