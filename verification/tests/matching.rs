use jartool::classify::{classify, type_tag, entry_tag, FileCategory};
use jartool::matching::{dotted_name, exact_match, substring_match, package_match};
use jartool::scan::{scan_binary, scan_text};
use jartool::text::{trim_chars, decimal_chars, str_contains};

fn chars(s: &str) -> Vec<char> {
    s.chars().collect()
}

#[test]
fn classify_assigns_each_extension_one_category() {
    assert_eq!(classify(&chars("lib/app.jar")), FileCategory::Jar);
    assert_eq!(classify(&chars("a.zip")), FileCategory::ZipFamily);
    assert_eq!(classify(&chars("a.war")), FileCategory::ZipFamily);
    assert_eq!(classify(&chars("a.ear")), FileCategory::ZipFamily);
    assert_eq!(classify(&chars("src/Main.java")), FileCategory::Java);
    assert_eq!(classify(&chars("app.properties")), FileCategory::Config);
    assert_eq!(classify(&chars("run.sh")), FileCategory::Script);
    assert_eq!(classify(&chars("pom.xml")), FileCategory::Markup);
    assert_eq!(classify(&chars("notes.txt")), FileCategory::Text);
    assert_eq!(classify(&chars("data.bin")), FileCategory::Other);
    assert_eq!(classify(&chars("README")), FileCategory::Other);
    assert_eq!(classify(&chars("APP.JAR")), FileCategory::Jar);
}

#[test]
fn type_tags_follow_the_extension() {
    assert_eq!(type_tag(&chars("a/app.properties")), "properties_config");
    assert_eq!(type_tag(&chars("x.conf")), "configuration");
    assert_eq!(type_tag(&chars("x.bat")), "batch_script");
    assert_eq!(type_tag(&chars("x.sh")), "shell_script");
    assert_eq!(type_tag(&chars("x.xml")), "xml_document");
    assert_eq!(type_tag(&chars("x.json")), "json_data");
    assert_eq!(type_tag(&chars("x.yml")), "yaml_data");
    assert_eq!(type_tag(&chars("x.md")), "markdown");
    assert_eq!(type_tag(&chars("x.ps1")), "powershell_script");
    assert_eq!(type_tag(&chars("x.weird")), "weird");
    assert_eq!(type_tag(&chars("README")), "no_extension");
    assert_eq!(entry_tag(&chars("conf/app.properties")), "properties");
    assert_eq!(entry_tag(&chars("plain")), "plain");
}

#[test]
fn dotted_name_strips_suffix_and_dots_separators() {
    let d = dotted_name(&chars("com/foo/Bar.class"));
    let s: String = d.into_iter().collect();
    assert_eq!(s, "com.foo.Bar");
}

#[test]
fn exact_match_accepts_suffix_class_only() {
    // query `Bar` matches `com.foo.Bar` and `Bar`, but not `FooBar`
    assert!(exact_match(&chars("Bar"), &chars("com.foo.Bar")));
    assert!(exact_match(&chars("Bar"), &chars("Bar")));
    assert!(!exact_match(&chars("Bar"), &chars("FooBar")));
    assert!(!exact_match(&chars("Bar"), &chars("com.fooBar")));
    // a fully qualified query matches only that dotted name
    assert!(exact_match(&chars("com.foo.Bar"), &chars("com.foo.Bar")));
    assert!(!exact_match(&chars("com.foo.Bar"), &chars("com.fooBar")));
    assert!(!exact_match(&chars("com.foo.Bar"), &chars("com.foo.Baz")));
}

#[test]
fn substring_match_finds_query_anywhere() {
    assert!(substring_match(&chars("oo.B"), &chars("com.foo.Bar")));
    assert!(!substring_match(&chars("baz"), &chars("com.foo.Bar")));
    assert!(substring_match(&chars(""), &chars("anything")));
}

#[test]
fn package_match_requires_directory_boundary() {
    // `com.foo` matches entries under `com/foo/` with the class suffix
    assert!(package_match(&chars("com.foo"), &chars("com/foo/Bar.class")));
    assert!(package_match(&chars("com.foo"), &chars("com/foo/sub/Baz.class")));
    // it does not match an entry under `com/foobar/`
    assert!(!package_match(&chars("com.foo"), &chars("com/foobar/Baz.class")));
    // nor a non-class entry
    assert!(!package_match(&chars("com.foo"), &chars("com/foo/notes.txt")));
}

#[test]
fn binary_extraction_emits_each_long_printable_run_once() {
    let re = regex::Regex::new("ABCD").expect("pattern compiles");
    let loc = String::from("x.bin");
    let cat = String::from("bin");
    // `\x00ABCD\x01` yields exactly one match with content `ABCD`
    let out = scan_binary(&re, &vec![0u8, b'A', b'B', b'C', b'D', 1u8], &loc, &cat);
    assert_eq!(out.len(), 1);
    assert_eq!(out[0].line_content, "ABCD");
    assert_eq!(out[0].file_location, "x.bin");
    assert_eq!(out[0].match_type, "bin");
    assert_eq!(out[0].line_number, None);
    // a matching run never yields more than one match for internal repeats
    let rep = regex::Regex::new("AB").expect("pattern compiles");
    let out = scan_binary(&rep, &vec![0u8, b'A', b'B', b'A', b'B', 1u8], &loc, &cat);
    assert_eq!(out.len(), 1);
    assert_eq!(out[0].line_content, "ABAB");
}

#[test]
fn binary_extraction_drops_runs_shorter_than_four() {
    let loc = String::from("x.bin");
    let cat = String::from("bin");
    // `\x00AB\x01` yields none, regardless of pattern
    let matchall = regex::Regex::new(".*").expect("pattern compiles");
    let out = scan_binary(&matchall, &vec![0u8, b'A', b'B', 1u8], &loc, &cat);
    assert_eq!(out.len(), 0);
    let exact = regex::Regex::new("AB").expect("pattern compiles");
    let out = scan_binary(&exact, &vec![0u8, b'A', b'B', 1u8], &loc, &cat);
    assert_eq!(out.len(), 0);
}

#[test]
fn line_scan_numbers_lines_and_trims_content() {
    let re = regex::Regex::new("needle").expect("pattern compiles");
    let loc = String::from("notes.txt");
    let cat = String::from("text_file");
    let out = scan_text(&re, "none\n  a needle here  \r\nlast needle", &loc, &cat);
    assert_eq!(out.len(), 2);
    assert_eq!(out[0].line_number, Some(2));
    assert_eq!(out[0].line_content, "a needle here");
    assert_eq!(out[1].line_number, Some(3));
    assert_eq!(out[1].line_content, "last needle");
}

#[test]
fn text_utilities_behave() {
    let t = trim_chars(&chars("  ab c\t\n"));
    let s: String = t.into_iter().collect();
    assert_eq!(s, "ab c");
    let t = trim_chars(&chars("\u{a0}wide\u{3000}"));
    let s: String = t.into_iter().collect();
    assert_eq!(s, "wide");
    let d = decimal_chars(90210);
    let s: String = d.into_iter().collect();
    assert_eq!(s, "90210");
    assert!(str_contains("target/classes", "t/c"));
    assert!(!str_contains("target/classes", "T/C"));
}
