use jartool::records::{record_of, match_of_record, export_header};
use jartool::results::SearchResult;
use jartool::tool::{FileEntry, JarTool};

fn sample(loc: &str, line: Option<usize>, content: &str, tag: &str) -> SearchResult {
    SearchResult {
        file_location: loc.to_string(),
        line_number: line,
        line_content: content.to_string(),
        match_type: tag.to_string(),
    }
}

#[test]
fn header_names_the_four_columns() {
    let h = export_header();
    assert_eq!(h, vec!["file_location", "line", "line_content", "match_type"]);
}

#[test]
fn record_round_trip_recovers_every_field() {
    let originals = vec![
        sample("a.jar:com/X.class", None, "com.X", "class"),
        sample("conf/app.properties", Some(42), "key=needle", "properties_config"),
        sample("notes.txt", Some(1), "needle, with commas", "text_file"),
    ];
    let rows: Vec<Vec<String>> = originals.iter().map(record_of).collect();
    assert_eq!(rows.len(), originals.len());
    for (row, m) in rows.iter().zip(originals.iter()) {
        let back = match_of_record(row).expect("row parses");
        assert_eq!(back.file_location, m.file_location);
        assert_eq!(back.line_number, m.line_number);
        assert_eq!(back.line_content, m.line_content);
        assert_eq!(back.match_type, m.match_type);
    }
}

#[test]
fn absent_line_number_round_trips_through_empty_field() {
    let m = sample("x.bin", None, "run", "other_binary");
    let row = record_of(&m);
    assert_eq!(row[1], "");
    let back = match_of_record(&row).expect("row parses");
    assert_eq!(back.line_number, None);
}

#[test]
fn line_numbers_render_as_decimal() {
    let m = sample("a.txt", Some(90210), "x", "text_file");
    let row = record_of(&m);
    assert_eq!(row[1], "90210");
    let back = match_of_record(&row).expect("row parses");
    assert_eq!(back.line_number, Some(90210));
}

#[test]
fn export_csv_writes_header_and_one_row_per_match() {
    let files = vec![FileEntry {
        path: "a.txt".to_string(),
        size: 12,
        data: b"one hit\ntwo hit\n".to_vec(),
    }];
    let mut tool = JarTool::new(false, 0, 1, Vec::new(), false);
    tool.master_search("hit", &files).expect("pattern compiles");
    let rows = tool.export_csv();
    assert_eq!(rows.len(), 3);
    assert_eq!(rows[0], export_header());
    assert_eq!(rows[1], vec!["a.txt", "1", "one hit", "text_file"]);
    assert_eq!(rows[2], vec!["a.txt", "2", "two hit", "text_file"]);
    // re-reading the rows recovers the matches
    for (row, orig) in rows[1..].iter().zip(tool.results().iter()) {
        let back = match_of_record(row).expect("row parses");
        assert_eq!(back.file_location, orig.file_location);
        assert_eq!(back.line_number, orig.line_number);
        assert_eq!(back.line_content, orig.line_content);
        assert_eq!(back.match_type, orig.match_type);
    }
}

#[test]
fn malformed_rows_are_rejected() {
    let short = vec!["a".to_string(), "1".to_string()];
    assert!(match_of_record(&short).is_none());
    let bad_line = vec![
        "a".to_string(),
        "12x".to_string(),
        "c".to_string(),
        "t".to_string(),
    ];
    assert!(match_of_record(&bad_line).is_none());
}
