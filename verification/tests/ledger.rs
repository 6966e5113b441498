use bo::ledger::{is_duplicate, keep_parsed_entries, ledger_lines, LedgerEntry, ParsedLine};

fn make_entry(url: &str, file: &str) -> LedgerEntry {
    LedgerEntry {
        url: url.to_string(),
        fetched_at: "2025-01-15T09:32:00Z".to_string(),
        file: file.to_string(),
    }
}

#[test]
fn duplicate_detection_exact_match() {
    let entries = vec![make_entry("https://example.com/article", "article.md")];
    assert!(is_duplicate(&entries, "https://example.com/article").is_some());
}

#[test]
fn near_duplicate_not_detected() {
    let entries = vec![make_entry("https://example.com/article", "article.md")];
    assert!(is_duplicate(&entries, "https://example.com/article?ref=twitter").is_none());
}

#[test]
fn failed_url_not_in_ledger_can_resubmit() {
    // Only successful fetches go in the ledger.
    // A URL that failed previously should not be blocked.
    let entries = vec![make_entry("https://example.com/success", "success.md")];
    assert!(is_duplicate(&entries, "https://example.com/failed").is_none());
}

#[test]
fn duplicate_returns_first_matching_entry() {
    let entries = vec![
        make_entry("https://a.com", "a.md"),
        make_entry("https://b.com", "b1.md"),
        make_entry("https://b.com", "b2.md"),
    ];
    let found = is_duplicate(&entries, "https://b.com").unwrap();
    assert_eq!(found.file, "b1.md");
    assert!(is_duplicate(&[], "https://b.com").is_none());
}

#[test]
fn json_line_matches_serde_layout() {
    let entry = make_entry("https://example.com", "example.md");
    let line = entry.to_json_line().unwrap();
    assert_eq!(
        line,
        r#"{"url":"https://example.com","fetched_at":"2025-01-15T09:32:00Z","file":"example.md"}"#
    );
}

#[test]
fn json_line_escapes_special_characters() {
    let entry = LedgerEntry {
        url: "https://example.com/?q=\"a\\b\"".to_string(),
        fetched_at: "line\nbreak\ttab\u{1}".to_string(),
        file: "caf\u{e9}.md".to_string(),
    };
    let line = entry.to_json_line().unwrap();
    assert_eq!(
        line,
        "{\"url\":\"https://example.com/?q=\\\"a\\\\b\\\"\",\"fetched_at\":\"line\\nbreak\\ttab\\u0001\",\"file\":\"caf\u{e9}.md\"}"
    );
    assert!(!line.contains('\n'));
}

#[test]
fn ledger_lines_skip_blank_and_number_from_one() {
    let content = "  {\"a\":1}  \n\n\t\n{\"b\":2}\r\nlast";
    let lines = ledger_lines(content);
    assert_eq!(lines.len(), 3);
    assert_eq!(lines[0].number, 1);
    assert_eq!(lines[0].text, "{\"a\":1}");
    assert_eq!(lines[1].number, 4);
    assert_eq!(lines[1].text, "{\"b\":2}");
    assert_eq!(lines[2].number, 5);
    assert_eq!(lines[2].text, "last");
}

#[test]
fn ledger_lines_of_empty_text() {
    assert!(ledger_lines("").is_empty());
    assert!(ledger_lines("\n \n\u{a0}\n").is_empty());
}

#[test]
fn appended_entry_reads_back_as_next_line() {
    let first = make_entry("https://a.com", "a.md").to_json_line().unwrap();
    let second = make_entry("https://b.com", "b.md").to_json_line().unwrap();
    let mut content = String::new();
    content.push_str(&first);
    content.push('\n');
    let before = ledger_lines(&content);
    content.push_str(&second);
    content.push('\n');
    let after = ledger_lines(&content);
    assert_eq!(before.len(), 1);
    assert_eq!(after.len(), 2);
    assert_eq!(after[1].number, 2);
    assert_eq!(after[1].text, second);
}

#[test]
fn malformed_lines_are_skipped_with_a_warning() {
    let lines = vec![
        ParsedLine { number: 1, parsed: Ok(make_entry("https://a.com", "a.md")) },
        ParsedLine { number: 2, parsed: Err("expected value at line 1 column 1".to_string()) },
        ParsedLine { number: 4, parsed: Ok(make_entry("https://b.com", "b.md")) },
        ParsedLine { number: 12, parsed: Err("EOF while parsing".to_string()) },
    ];
    let (entries, warnings) = keep_parsed_entries(&lines, "ledger");
    assert_eq!(entries.len(), 2);
    assert_eq!(entries[0].url, "https://a.com");
    assert_eq!(entries[1].file, "b.md");
    assert_eq!(
        warnings,
        vec![
            "warning: skipping malformed ledger line 2: expected value at line 1 column 1".to_string(),
            "warning: skipping malformed ledger line 12: EOF while parsing".to_string(),
        ]
    );
    let (none, no_warnings) = keep_parsed_entries(&Vec::new(), "index");
    assert!(none.is_empty() && no_warnings.is_empty());
}
