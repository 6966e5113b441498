use bo::markdown::{document_file_name, format_document};

#[test]
fn format_with_all_fields() {
    let doc = format_document(
        Some("My Article"),
        "https://example.com",
        "2025-01-15T09:32:00Z",
        "Some content here.",
    );
    assert!(doc.starts_with("---\n"));
    assert!(doc.contains("title: \"My Article\""));
    assert!(doc.contains("url: https://example.com"));
    assert!(doc.contains("fetched: 2025-01-15T09:32:00Z"));
    assert!(doc.contains("# My Article"));
    assert!(doc.contains("Some content here."));
}

#[test]
fn format_with_no_title() {
    let doc = format_document(
        None,
        "https://example.com",
        "2025-01-15T09:32:00Z",
        "Body only.",
    );
    assert!(doc.contains("title: \"\""));
    assert!(!doc.contains("# ")); // No heading
}

#[test]
fn format_escapes_yaml_special_chars() {
    let doc = format_document(
        Some("Rust: A \"Fast\" Language"),
        "https://example.com",
        "2025-01-15T09:32:00Z",
        "Content.",
    );
    assert!(doc.contains(r#"title: "Rust: A \"Fast\" Language""#));
}

#[test]
fn format_whole_document_exactly() {
    let doc = format_document(Some("A \\ B"), "https://x.org", "2025-01-01T00:00:00Z", "Body.");
    assert_eq!(
        doc,
        "---\ntitle: \"A \\\\ B\"\nurl: https://x.org\nfetched: 2025-01-01T00:00:00Z\n---\n\n# A \\ B\n\nBody.\n"
    );
    let bare = format_document(None, "u", "t", "");
    assert_eq!(bare, "---\ntitle: \"\"\nurl: u\nfetched: t\n---\n\n\n");
}

#[test]
fn document_file_name_adds_extension() {
    assert_eq!(document_file_name("test-article"), "test-article.md");
    assert_eq!(document_file_name(""), ".md");
}

fn unescape(s: &str) -> String {
    let mut out = String::new();
    let mut chars = s.chars();
    while let Some(c) = chars.next() {
        if c == '\\' {
            if let Some(n) = chars.next() {
                out.push(n);
                continue;
            }
        }
        out.push(c);
    }
    out
}

#[test]
fn title_field_reads_back_as_title() {
    for title in ["plain", "a \"quoted\" \\ back\\slash\\", "\\\"", "tab\there"] {
        let doc = format_document(Some(title), "u", "t", "b");
        let line = doc.lines().nth(1).unwrap();
        let quoted = line.strip_prefix("title: \"").unwrap().strip_suffix('"').unwrap();
        assert_eq!(unescape(quoted), title);
    }
}
