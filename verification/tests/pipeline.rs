use bo::fetch::FetchError;
use bo::ledger::{is_duplicate, LedgerEntry};
use bo::pipeline::{
    check_not_stashed, plan_stash, plan_stash_at, plan_stash_now, stamp_at, ExtractedContent, StashError,
};

fn entry(url: &str, file: &str) -> LedgerEntry {
    LedgerEntry {
        url: url.to_string(),
        fetched_at: "2025-01-15T09:32:00Z".to_string(),
        file: file.to_string(),
    }
}

fn content() -> ExtractedContent {
    ExtractedContent {
        title: Some("Test Article".to_string()),
        body_markdown: "Section One".to_string(),
    }
}

#[test]
fn duplicate_url_is_refused_with_existing_file() {
    let entries = vec![entry("https://example.com/article", "article.md")];
    let err = check_not_stashed(&entries, "https://example.com/article").unwrap_err();
    assert!(matches!(&err, StashError::DuplicateUrl { existing_file } if existing_file == "article.md"));
    assert_eq!(err.message(), "already stashed \u{2192} article.md");
    assert!(check_not_stashed(&entries, "https://example.com/article?ref=twitter").is_ok());
    assert!(check_not_stashed(&[], "https://example.com/article").is_ok());
}

#[test]
fn plan_holds_document_entry_and_page() {
    let plan = plan_stash("https://example.com/article", &content(), "test-article", "2025-01-15T09:32:00Z");
    assert!(plan.document.contains("title: \"Test Article\""));
    assert!(plan.document.contains("url: https://example.com/article"));
    assert!(plan.document.contains("fetched: 2025-01-15T09:32:00Z"));
    assert!(plan.document.contains("# Test Article"));
    assert!(plan.document.ends_with("Section One\n"));
    assert_eq!(plan.entry.url, "https://example.com/article");
    assert_eq!(plan.entry.fetched_at, "2025-01-15T09:32:00Z");
    assert_eq!(plan.entry.file, "test-article.md");
    assert_eq!(plan.page.url, "https://example.com/article");
    assert_eq!(plan.page.filename, "test-article.md");
}

#[test]
fn stashed_url_then_rejected_but_near_duplicate_accepted() {
    let mut entries = vec![entry("https://example.com/other", "other.md")];
    let url = "https://example.com/article";
    assert!(check_not_stashed(&entries, url).is_ok());
    let plan = plan_stash(url, &content(), "article", "2025-01-15T09:32:00Z");
    entries.push(plan.entry.clone());
    let err = check_not_stashed(&entries, url).unwrap_err();
    assert!(matches!(err, StashError::DuplicateUrl { existing_file } if existing_file == plan.page.filename));
    assert!(check_not_stashed(&entries, "https://example.com/article?ref=twitter").is_ok());
    assert_eq!(is_duplicate(&entries, url).unwrap().file, "article.md");
}

#[test]
fn plan_now_stamps_utc_seconds() {
    let plan = plan_stash_now("https://example.com/a", &content(), "a").unwrap();
    let stamp = plan.entry.fetched_at.clone();
    assert_eq!(stamp.len(), 20, "{stamp}");
    assert!(stamp.ends_with('Z'));
    assert_eq!(&stamp[4..5], "-");
    assert_eq!(&stamp[10..11], "T");
    assert!(plan.document.contains(&format!("fetched: {}\n", stamp)));
}

#[test]
fn untitled_page_has_no_heading() {
    let c = ExtractedContent { title: None, body_markdown: "Body only.".to_string() };
    let plan = plan_stash("https://example.com", &c, "example-com", "t");
    assert!(plan.document.contains("title: \"\""));
    assert!(!plan.document.contains("# "));
}

#[test]
fn stash_error_messages() {
    assert_eq!(StashError::Fetch(FetchError::Timeout).message(), "request timed out");
    assert_eq!(StashError::Extract("no content extracted".to_string()).message(), "no content extracted");
    assert_eq!(StashError::Io("disk full".to_string()).message(), "I/O error: disk full");
    let from: StashError = FetchError::NotHtml("image/png".to_string()).into();
    assert_eq!(from.message(), "not HTML (Content-Type: image/png)");
}

#[test]
fn stamp_at_writes_utc_seconds() {
    assert_eq!(stamp_at(0).as_deref(), Some("1970-01-01T00:00:00Z"));
    assert_eq!(stamp_at(1_700_000_000).as_deref(), Some("2023-11-14T22:13:20Z"));
    assert_eq!(stamp_at(1_736_933_520).as_deref(), Some("2025-01-15T09:32:00Z"));
}

#[test]
fn stamp_at_refuses_times_out_of_range() {
    assert!(stamp_at(u64::MAX).is_none());
    assert!(stamp_at(0x8000_0000_0000_0000).is_none());
    assert!(stamp_at(0x7fff_ffff_ffff_ffff).is_none());
}

#[test]
fn plan_stash_at_uses_the_given_time() {
    let plan = plan_stash_at("https://example.com/a", &content(), "a", 1_736_933_520).unwrap();
    assert_eq!(plan.entry.fetched_at, "2025-01-15T09:32:00Z");
    assert_eq!(plan.entry.url, "https://example.com/a");
    assert_eq!(plan.entry.file, "a.md");
    assert!(plan.document.contains("fetched: 2025-01-15T09:32:00Z\n"));
    assert!(plan_stash_at("https://example.com/a", &content(), "a", u64::MAX).is_none());
}
