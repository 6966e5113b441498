use bo::ledger::LedgerEntry;
use bo::fetch::{FetchError, FetchResult};
use bo::pipeline::{stash_html, stash_url, ExtractedContent, StashAction, StashError, StashEvent, StashStage};

fn entry(url: &str, file: &str) -> LedgerEntry {
    LedgerEntry {
        url: url.to_string(),
        fetched_at: "2025-01-15T09:32:00Z".to_string(),
        file: file.to_string(),
    }
}

fn content() -> ExtractedContent {
    ExtractedContent {
        title: Some("Introduction".to_string()),
        body_markdown: "Hello.".to_string(),
    }
}

#[test]
fn happy_run_writes_then_appends_then_succeeds() {
    let (run, action) = stash_url("https://example.com/intro1");
    assert!(matches!(action, StashAction::FetchPage));
    let (run, action) = run.step(StashEvent::Fetched(Ok(FetchResult { url: "https://example.com/intro1".to_string(), html: "<h1>Introduction</h1>".to_string() })));
    assert!(matches!(action, StashAction::ReadLedger));

    let (run, action) = run.step(StashEvent::LedgerRead(Ok(vec![entry("https://other.com", "other.md")])));
    assert!(matches!(&action, StashAction::Extract { html } if html == "<h1>Introduction</h1>"));

    let (run, action) = run.step(StashEvent::Extracted(Ok(content())));
    assert!(matches!(&action, StashAction::NameFile { title: Some(t) } if t == "Introduction"));

    let (run, action) = run.step(StashEvent::Named("introduction".to_string()));
    let document = match &action {
        StashAction::WriteDocument { file_name, document } => {
            assert_eq!(file_name, "introduction.md");
            document.clone()
        }
        other => panic!("unexpected action {:?}", other),
    };
    assert!(document.contains("url: https://example.com/intro1\n"));
    assert!(document.contains("# Introduction\n\nHello.\n"));

    let (run, action) = run.step(StashEvent::Written(Ok(())));
    match &action {
        StashAction::AppendEntry { entry } => {
            assert_eq!(entry.url, "https://example.com/intro1");
            assert_eq!(entry.file, "introduction.md");
            assert!(document.contains(&format!("fetched: {}\n", entry.fetched_at)));
        }
        other => panic!("unexpected action {:?}", other),
    }

    let (run, action) = run.step(StashEvent::Appended(Ok(())));
    assert!(matches!(run.stage, StashStage::Done));
    match action {
        StashAction::Finish(Ok(page)) => {
            assert_eq!(page.url, "https://example.com/intro1");
            assert_eq!(page.filename, "introduction.md");
        }
        other => panic!("unexpected action {:?}", other),
    }
}

#[test]
fn duplicate_run_stops_before_extracting() {
    let (run, _) = stash_html("https://example.com/article", "<html></html>");
    let (run, action) = run.step(StashEvent::LedgerRead(Ok(vec![
        entry("https://example.com/article", "article.md"),
        entry("https://example.com/article", "article-2.md"),
    ])));
    assert!(matches!(run.stage, StashStage::Done));
    match action {
        StashAction::Finish(Err(e)) => assert_eq!(e.message(), "already stashed \u{2192} article.md"),
        other => panic!("unexpected action {:?}", other),
    }
}

#[test]
fn empty_extraction_leaves_no_artifacts() {
    let (run, _) = stash_html("https://example.com/empty", "<html><body></body></html>");
    let (run, _) = run.step(StashEvent::LedgerRead(Ok(vec![])));
    let (run, action) = run.step(StashEvent::Extracted(Err("no content extracted".to_string())));
    assert!(matches!(run.stage, StashStage::Done));
    assert!(matches!(action, StashAction::Finish(Err(StashError::Extract(m))) if m == "no content extracted"));
    assert!(!run.accepts(&StashEvent::Written(Ok(()))));
}

#[test]
fn failed_write_is_not_recorded() {
    let (run, _) = stash_html("https://example.com/a", "<p>a</p>");
    let (run, _) = run.step(StashEvent::LedgerRead(Ok(vec![])));
    let (run, _) = run.step(StashEvent::Extracted(Ok(content())));
    let (run, _) = run.step(StashEvent::Named("a".to_string()));
    let (_, action) = run.step(StashEvent::Written(Err("disk full".to_string())));
    assert!(matches!(action, StashAction::Finish(Err(StashError::Io(m))) if m == "disk full"));
}

#[test]
fn unreadable_ledger_and_failed_append_are_io_errors() {
    let (run, _) = stash_html("https://example.com/a", "<p>a</p>");
    let (_, action) = run.step(StashEvent::LedgerRead(Err("denied".to_string())));
    match action {
        StashAction::Finish(Err(e)) => assert_eq!(e.message(), "I/O error: denied"),
        other => panic!("unexpected action {:?}", other),
    }

    let (run, _) = stash_html("https://example.com/a", "<p>a</p>");
    let (run, _) = run.step(StashEvent::LedgerRead(Ok(vec![])));
    let (run, _) = run.step(StashEvent::Extracted(Ok(content())));
    let (run, _) = run.step(StashEvent::Named("a".to_string()));
    let (run, _) = run.step(StashEvent::Written(Ok(())));
    let (_, action) = run.step(StashEvent::Appended(Err("read-only".to_string())));
    assert!(matches!(action, StashAction::Finish(Err(StashError::Io(m))) if m == "read-only"));
}

#[test]
fn run_accepts_only_the_awaited_event() {
    let (run, _) = stash_html("https://example.com/a", "<p>a</p>");
    assert!(run.accepts(&StashEvent::LedgerRead(Ok(vec![]))));
    assert!(!run.accepts(&StashEvent::Named("a".to_string())));
    assert!(!run.accepts(&StashEvent::Appended(Ok(()))));
}

#[test]
fn fetch_failure_finishes_before_the_ledger() {
    let (run, action) = stash_url("https://httpbin.org/status/404");
    assert!(matches!(action, StashAction::FetchPage));
    let (run, action) = run.step(StashEvent::Fetched(Err(FetchError::HttpStatus(404, "Not Found".to_string()))));
    assert!(matches!(run.stage, StashStage::Done));
    match action {
        StashAction::Finish(Err(e)) => assert_eq!(e.message(), "HTTP 404: Not Found"),
        other => panic!("unexpected action {:?}", other),
    }
}

#[test]
fn stash_html_starts_with_ledger_and_keeps_html() {
    let (run, action) = stash_html("https://example.com/a", "<p>a</p>");
    assert!(matches!(action, StashAction::ReadLedger));
    assert!(matches!(&run.stage, StashStage::AwaitLedger { html } if html == "<p>a</p>"));
    let (_, action) = run.step(StashEvent::LedgerRead(Ok(vec![])));
    assert!(matches!(action, StashAction::Extract { html } if html == "<p>a</p>"));
}

#[test]
fn stash_url_records_the_fetched_url() {
    let (run, _) = stash_url("https://example.com");
    let (run, action) = run.step(StashEvent::Fetched(Ok(FetchResult {
        url: "https://example.com/".to_string(),
        html: "<p>x</p>".to_string(),
    })));
    assert_eq!(run.url, "https://example.com/");
    assert!(matches!(action, StashAction::ReadLedger));
    // the ledger already holds the fetched (normalised) URL: a duplicate
    let (_, action) = run.step(StashEvent::LedgerRead(Ok(vec![entry("https://example.com/", "example.md")])));
    match action {
        StashAction::Finish(Err(e)) => assert_eq!(e.message(), "already stashed \u{2192} example.md"),
        other => panic!("unexpected action {:?}", other),
    }
}

#[test]
fn run_appends_only_a_url_the_ledger_lacks() {
    let ledger = vec![entry("https://a.com", "a.md"), entry("https://b.com", "b.md")];
    let (run, _) = stash_html("https://c.com", "<p>c</p>");
    let (run, _) = run.step(StashEvent::LedgerRead(Ok(ledger.clone())));
    let (run, _) = run.step(StashEvent::Extracted(Ok(content())));
    let (run, _) = run.step(StashEvent::Named("c".to_string()));
    let (_, action) = run.step(StashEvent::Written(Ok(())));
    match action {
        StashAction::AppendEntry { entry } => {
            assert_eq!(entry.url, "https://c.com");
            assert!(ledger.iter().all(|e| e.url != entry.url));
        }
        other => panic!("unexpected action {:?}", other),
    }
}
