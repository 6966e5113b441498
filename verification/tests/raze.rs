use bo::ledger::LedgerEntry;
use bo::raze::{raze_start, Notice, RazeAction, RazeStage, Removal};

fn entry(file: &str) -> LedgerEntry {
    LedgerEntry {
        url: format!("https://example.com/{file}"),
        fetched_at: "2025-01-15T09:32:00Z".to_string(),
        file: file.to_string(),
    }
}

fn texts(notices: &[Notice]) -> Vec<String> {
    notices
        .iter()
        .map(|n| match n {
            Notice::Warning(m) => format!("W {m}"),
            Notice::Info(m) => format!("I {m}"),
        })
        .collect()
}

#[test]
fn raze_removes_files_ledger_dir_then_config() {
    let entries = vec![entry("a.md"), entry("/etc/passwd"), entry("b.md")];
    let (run, action) = raze_start("/stash", &entries);
    assert!(matches!(&action, RazeAction::RemoveFile { path } if path == "/stash/a.md"));
    assert!(texts(&run.notices).is_empty());

    let (run, action) = run.step(Removal::Removed);
    assert!(matches!(&action, RazeAction::RemoveFile { path } if path == "/stash/b.md"));
    assert_eq!(
        texts(&run.notices),
        vec!["W warning: skipping ledger entry with suspicious path: /etc/passwd"]
    );

    let (run, action) = run.step(Removal::Removed);
    assert!(matches!(action, RazeAction::RemoveLedger));
    assert_eq!(texts(&run.notices), vec!["I deleted 2 markdown file(s)"]);

    let (run, action) = run.step(Removal::Removed);
    assert!(matches!(action, RazeAction::RemoveOutputDir));
    assert_eq!(texts(&run.notices), vec!["I deleted index"]);

    let (run, action) = run.step(Removal::Removed);
    assert!(matches!(action, RazeAction::RemoveConfig));
    assert_eq!(texts(&run.notices), vec!["I removed output directory /stash"]);

    let (run, action) = run.step(Removal::Removed);
    assert!(matches!(run.stage, RazeStage::Done));
    assert_eq!(texts(&run.notices), vec!["I deleted config"]);
    assert!(matches!(action, RazeAction::Finish { result: Ok(()), deleted: 2 }));
}

#[test]
fn raze_tolerates_already_deleted_files() {
    let (run, action) = raze_start("/home/u/my-stash", &[entry("gone.md")]);
    assert!(matches!(&action, RazeAction::RemoveFile { path } if path == "/home/u/my-stash/gone.md"));
    let (run, action) = run.step(Removal::Missing);
    assert!(matches!(action, RazeAction::RemoveLedger));
    assert_eq!(texts(&run.notices), vec!["I deleted 0 markdown file(s)"]);
    let (run, action) = run.step(Removal::Missing);
    assert!(matches!(action, RazeAction::RemoveOutputDir));
    assert!(run.notices.is_empty());
    let (run, action) = run.step(Removal::NotEmpty);
    assert!(matches!(action, RazeAction::RemoveConfig));
    assert_eq!(
        texts(&run.notices),
        vec!["I output directory left in place (not empty or already absent): /home/u/my-stash"]
    );
    let (_, action) = run.step(Removal::Missing);
    assert!(matches!(action, RazeAction::Finish { result: Ok(()), deleted: 0 }));
}

#[test]
fn raze_with_empty_ledger_goes_to_ledger_at_once() {
    let (run, action) = raze_start("/stash", &[]);
    assert!(matches!(action, RazeAction::RemoveLedger));
    assert_eq!(texts(&run.notices), vec!["I deleted 0 markdown file(s)"]);
}

#[test]
fn raze_failure_stops_before_the_config() {
    let (run, _) = raze_start("/stash", &[entry("a.md"), entry("b.md")]);
    let (run, action) = run.step(Removal::Failed("permission denied".to_string()));
    assert!(matches!(run.stage, RazeStage::Done));
    assert!(matches!(action, RazeAction::Finish { result: Err(ref m), deleted: 0 }
        if m == "failed to delete /stash/a.md: permission denied"));

    let (run, _) = raze_start("/stash", &[]);
    let (run, action) = run.step(Removal::Failed("busy".to_string()));
    assert!(matches!(action, RazeAction::Finish { result: Err(ref m), .. } if m == "failed to delete ledger: busy"));
    assert!(!run.accepts(&Removal::Removed));

    let (run, _) = raze_start("/stash", &[]);
    let (run, _) = run.step(Removal::Removed);
    let (_, action) = run.step(Removal::Failed("io".to_string()));
    assert!(matches!(action, RazeAction::Finish { result: Err(ref m), .. } if m == "failed to remove output directory: io"));

    let (run, _) = raze_start("/stash", &[]);
    let (run, _) = run.step(Removal::Removed);
    let (run, _) = run.step(Removal::Missing);
    let (_, action) = run.step(Removal::Failed("ro".to_string()));
    assert!(matches!(action, RazeAction::Finish { result: Err(ref m), .. } if m == "failed to delete config: ro"));
}

#[test]
fn raze_accepts_not_empty_only_for_the_directory() {
    let (run, _) = raze_start("/stash", &[entry("a.md")]);
    assert!(!run.accepts(&Removal::NotEmpty));
    assert!(run.accepts(&Removal::Missing));
}

#[test]
fn raze_skips_paths_that_climb_out_of_the_stash() {
    let entries = vec![entry("../x.md"), entry("a/../../y.md"), entry("a/../b.md"), entry("/h/s/c.md")];
    let (run, action) = raze_start("/h/s", &entries);
    assert!(run.targets[0].is_none());
    assert!(run.targets[1].is_none());
    assert_eq!(run.targets[2].as_deref(), Some("/h/s/a/../b.md"));
    assert_eq!(run.targets[3].as_deref(), Some("/h/s/c.md"));
    assert!(matches!(&action, RazeAction::RemoveFile { path } if path == "/h/s/a/../b.md"));
    assert_eq!(
        texts(&run.notices),
        vec![
            "W warning: skipping ledger entry with suspicious path: ../x.md",
            "W warning: skipping ledger entry with suspicious path: a/../../y.md",
        ]
    );
    assert_eq!(run.files, vec!["../x.md", "a/../../y.md", "a/../b.md", "/h/s/c.md"]);
}
