//! `bo raze`: which files to delete, in which order, and what each outcome
//! means.
//!
//! The caller removes files and directories when a `RazeRun` asks, and hands
//! back how each removal went. The run deletes the stashed documents named in
//! the ledger (skipping any that lie outside the stash), then the ledger, then
//! the stash directory when it is empty, and the configuration last, so that a
//! failure part way leaves the configuration in place.

use vstd::prelude::*;

use crate::fetch::opt_string_view;
use crate::ledger::LedgerEntry;
use crate::paths::{file_inside, join_path, stays_under};
use crate::text::{decimal, push_decimal, push_str};

verus! {

/// How a removal went.
#[derive(Debug)]
pub enum Removal {
    /// The file or directory was removed.
    Removed,
    /// There was nothing to remove.
    Missing,
    /// The directory was left because it is not empty.
    NotEmpty,
    /// The removal failed; holds the system's message.
    Failed(String),
}

/// A message to show: a warning on the error stream, or information on the
/// output stream.
#[derive(Debug)]
pub enum Notice {
    Warning(String),
    Info(String),
}

/// A `Notice` with its text taken by its view.
pub enum NoticeView {
    Warning(Seq<char>),
    Info(Seq<char>),
}

impl View for Notice {
    type V = NoticeView;

    open spec fn view(&self) -> NoticeView {
        match self {
            Notice::Warning(m) => NoticeView::Warning(m@),
            Notice::Info(m) => NoticeView::Info(m@),
        }
    }
}

/// Which removal a raze run waits for.
#[derive(Debug)]
pub enum RazeStage {
    /// The stashed document `targets[next]`.
    Files,
    /// The ledger.
    Ledger,
    /// The stash directory.
    OutputDir,
    /// The configuration file.
    Config,
    /// Nothing: the run has finished.
    Done,
}

/// A raze in progress.
#[derive(Debug)]
pub struct RazeRun {
    /// The stash directory.
    pub output_dir: String,
    /// For each ledger entry, in ledger order, where its document lives, or
    /// `None` when the entry's path lies outside the stash.
    pub targets: Vec<Option<String>>,
    /// The file named by each ledger entry.
    pub files: Vec<String>,
    /// The entry whose document is being removed.
    pub next: usize,
    /// How many documents have been removed so far.
    pub deleted: usize,
    pub stage: RazeStage,
    /// What to show before doing the next action.
    pub notices: Vec<Notice>,
}

/// What the caller is to do next for a raze run.
#[derive(Debug)]
pub enum RazeAction {
    /// Remove this document.
    RemoveFile { path: String },
    /// Remove the stash's index file, the ledger the documents were listed
    /// in.
    RemoveLedger,
    /// Remove the stash directory if it is empty.
    RemoveOutputDir,
    /// Remove the configuration file.
    RemoveConfig,
    /// The raze is over, with this result, having removed `deleted`
    /// documents.
    Finish { result: Result<(), String>, deleted: usize },
}

// ── specifications ──────────────────────────────────────────────────────────

/// Where the document of a ledger entry naming `file` lives, when that path,
/// with `..` resolved, lies under the stash directory.
pub open spec fn raze_target(output_dir: Seq<char>, file: Seq<char>) -> Option<Seq<char>> {
    if stays_under(join_path(output_dir, file), output_dir) {
        Some(join_path(output_dir, file))
    } else {
        None
    }
}

/// The views of optional strings.
pub open spec fn targets_view(t: Seq<Option<String>>) -> Seq<Option<Seq<char>>> {
    t.map_values(|o: Option<String>| opt_string_view(o))
}

/// The views of strings.
pub open spec fn strings_view(v: Seq<String>) -> Seq<Seq<char>> {
    v.map_values(|s: String| s@)
}

/// The views of notices.
pub open spec fn notices_view(v: Seq<Notice>) -> Seq<NoticeView> {
    v.map_values(|n: Notice| n@)
}

/// The first entry from `k` on whose document is to be removed, or the
/// number of entries when there is none.
pub open spec fn next_target(t: Seq<Option<Seq<char>>>, k: int) -> int
    decreases t.len() - k,
{
    if k < 0 || k >= t.len() {
        t.len() as int
    } else if t[k] is Some {
        k
    } else {
        next_target(t, k + 1)
    }
}

/// The warning for a ledger entry whose path lies outside the stash.
pub open spec fn skip_warning(file: Seq<char>) -> NoticeView {
    NoticeView::Warning("warning: skipping ledger entry with suspicious path: "@ + file)
}

/// The warnings for the skipped entries among `k..j`.
pub open spec fn skip_warnings(files: Seq<Seq<char>>, t: Seq<Option<Seq<char>>>, k: int, j: int) -> Seq<
    NoticeView,
>
    decreases j - k,
{
    if j <= k {
        Seq::<NoticeView>::empty()
    } else if t[j - 1] is None {
        skip_warnings(files, t, k, j - 1).push(skip_warning(files[j - 1]))
    } else {
        skip_warnings(files, t, k, j - 1)
    }
}

/// The line shown once the documents are done.
pub open spec fn deleted_notice(deleted: nat) -> NoticeView {
    NoticeView::Info("deleted "@ + decimal(deleted) + " markdown file(s)"@)
}

/// The run is consistent: one target per ledger file, and while documents
/// are being removed, `next` names an entry with a target and no more
/// documents have been removed than entries passed.
pub open spec fn raze_wf(run: RazeRun) -> bool {
    &&& run.targets@.len() == run.files@.len()
    &&& run.deleted <= run.next <= run.targets@.len()
    &&& run.stage is Files ==> run.next < run.targets@.len() && run.targets@[run.next as int] is Some
}

/// `r` is where a run with these targets and files stands once it moves on
/// from entry `k` with `deleted` documents removed: at the next entry with a
/// target, asking for its removal, or, when there is none, at the ledger; the
/// warnings for the entries skipped on the way follow `before`, and when the
/// documents are done, so does the count of removed ones.
pub open spec fn moved_on(
    r: (RazeRun, RazeAction),
    output_dir: Seq<char>,
    t: Seq<Option<Seq<char>>>,
    files: Seq<Seq<char>>,
    k: int,
    deleted: nat,
    before: Seq<NoticeView>,
) -> bool {
    let j = next_target(t, k);
    &&& r.0.output_dir@ == output_dir
    &&& targets_view(r.0.targets@) == t
    &&& strings_view(r.0.files@) == files
    &&& r.0.deleted == deleted
    &&& raze_wf(r.0)
    &&& if j < t.len() {
        &&& r.0.stage is Files
        &&& r.0.next == j
        &&& r.1 matches RazeAction::RemoveFile { path } && Some(path@) == t[j]
        &&& notices_view(r.0.notices@) == before + skip_warnings(files, t, k, j)
    } else {
        &&& r.0.stage is Ledger
        &&& r.1 is RemoveLedger
        &&& notices_view(r.0.notices@) == before + skip_warnings(files, t, k, j).push(
            deleted_notice(deleted),
        )
    }
}

/// `r` finished the run with the error `message`, after `deleted` removals.
pub open spec fn raze_failed(r: (RazeRun, RazeAction), message: Seq<char>, deleted: nat) -> bool {
    &&& r.0.stage is Done
    &&& r.0.notices@.len() == 0
    &&& r.1 matches RazeAction::Finish { result: Err(m), deleted: d } && m@ == message && d
        == deleted
}

/// `r` moved to `stage`, asking for `action`, after showing `notices`.
pub open spec fn raze_moved(
    r: (RazeRun, RazeAction),
    run: RazeRun,
    stage: RazeStage,
    notices: Seq<NoticeView>,
) -> bool {
    &&& r.0.stage == stage
    &&& r.0.output_dir == run.output_dir
    &&& r.0.targets == run.targets
    &&& r.0.files == run.files
    &&& r.0.next == run.next
    &&& r.0.deleted == run.deleted
    &&& notices_view(r.0.notices@) == notices
}

// ── executable code ─────────────────────────────────────────────────────────

/// The warning for a skipped ledger entry.
fn skip_notice(file: &String) -> (n: Notice)
    ensures
        n@ == skip_warning(file@),
{
    let mut m = String::new();
    push_str(&mut m, "warning: skipping ledger entry with suspicious path: ");
    push_str(&mut m, file.as_str());
    Notice::Warning(m)
}

/// Moves a run on from entry `from`: past the entries without a target, to
/// the next document to remove or, when there is none, to the ledger.
fn move_on(
    output_dir: String,
    targets: Vec<Option<String>>,
    files: Vec<String>,
    from: usize,
    deleted: usize,
    notices: Vec<Notice>,
) -> (r: (RazeRun, RazeAction))
    requires
        targets@.len() == files@.len(),
        deleted <= from <= targets@.len(),
    ensures
        moved_on(
            r,
            output_dir@,
            targets_view(targets@),
            strings_view(files@),
            from as int,
            deleted as nat,
            notices_view(notices@),
        ),
{
    let ghost t = targets_view(targets@);
    let ghost f = strings_view(files@);
    let ghost before = notices_view(notices@);
    let mut notices = notices;
    let mut j: usize = from;
    while j < targets.len() && targets[j].is_none()
        invariant
            targets@.len() == files@.len(),
            t == targets_view(targets@),
            f == strings_view(files@),
            from <= j <= targets@.len(),
            next_target(t, from as int) == next_target(t, j as int),
            notices_view(notices@) == before + skip_warnings(f, t, from as int, j as int),
        decreases targets.len() - j,
    {
        let n = skip_notice(&files[j]);
        proof {
            assert(t[j as int] is None);
            assert(skip_warnings(f, t, from as int, j + 1) == skip_warnings(
                f,
                t,
                from as int,
                j as int,
            ).push(skip_warning(f[j as int])));
        }
        let ghost prior = notices@;
        assert(f[j as int] == files@[j as int]@);
        notices.push(n);
        assert(notices_view(notices@) =~= notices_view(prior).push(n@));
        assert(notices_view(notices@) =~= before + skip_warnings(f, t, from as int, j + 1));
        j = j + 1;
    }
    if j < targets.len() {
        assert(next_target(t, j as int) == j);
        let path = match &targets[j] {
            Some(p) => p.clone(),
            None => String::new(),
        };
        let run = RazeRun {
            output_dir,
            targets,
            files,
            next: j,
            deleted,
            stage: RazeStage::Files,
            notices,
        };
        (run, RazeAction::RemoveFile { path })
    } else {
        let mut m = String::new();
        push_str(&mut m, "deleted ");
        push_decimal(&mut m, deleted as u64);
        push_str(&mut m, " markdown file(s)");
        let ghost skipped = notices_view(notices@);
        notices.push(Notice::Info(m));
        assert(notices_view(notices@) =~= skipped.push(deleted_notice(deleted as nat)));
        let run = RazeRun {
            output_dir,
            targets,
            files,
            next: j,
            deleted,
            stage: RazeStage::Ledger,
            notices,
        };
        (run, RazeAction::RemoveLedger)
    }
}

/// Starts razing the stash `output_dir` whose ledger holds `entries`: the
/// documents to remove are, in ledger order, the `file_inside` paths of the
/// entries that pass the guard; each entry that does not pass is warned
/// about and skipped.
pub fn raze_start(output_dir: &str, entries: &[LedgerEntry]) -> (r: (RazeRun, RazeAction))
    ensures
        targets_view(r.0.targets@).len() == entries@.len(),
        strings_view(r.0.files@) == entries@.map_values(|e: LedgerEntry| e.file@),
        forall|i: int|
            0 <= i < entries@.len() ==> targets_view(r.0.targets@)[i] == raze_target(
                output_dir@,
                (#[trigger] entries@[i]).file@,
            ),
        moved_on(
            r,
            output_dir@,
            targets_view(r.0.targets@),
            strings_view(r.0.files@),
            0,
            0,
            Seq::<NoticeView>::empty(),
        ),
{
    let mut targets: Vec<Option<String>> = Vec::new();
    let mut files: Vec<String> = Vec::new();
    let mut i: usize = 0;
    while i < entries.len()
        invariant
            i <= entries@.len(),
            targets@.len() == i,
            files@.len() == i,
            strings_view(files@) == entries@.take(i as int).map_values(|e: LedgerEntry| e.file@),
            forall|k: int|
                0 <= k < i ==> targets_view(targets@)[k] == raze_target(
                    output_dir@,
                    (#[trigger] entries@[k]).file@,
                ),
        decreases entries.len() - i,
    {
        let target = file_inside(output_dir, entries[i].file.as_str());
        targets.push(target);
        let ghost prev = files@;
        let name = entries[i].file.clone();
        files.push(name);
        assert forall|k: int| 0 <= k < i + 1 implies #[trigger] strings_view(files@)[k]
            == entries@.take(i + 1).map_values(|e: LedgerEntry| e.file@)[k] by {
            if k < i {
                assert(files@[k] == prev[k]);
                assert(strings_view(prev)[k] == entries@.take(i as int).map_values(
                    |e: LedgerEntry| e.file@,
                )[k]);
            }
        }
        assert(strings_view(files@) =~= entries@.take(i + 1).map_values(|e: LedgerEntry| e.file@));
        assert forall|k: int|
            0 <= k < i + 1 implies targets_view(targets@)[k] == raze_target(
                output_dir@,
                (#[trigger] entries@[k]).file@,
            ) by {
            if k == i {
                assert(targets_view(targets@)[k] == opt_string_view(targets@[k]));
            }
        }
        i = i + 1;
    }
    assert(entries@.take(entries@.len() as int) =~= entries@);
    let mut dir = String::new();
    push_str(&mut dir, output_dir);
    let none: Vec<Notice> = Vec::new();
    assert(notices_view(none@) =~= Seq::<NoticeView>::empty());
    move_on(dir, targets, files, 0, 0, none)
}

/// Builds the message of a failed removal: `prefix`, then the system's
/// message.
fn failure(prefix: &str, detail: &String) -> (m: String)
    ensures
        m@ == prefix@ + detail@,
{
    let mut m = String::new();
    push_str(&mut m, prefix);
    push_str(&mut m, detail.as_str());
    m
}

impl RazeRun {
    /// Whether the run is consistent and waits for a removal that `outcome`
    /// can answer (only the stash directory can be left as not empty).
    pub fn accepts(&self, outcome: &Removal) -> (b: bool)
        ensures
            b == (raze_wf(*self) && !(self.stage is Done) && (outcome is NotEmpty ==> self.stage is OutputDir)),
    {
        let consistent = self.targets.len() == self.files.len() && self.deleted <= self.next
            && self.next <= self.targets.len() && match self.stage {
            RazeStage::Files => self.next < self.targets.len() && self.targets[self.next].is_some(),
            _ => true,
        };
        let waiting = match self.stage {
            RazeStage::Done => false,
            RazeStage::OutputDir => true,
            _ => !matches!(outcome, Removal::NotEmpty),
        };
        consistent && waiting
    }

    /// Moves the run on with how the removal it asked for went.
    ///
    /// A document that is already gone is passed over; only documents
    /// actually removed are counted. A missing ledger or configuration file is
    /// passed over too. The stash directory that is not empty, or already
    /// gone, is left in place. Any other failure finishes the run at once with
    /// an error that names what could not be removed and why, so nothing after
    /// it is touched and the configuration stays. The run succeeds only after
    /// the configuration step, which comes last.
    pub fn step(self, outcome: Removal) -> (r: (RazeRun, RazeAction))
        requires
            raze_wf(self),
            !(self.stage is Done),
            outcome is NotEmpty ==> self.stage is OutputDir,
        ensures
            raze_wf(r.0),
            r.0.deleted == self.deleted + if self.stage is Files && outcome is Removed {
                1int
            } else {
                0int
            },
            r.1 matches RazeAction::Finish { deleted, .. } ==> deleted == r.0.deleted,
            self.stage is Files && !(outcome is Failed) ==> moved_on(
                r,
                self.output_dir@,
                targets_view(self.targets@),
                strings_view(self.files@),
                self.next + 1,
                r.0.deleted as nat,
                Seq::<NoticeView>::empty(),
            ),
            (self.stage, outcome) matches (RazeStage::Files, Removal::Failed(m)) ==> raze_failed(
                r,
                "failed to delete "@ + targets_view(self.targets@)[self.next as int]->0 + ": "@
                    + m@,
                self.deleted as nat,
            ),
            (self.stage, outcome) matches (RazeStage::Ledger, Removal::Failed(m)) ==> raze_failed(
                r,
                "failed to delete ledger: "@ + m@,
                self.deleted as nat,
            ),
            self.stage is Ledger && outcome is Removed ==> raze_moved(
                r,
                self,
                RazeStage::OutputDir,
                seq![NoticeView::Info("deleted index"@)],
            ) && r.1 is RemoveOutputDir,
            self.stage is Ledger && outcome is Missing ==> raze_moved(
                r,
                self,
                RazeStage::OutputDir,
                Seq::<NoticeView>::empty(),
            ) && r.1 is RemoveOutputDir,
            (self.stage, outcome) matches (RazeStage::OutputDir, Removal::Failed(m)) ==> raze_failed(
                r,
                "failed to remove output directory: "@ + m@,
                self.deleted as nat,
            ),
            self.stage is OutputDir && outcome is Removed ==> raze_moved(
                r,
                self,
                RazeStage::Config,
                seq![NoticeView::Info("removed output directory "@ + self.output_dir@)],
            ) && r.1 is RemoveConfig,
            self.stage is OutputDir && (outcome is NotEmpty || outcome is Missing) ==> raze_moved(
                r,
                self,
                RazeStage::Config,
                seq![
                    NoticeView::Info(
                        "output directory left in place (not empty or already absent): "@
                            + self.output_dir@,
                    ),
                ],
            ) && r.1 is RemoveConfig,
            (self.stage, outcome) matches (RazeStage::Config, Removal::Failed(m)) ==> raze_failed(
                r,
                "failed to delete config: "@ + m@,
                self.deleted as nat,
            ),
            self.stage is Config && outcome is Removed ==> raze_moved(
                r,
                self,
                RazeStage::Done,
                seq![NoticeView::Info("deleted config"@)],
            ) && r.1 matches RazeAction::Finish { result: Ok(()), .. },
            self.stage is Config && outcome is Missing ==> raze_moved(
                r,
                self,
                RazeStage::Done,
                Seq::<NoticeView>::empty(),
            ) && r.1 matches RazeAction::Finish { result: Ok(()), .. },
            outcome is Failed ==> r.1 matches RazeAction::Finish { result: Err(_), .. },
            r.1 is RemoveConfig ==> self.stage is OutputDir && !(outcome is Failed),
            r.1 matches RazeAction::Finish { result: Ok(()), .. } ==> self.stage is Config && !(
            outcome is Failed),
    {
        let RazeRun { output_dir, targets, files, next, deleted, stage, notices: _ } = self;
        match stage {
            RazeStage::Files => {
                let total: usize = targets.len();
                assert(deleted <= next && next < total);
                match outcome {
                    Removal::Failed(m) => {
                        let path = match &targets[next] {
                            Some(p) => p.clone(),
                            None => String::new(),
                        };
                        let mut msg = failure("failed to delete ", &path);
                        push_str(&mut msg, ": ");
                        push_str(&mut msg, m.as_str());
                        assert(msg@ =~= "failed to delete "@ + targets_view(targets@)[next as int]->0
                            + ": "@ + m@);
                        (
                            RazeRun {
                                output_dir,
                                targets,
                                files,
                                next,
                                deleted,
                                stage: RazeStage::Done,
                                notices: Vec::new(),
                            },
                            RazeAction::Finish { result: Err(msg), deleted },
                        )
                    },
                    other => {
                        let count = match other {
                            Removal::Removed => deleted + 1,
                            _ => deleted,
                        };
                        let none: Vec<Notice> = Vec::new();
                        assert(notices_view(none@) =~= Seq::<NoticeView>::empty());
                        move_on(output_dir, targets, files, next + 1, count, none)
                    },
                }
            },
            RazeStage::Ledger => {
                let mut notices: Vec<Notice> = Vec::new();
                match outcome {
                    Removal::Failed(m) => {
                        let msg = failure("failed to delete ledger: ", &m);
                        return (
                            RazeRun {
                                output_dir,
                                targets,
                                files,
                                next,
                                deleted,
                                stage: RazeStage::Done,
                                notices,
                            },
                            RazeAction::Finish { result: Err(msg), deleted },
                        );
                    },
                    Removal::Removed => {
                        let mut m = String::new();
                        push_str(&mut m, "deleted index");
                        notices.push(Notice::Info(m));
                    },
                    _ => {},
                }
                assert(notices_view(notices@) =~= if outcome is Removed {
                    seq![NoticeView::Info("deleted index"@)]
                } else {
                    Seq::<NoticeView>::empty()
                });
                (
                    RazeRun {
                        output_dir,
                        targets,
                        files,
                        next,
                        deleted,
                        stage: RazeStage::OutputDir,
                        notices,
                    },
                    RazeAction::RemoveOutputDir,
                )
            },
            RazeStage::OutputDir => {
                let mut notices: Vec<Notice> = Vec::new();
                match outcome {
                    Removal::Failed(m) => {
                        let msg = failure("failed to remove output directory: ", &m);
                        return (
                            RazeRun {
                                output_dir,
                                targets,
                                files,
                                next,
                                deleted,
                                stage: RazeStage::Done,
                                notices,
                            },
                            RazeAction::Finish { result: Err(msg), deleted },
                        );
                    },
                    Removal::Removed => {
                        let m = failure("removed output directory ", &output_dir);
                        notices.push(Notice::Info(m));
                        assert(notices_view(notices@) =~= seq![
                            NoticeView::Info("removed output directory "@ + output_dir@),
                        ]);
                    },
                    _ => {
                        let m = failure(
                            "output directory left in place (not empty or already absent): ",
                            &output_dir,
                        );
                        notices.push(Notice::Info(m));
                        assert(notices_view(notices@) =~= seq![
                            NoticeView::Info(
                                "output directory left in place (not empty or already absent): "@
                                    + output_dir@,
                            ),
                        ]);
                    },
                }
                (
                    RazeRun {
                        output_dir,
                        targets,
                        files,
                        next,
                        deleted,
                        stage: RazeStage::Config,
                        notices,
                    },
                    RazeAction::RemoveConfig,
                )
            },
            _ => {
                let mut notices: Vec<Notice> = Vec::new();
                match outcome {
                    Removal::Failed(m) => {
                        let msg = failure("failed to delete config: ", &m);
                        return (
                            RazeRun {
                                output_dir,
                                targets,
                                files,
                                next,
                                deleted,
                                stage: RazeStage::Done,
                                notices,
                            },
                            RazeAction::Finish { result: Err(msg), deleted },
                        );
                    },
                    Removal::Removed => {
                        let mut m = String::new();
                        push_str(&mut m, "deleted config");
                        notices.push(Notice::Info(m));
                    },
                    _ => {},
                }
                assert(notices_view(notices@) =~= if outcome is Removed {
                    seq![NoticeView::Info("deleted config"@)]
                } else {
                    Seq::<NoticeView>::empty()
                });
                (
                    RazeRun {
                        output_dir,
                        targets,
                        files,
                        next,
                        deleted,
                        stage: RazeStage::Done,
                        notices,
                    },
                    RazeAction::Finish { result: Ok(()), deleted },
                )
            },
        }
    }
}

} // verus!
