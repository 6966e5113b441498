//! Stashing a page: the decisions of the extract-write-ledger pipeline.
//!
//! The caller fetches the page, reads the ledger, extracts the content, picks
//! a free file name, writes the document and appends the ledger line, each
//! when a `StashRun` asks for it. This module decides whether a URL may be
//! stashed, what the document, the file name and the ledger entry are, and in
//! which order the work is done.

use vstd::prelude::*;

use crate::fetch::{FetchError, FetchErrorView, FetchResult, fetch_error_message, opt_string_view};
use crate::ledger::{LedgerEntry, first_with_url, has_url, is_duplicate, lemma_duplicate_after_append};
use crate::markdown::{document, document_file_name, format_document};
use crate::text::push_str;

verus! {

/// A page that was stashed: the URL recorded in the ledger, and the file
/// (with its `.md` extension) written inside the stash directory.
#[derive(Debug)]
pub struct StashedPage {
    pub url: String,
    pub filename: String,
}

/// Why a page could not be stashed.
#[derive(Debug)]
pub enum StashError {
    /// The URL is already in the ledger; holds the file it was stashed to.
    DuplicateUrl { existing_file: String },
    /// The page could not be fetched.
    Fetch(FetchError),
    /// No content could be extracted from the page; holds the reason.
    Extract(String),
    /// Reading or writing the stash failed; holds the system's message.
    Io(String),
}

/// A `StashError` with its strings taken by their views.
pub enum StashErrorView {
    DuplicateUrl { existing_file: Seq<char> },
    Fetch(FetchErrorView),
    Extract(Seq<char>),
    Io(Seq<char>),
}

impl View for StashError {
    type V = StashErrorView;

    open spec fn view(&self) -> StashErrorView {
        match self {
            StashError::DuplicateUrl { existing_file } => StashErrorView::DuplicateUrl {
                existing_file: existing_file@,
            },
            StashError::Fetch(e) => StashErrorView::Fetch(e@),
            StashError::Extract(m) => StashErrorView::Extract(m@),
            StashError::Io(m) => StashErrorView::Io(m@),
        }
    }
}

/// What was extracted from a page: its title, when it has one, and its body
/// as markdown.
#[derive(Debug)]
pub struct ExtractedContent {
    pub title: Option<String>,
    pub body_markdown: String,
}

/// Everything a stash writes: the document, the ledger entry, and the page
/// reported back.
#[derive(Debug)]
pub struct StashPlan {
    pub document: String,
    pub entry: LedgerEntry,
    pub page: StashedPage,
}

// ── specifications ──────────────────────────────────────────────────────────

/// The message a stash error is shown with.
pub open spec fn stash_error_message(e: StashErrorView) -> Seq<char> {
    match e {
        StashErrorView::DuplicateUrl { existing_file } => "already stashed \u{2192} "@ + existing_file,
        StashErrorView::Fetch(f) => fetch_error_message(f),
        StashErrorView::Extract(m) => m,
        StashErrorView::Io(m) => "I/O error: "@ + m,
    }
}

/// The view of an optional title.
pub open spec fn title_view(title: Option<String>) -> Option<Seq<char>> {
    match title {
        Some(t) => Some(t@),
        None => None,
    }
}

/// `plan` is what stashing `url` with `content` under the file name
/// `filename` (without extension) at time `fetched_at` writes: the formatted
/// document, a ledger entry for `url` that names `filename.md`, and the page
/// with the same URL and file.
pub open spec fn is_plan_for(
    plan: StashPlan,
    url: Seq<char>,
    content: ExtractedContent,
    filename: Seq<char>,
    fetched_at: Seq<char>,
) -> bool {
    &&& plan.document@ == document(title_view(content.title), url, fetched_at, content.body_markdown@)
    &&& plan.entry.url@ == url
    &&& plan.entry.fetched_at@ == fetched_at
    &&& plan.entry.file@ == filename + ".md"@
    &&& plan.page.url@ == url
    &&& plan.page.filename@ == filename + ".md"@
}

// ── executable code ─────────────────────────────────────────────────────────

impl StashError {
    /// The message this error is shown with.
    pub fn message(&self) -> (m: String)
        ensures
            m@ == stash_error_message(self@),
    {
        let mut m = String::new();
        match self {
            StashError::DuplicateUrl { existing_file } => {
                push_str(&mut m, "already stashed \u{2192} ");
                push_str(&mut m, existing_file.as_str());
            },
            StashError::Fetch(e) => {
                let inner = e.message();
                push_str(&mut m, inner.as_str());
            },
            StashError::Extract(e) => push_str(&mut m, e.as_str()),
            StashError::Io(e) => {
                push_str(&mut m, "I/O error: ");
                push_str(&mut m, e.as_str());
            },
        }
        m
    }
}

impl From<FetchError> for StashError {
    fn from(e: FetchError) -> (r: StashError) {
        StashError::Fetch(e)
    }
}

impl vstd::std_specs::convert::FromSpecImpl<FetchError> for StashError {
    open spec fn obeys_from_spec() -> bool {
        true
    }

    open spec fn from_spec(e: FetchError) -> StashError {
        StashError::Fetch(e)
    }
}

/// Refuses a URL that the ledger already records (exactly), naming the file
/// it was stashed to; any other URL may be stashed.
pub fn check_not_stashed(entries: &[LedgerEntry], url: &str) -> (r: Result<(), StashError>)
    ensures
        r is Ok <==> !has_url(entries@, url@),
        r matches Err(e) ==> exists|i: int|
            first_with_url(entries@, url@, i) && e@ == (StashErrorView::DuplicateUrl {
                existing_file: entries@[i].file@,
            }),
{
    match is_duplicate(entries, url) {
        Some(existing) => Err(StashError::DuplicateUrl { existing_file: existing.file.clone() }),
        None => Ok(()),
    }
}

/// What stashing `url` writes, given the extracted content, the file name
/// chosen for it (without extension) and the fetch time.
pub fn plan_stash(url: &str, content: &ExtractedContent, filename: &str, fetched_at: &str) -> (plan:
    StashPlan)
    ensures
        is_plan_for(plan, url@, *content, filename@, fetched_at@),
{
    let title: Option<&str> = match &content.title {
        Some(t) => Some(t.as_str()),
        None => None,
    };
    let doc = format_document(title, url, fetched_at, content.body_markdown.as_str());
    let file_name = document_file_name(filename);
    let mut entry_url = String::new();
    push_str(&mut entry_url, url);
    let mut page_url = String::new();
    push_str(&mut page_url, url);
    let mut stamp = String::new();
    push_str(&mut stamp, fetched_at);
    let page_file = file_name.clone();
    StashPlan {
        document: doc,
        entry: LedgerEntry { url: entry_url, fetched_at: stamp, file: file_name },
        page: StashedPage { url: page_url, filename: page_file },
    }
}

/// An ASCII decimal digit.
pub open spec fn is_digit(c: char) -> bool {
    '0' <= c <= '9'
}

/// An RFC 3339 time in UTC with whole seconds: the year in digits (after a
/// `+` for years past 9999), then `-MM-DDTHH:MM:SSZ`, each field two digits.
pub open spec fn is_rfc3339_utc_seconds(s: Seq<char>) -> bool {
    let t = s.len() - 16;
    &&& s.len() >= 20
    &&& forall|i: int| 0 <= i < t ==> is_digit(#[trigger] s[i]) || (i == 0 && s[0] == '+')
    &&& s[t] == '-' && is_digit(s[t + 1]) && is_digit(s[t + 2])
    &&& s[t + 3] == '-' && is_digit(s[t + 4]) && is_digit(s[t + 5])
    &&& s[t + 6] == 'T' && is_digit(s[t + 7]) && is_digit(s[t + 8])
    &&& s[t + 9] == ':' && is_digit(s[t + 10]) && is_digit(s[t + 11])
    &&& s[t + 12] == ':' && is_digit(s[t + 13]) && is_digit(s[t + 14])
    &&& s[t + 15] == 'Z'
}

/// The system clock's time, as `std::time::SystemTime`.
#[verifier::external_type_specification]
#[verifier::external_body]
pub struct ExSystemTime(std::time::SystemTime);

/// `SystemTime::now`: the system clock's time. It depends on the clock, so
/// nothing is stated of it.
#[verifier::external_body]
fn system_now() -> std::time::SystemTime {
    std::time::SystemTime::now()
}

/// `SystemTime::duration_since(UNIX_EPOCH)`, in whole seconds
/// (`Duration::as_secs`), or `None` when the time lies before the epoch.
/// Which number it is depends on the clock reading, which is opaque here, so
/// nothing more is stated of it.
#[verifier::external_body]
fn seconds_since_epoch(t: &std::time::SystemTime) -> Option<u64> {
    match t.duration_since(std::time::UNIX_EPOCH) {
        Ok(d) => Some(d.as_secs()),
        Err(_) => None,
    }
}

/// The RFC 3339 text that `chrono` gives the UTC time `secs` seconds after
/// the Unix epoch, with whole seconds and a `Z` suffix; `None` when the time
/// lies outside `chrono`'s range.
pub uninterp spec fn rfc3339_at(secs: i64) -> Option<Seq<char>>;

/// `DateTime::from_timestamp(secs, 0)` formatted by
/// `DateTime::to_rfc3339_opts(SecondsFormat::Secs, true)` (`chrono`): the UTC
/// time `secs` seconds after the epoch, named `rfc3339_at`, or `None` when
/// `from_timestamp` finds it out of range. Neither call panics for such a
/// time. What holds of every text is the layout that `write_rfc3339` gives a
/// year from 0 on: four year digits (`+` and more digits past 9999), then
/// two-digit month, day, hour, minute and second between `-`, `T` and `:`,
/// then `Z`.
#[verifier::external_body]
fn rfc3339_utc(secs: i64) -> (r: Option<String>)
    requires
        secs >= 0,
    ensures
        opt_string_view(r) == rfc3339_at(secs),
        r matches Some(s) ==> is_rfc3339_utc_seconds(s@),
{
    match chrono::DateTime::from_timestamp(secs, 0) {
        Some(t) => Some(t.to_rfc3339_opts(chrono::SecondsFormat::Secs, true)),
        None => None,
    }
}

/// What the system clock reads: some time `system_now` gives, as
/// `seconds_since_epoch` turns it into whole seconds since the Unix epoch.
pub closed spec fn clock_reads(secs: Option<u64>) -> bool {
    exists|t: std::time::SystemTime|
        call_ensures(system_now, (), t) && call_ensures(seconds_since_epoch, (&t,), secs)
}

/// The fetch time written for the moment `secs` seconds after the Unix epoch:
/// what `chrono` gives for it, and `None` past the largest `i64`, which the
/// library refuses before `chrono` is asked.
pub open spec fn stamp_of(secs: u64) -> Option<Seq<char>> {
    if secs <= 0x7fff_ffff_ffff_ffff {
        rfc3339_at(secs as i64)
    } else {
        None
    }
}

/// The UTC time `secs` seconds after the Unix epoch as RFC 3339 with whole
/// seconds and a `Z` suffix, or `None` when it lies past the largest `i64` or
/// outside what `chrono` can write.
pub fn stamp_at(secs: u64) -> (r: Option<String>)
    ensures
        secs <= 0x7fff_ffff_ffff_ffff ==> opt_string_view(r) == rfc3339_at(secs as i64),
        secs > 0x7fff_ffff_ffff_ffff ==> r is None,
        opt_string_view(r) == stamp_of(secs),
        r matches Some(s) ==> is_rfc3339_utc_seconds(s@),
{
    if secs > 0x7fff_ffff_ffff_ffff {
        None
    } else {
        rfc3339_utc(secs as i64)
    }
}

/// The message a stash finishes with when the system clock gives no usable
/// time.
pub const CLOCK_OUT_OF_RANGE: &'static str = "the system clock reads before 1970 or out of range";

/// What stashing `url` writes when the page is fetched `secs` seconds after
/// the Unix epoch: as `plan_stash` with the time `stamp_at` writes for
/// `secs`, or `None` when it writes none.
pub fn plan_stash_at(url: &str, content: &ExtractedContent, filename: &str, secs: u64) -> (r:
    Option<StashPlan>)
    ensures
        r is Some <==> stamp_of(secs) is Some,
        r matches Some(plan) ==> {
            &&& stamp_of(secs) == Some(plan.entry.fetched_at@)
            &&& is_plan_for(plan, url@, *content, filename@, plan.entry.fetched_at@)
            &&& is_rfc3339_utc_seconds(plan.entry.fetched_at@)
        },
{
    match stamp_at(secs) {
        Some(stamp) => Some(plan_stash(url, content, filename, stamp.as_str())),
        None => None,
    }
}

/// What stashing `url` writes now: `plan_stash_at` with the seconds the
/// system clock reads when the plan is made, or `None` when it reads before
/// 1970 or gives a time that cannot be written. Which time that is depends
/// on the clock.
pub fn plan_stash_now(url: &str, content: &ExtractedContent, filename: &str) -> (r: Option<
    StashPlan,
>)
    ensures
        r matches Some(plan) ==> {
            &&& exists|secs: u64| stamp_of(secs) == Some(plan.entry.fetched_at@)
            &&& exists|secs: u64|
                clock_reads(Some(secs)) && #[trigger] stamp_of(secs) == Some(plan.entry.fetched_at@)
            &&& is_plan_for(plan, url@, *content, filename@, plan.entry.fetched_at@)
            &&& is_rfc3339_utc_seconds(plan.entry.fetched_at@)
        },
        r is None ==> clock_reads(None) || exists|secs: u64|
            clock_reads(Some(secs)) && #[trigger] stamp_of(secs) is None,
{
    let now = system_now();
    match seconds_since_epoch(&now) {
        Some(secs) => plan_stash_at(url, content, filename, secs),
        None => None,
    }
}

/// The stash law: once a URL that was not in the ledger has been stashed and
/// its entry appended, stashing it again is refused and names the file it was
/// stashed to; a URL that differs from it in any character (a near duplicate)
/// is judged exactly as before.
pub proof fn lemma_stash_then_duplicate(
    entries: Seq<LedgerEntry>,
    plan: StashPlan,
    url: Seq<char>,
    content: ExtractedContent,
    filename: Seq<char>,
    fetched_at: Seq<char>,
    other: Seq<char>,
)
    requires
        is_plan_for(plan, url, content, filename, fetched_at),
        !has_url(entries, url),
    ensures
        has_url(entries.push(plan.entry), url),
        first_with_url(entries.push(plan.entry), url, entries.len() as int),
        entries.push(plan.entry)[entries.len() as int].file@ == plan.page.filename@,
        other != url ==> has_url(entries.push(plan.entry), other) == has_url(entries, other),
        other != url ==> forall|i: int|
            first_with_url(entries.push(plan.entry), other, i) == first_with_url(entries, other, i),
{
    lemma_duplicate_after_append(entries, plan.entry, url);
    lemma_duplicate_after_append(entries, plan.entry, other);
    assert(entries.push(plan.entry)[entries.len() as int] == plan.entry);
}

/// No two entries of the ledger record the same URL.
pub open spec fn urls_distinct(entries: Seq<LedgerEntry>) -> bool {
    forall|i: int, j: int|
        0 <= i < j < entries.len() ==> (#[trigger] entries[i]).url@ != (#[trigger] entries[j]).url@
}

/// The ledger uniqueness law: a stash run appends an entry only for a URL
/// that the ledger did not record (`StashRun::step` asks for the append only
/// after `check_not_stashed` let the URL through and the document was
/// written). So a ledger whose URLs are distinct keeps them distinct, it then
/// records the stashed URL, and every other URL is recorded exactly when it
/// was before.
pub proof fn lemma_stash_keeps_urls_distinct(
    entries: Seq<LedgerEntry>,
    plan: StashPlan,
    url: Seq<char>,
    content: ExtractedContent,
    filename: Seq<char>,
    fetched_at: Seq<char>,
    other: Seq<char>,
)
    requires
        urls_distinct(entries),
        is_plan_for(plan, url, content, filename, fetched_at),
        !has_url(entries, url),
    ensures
        urls_distinct(entries.push(plan.entry)),
        has_url(entries.push(plan.entry), url),
        other != url ==> has_url(entries.push(plan.entry), other) == has_url(entries, other),
{
    lemma_append_new_url(entries, plan.entry, other);
}

/// Appending an entry whose URL the ledger does not record keeps distinct
/// URLs distinct, records that URL, and leaves every other URL as it was.
proof fn lemma_append_new_url(entries: Seq<LedgerEntry>, entry: LedgerEntry, other: Seq<char>)
    requires
        urls_distinct(entries),
        !has_url(entries, entry.url@),
    ensures
        urls_distinct(entries.push(entry)),
        has_url(entries.push(entry), entry.url@),
        other != entry.url@ ==> has_url(entries.push(entry), other) == has_url(entries, other),
{
    let longer = entries.push(entry);
    lemma_duplicate_after_append(entries, entry, entry.url@);
    lemma_duplicate_after_append(entries, entry, other);
    assert forall|i: int, j: int| 0 <= i < j < longer.len() implies (#[trigger] longer[i]).url@
        != (#[trigger] longer[j]).url@ by {
        assert(longer[i] == entries[i]);
        if j < entries.len() {
            assert(longer[j] == entries[j]);
        } else {
            assert(longer[j] == entry);
            if entries[i].url@ == entry.url@ {
                assert(has_url(entries, entry.url@));
            }
        }
    }
}

// ── the stash run ───────────────────────────────────────────────────────────

/// Where a stash run stands. From the duplicate check on, the stage keeps
/// (as ghost state) the ledger entries that were read for it.
pub enum StashStage {
    /// Waiting for the page to be fetched.
    AwaitPage,
    /// Waiting for the ledger entries; holds the page's HTML.
    AwaitLedger { html: String },
    /// Waiting for the content extracted from the page.
    AwaitContent { ledger: Ghost<Seq<LedgerEntry>> },
    /// Waiting for a free file name (without extension) for this content.
    AwaitName { content: ExtractedContent, ledger: Ghost<Seq<LedgerEntry>> },
    /// Waiting for the document of this plan to be written.
    AwaitWrite { plan: StashPlan, ledger: Ghost<Seq<LedgerEntry>> },
    /// The document is written; waiting for the ledger entry to be appended.
    AwaitAppend { plan: StashPlan, ledger: Ghost<Seq<LedgerEntry>> },
    /// The run has finished.
    Done,
}

/// A stash of one URL in progress.
pub struct StashRun {
    pub url: String,
    pub stage: StashStage,
}

/// What the caller is to do next for a stash run.
#[derive(Debug)]
pub enum StashAction {
    /// Fetch the page at the run's URL.
    FetchPage,
    /// Read the ledger entries of the stash.
    ReadLedger,
    /// Extract the content of this HTML.
    Extract { html: String },
    /// Pick a free file name (without extension) for a page with this title.
    NameFile { title: Option<String> },
    /// Write this document to this file inside the stash directory.
    WriteDocument { file_name: String, document: String },
    /// Append this entry to the ledger.
    AppendEntry { entry: LedgerEntry },
    /// The run is over, with this result.
    Finish(Result<StashedPage, StashError>),
}

/// What came back from the caller's work.
#[derive(Debug)]
pub enum StashEvent {
    /// The fetched page, or why it could not be fetched.
    Fetched(Result<FetchResult, FetchError>),
    /// The ledger entries, or the message of the error that reading them gave.
    LedgerRead(Result<Vec<LedgerEntry>, String>),
    /// The extracted content, or why there is none.
    Extracted(Result<ExtractedContent, String>),
    /// The file name picked (without extension).
    Named(String),
    /// Whether the document was written, or the message of the error.
    Written(Result<(), String>),
    /// Whether the ledger entry was appended, or the message of the error.
    Appended(Result<(), String>),
}

/// The event is the one that the stage waits for.
pub open spec fn event_fits(stage: StashStage, event: StashEvent) -> bool {
    match stage {
        StashStage::AwaitPage => event is Fetched,
        StashStage::AwaitLedger { .. } => event is LedgerRead,
        StashStage::AwaitContent { .. } => event is Extracted,
        StashStage::AwaitName { .. } => event is Named,
        StashStage::AwaitWrite { .. } => event is Written,
        StashStage::AwaitAppend { .. } => event is Appended,
        StashStage::Done => false,
    }
}

/// The run finished with the error `e`.
pub open spec fn finished_with_error(r: (StashRun, StashAction), e: StashErrorView) -> bool {
    &&& r.0.stage is Done
    &&& r.1 matches StashAction::Finish(Err(x)) && x@ == e
}

/// The ledger entries that a stage keeps, once the duplicate check is done.
pub open spec fn stage_ledger(stage: StashStage) -> Option<Seq<LedgerEntry>> {
    match stage {
        StashStage::AwaitContent { ledger } => Some(ledger@),
        StashStage::AwaitName { ledger, .. } => Some(ledger@),
        StashStage::AwaitWrite { ledger, .. } => Some(ledger@),
        StashStage::AwaitAppend { ledger, .. } => Some(ledger@),
        _ => None,
    }
}

impl StashRun {
    /// The run's invariant: past the duplicate check, the ledger that was
    /// read does not record the run's URL, and a plan's entry records that
    /// URL.
    pub open spec fn wf(self) -> bool {
        &&& stage_ledger(self.stage) matches Some(ledger) ==> !has_url(ledger, self.url@)
        &&& self.stage matches StashStage::AwaitWrite { plan, .. } ==> plan.entry.url@ == self.url@
        &&& self.stage matches StashStage::AwaitAppend { plan, .. } ==> plan.entry.url@ == self.url@
    }
}

/// Full pipeline: starts stashing `url` by fetching it first. Once the page
/// is fetched, the run goes on with the URL it was finally fetched from
/// (normalised, after redirects), for the duplicate check, the document and
/// the ledger entry.
pub fn stash_url(url: &str) -> (r: (StashRun, StashAction))
    ensures
        r.0.url@ == url@,
        r.0.wf(),
        r.0.stage is AwaitPage,
        r.1 is FetchPage,
{
    let mut u = String::new();
    push_str(&mut u, url);
    (StashRun { url: u, stage: StashStage::AwaitPage }, StashAction::FetchPage)
}

/// Extract-write-ledger pipeline with pre-fetched HTML: starts stashing `url`
/// with `html` by reading the ledger.
pub fn stash_html(url: &str, html: &str) -> (r: (StashRun, StashAction))
    ensures
        r.0.url@ == url@,
        r.0.wf(),
        r.0.stage matches StashStage::AwaitLedger { html: h } && h@ == html@,
        r.1 is ReadLedger,
{
    let mut u = String::new();
    push_str(&mut u, url);
    let mut h = String::new();
    push_str(&mut h, html);
    (StashRun { url: u, stage: StashStage::AwaitLedger { html: h } }, StashAction::ReadLedger)
}

impl StashRun {
    /// Whether `event` is what this run waits for.
    pub fn accepts(&self, event: &StashEvent) -> (b: bool)
        ensures
            b == event_fits(self.stage, *event),
    {
        match (&self.stage, event) {
            (StashStage::AwaitPage, StashEvent::Fetched(_)) => true,
            (StashStage::AwaitLedger { .. }, StashEvent::LedgerRead(_)) => true,
            (StashStage::AwaitContent { .. }, StashEvent::Extracted(_)) => true,
            (StashStage::AwaitName { .. }, StashEvent::Named(_)) => true,
            (StashStage::AwaitWrite { .. }, StashEvent::Written(_)) => true,
            (StashStage::AwaitAppend { .. }, StashEvent::Appended(_)) => true,
            _ => false,
        }
    }

    /// Moves the run on with what came back. A fetched page replaces the
    /// run's URL with the one it was finally fetched from; a page that could
    /// not be fetched finishes the run with the fetch error; a system clock
    /// that gives no usable time finishes it when the plan is made; a URL already in the
    /// ledger finishes it as a duplicate before anything is extracted or
    /// written; any other failure finishes it with that error; the ledger
    /// entry is appended only once the document has been written, and the run
    /// succeeds only once the entry has been appended.
    pub fn step(self, event: StashEvent) -> (r: (StashRun, StashAction))
        requires
            event_fits(self.stage, event),
        ensures
            self.wf() ==> r.0.wf(),
            stage_ledger(self.stage) is Some && stage_ledger(r.0.stage) is Some ==> stage_ledger(
                r.0.stage,
            ) == stage_ledger(self.stage),
            event matches StashEvent::Fetched(Ok(page)) ==> r.0.url == page.url,
            !(event is Fetched) ==> r.0.url == self.url,
            event matches StashEvent::Fetched(Ok(page)) ==> {
                &&& r.0.stage matches StashStage::AwaitLedger { html } && html == page.html
                &&& r.1 is ReadLedger
            },
            event matches StashEvent::Fetched(Err(e)) ==> finished_with_error(
                r,
                StashErrorView::Fetch(e@),
            ),
            (self.stage, event) matches (
                StashStage::AwaitLedger { html },
                StashEvent::LedgerRead(Ok(entries)),
            ) ==> if has_url(entries@, self.url@) {
                exists|i: int|
                    first_with_url(entries@, self.url@, i) && finished_with_error(
                        r,
                        StashErrorView::DuplicateUrl { existing_file: entries@[i].file@ },
                    )
            } else {
                &&& r.0.stage matches StashStage::AwaitContent { ledger } && ledger@ == entries@
                &&& r.1 matches StashAction::Extract { html: h } && h == html
            },
            event matches StashEvent::LedgerRead(Err(m)) ==> finished_with_error(
                r,
                StashErrorView::Io(m@),
            ),
            event matches StashEvent::Extracted(Ok(c)) ==> {
                &&& r.0.stage matches StashStage::AwaitName { content, .. } && content == c
                &&& r.1 matches StashAction::NameFile { title } && title == c.title
            },
            event matches StashEvent::Extracted(Err(m)) ==> finished_with_error(
                r,
                StashErrorView::Extract(m@),
            ),
            (self.stage, event) matches (StashStage::AwaitName { content, .. }, StashEvent::Named(base))
                ==> {
                ||| finished_with_error(r, StashErrorView::Io(CLOCK_OUT_OF_RANGE@)) && (clock_reads(None)
                    || exists|secs: u64| clock_reads(Some(secs)) && #[trigger] stamp_of(secs) is None)
                ||| r.0.stage matches StashStage::AwaitWrite { plan, .. } && (is_plan_for(
                    plan,
                    self.url@,
                    content,
                    base@,
                    plan.entry.fetched_at@,
                ) && is_rfc3339_utc_seconds(plan.entry.fetched_at@) && (exists|secs: u64|
                    stamp_of(secs) == Some(plan.entry.fetched_at@)) && (exists|secs: u64|
                    clock_reads(Some(secs)) && #[trigger] stamp_of(secs) == Some(plan.entry.fetched_at@))
                    && (r.1 matches StashAction::WriteDocument { file_name, document } && (file_name@
                    == plan.page.filename@ && document@ == plan.document@)))
            },
            (self.stage, event) matches (StashStage::AwaitWrite { plan, .. }, StashEvent::Written(Ok(())))
                ==> {
                &&& r.0.stage matches StashStage::AwaitAppend { plan: p, .. } && p == plan
                &&& r.1 matches StashAction::AppendEntry { entry } && entry == plan.entry
            },
            event matches StashEvent::Written(Err(m)) ==> finished_with_error(
                r,
                StashErrorView::Io(m@),
            ),
            (self.stage, event) matches (StashStage::AwaitAppend { plan, .. }, StashEvent::Appended(
                Ok(()),
            )) ==> {
                &&& r.0.stage is Done
                &&& r.1 matches StashAction::Finish(Ok(page)) && page == plan.page
            },
            event matches StashEvent::Appended(Err(m)) ==> finished_with_error(
                r,
                StashErrorView::Io(m@),
            ),
            r.1 is Extract ==> self.stage is AwaitLedger,
            r.1 is WriteDocument ==> self.stage is AwaitName,
            r.1 is AppendEntry ==> self.stage is AwaitWrite && event matches StashEvent::Written(
                Ok(()),
            ),
            r.1 matches StashAction::Finish(Ok(_)) ==> self.stage is AwaitAppend
                && event matches StashEvent::Appended(Ok(())),
    {
        let url = self.url;
        match (self.stage, event) {
            (StashStage::AwaitPage, StashEvent::Fetched(Ok(page))) => {
                (
                    StashRun { url: page.url, stage: StashStage::AwaitLedger { html: page.html } },
                    StashAction::ReadLedger,
                )
            },
            (StashStage::AwaitPage, StashEvent::Fetched(Err(e))) => {
                (StashRun { url, stage: StashStage::Done }, StashAction::Finish(Err(StashError::from(e))))
            },
            (StashStage::AwaitLedger { html }, StashEvent::LedgerRead(Ok(entries))) => {
                match check_not_stashed(entries.as_slice(), url.as_str()) {
                    Ok(()) => (
                        StashRun { url, stage: StashStage::AwaitContent { ledger: Ghost(entries@) } },
                        StashAction::Extract { html },
                    ),
                    Err(e) => (StashRun { url, stage: StashStage::Done }, StashAction::Finish(Err(e))),
                }
            },
            (StashStage::AwaitLedger { .. }, StashEvent::LedgerRead(Err(m))) => {
                (StashRun { url, stage: StashStage::Done }, StashAction::Finish(Err(StashError::Io(m))))
            },
            (StashStage::AwaitContent { ledger }, StashEvent::Extracted(Ok(content))) => {
                let title = match &content.title {
                    Some(t) => Some(t.clone()),
                    None => None,
                };
                (
                    StashRun { url, stage: StashStage::AwaitName { content, ledger } },
                    StashAction::NameFile { title },
                )
            },
            (StashStage::AwaitContent { .. }, StashEvent::Extracted(Err(m))) => {
                (
                    StashRun { url, stage: StashStage::Done },
                    StashAction::Finish(Err(StashError::Extract(m))),
                )
            },
            (StashStage::AwaitName { content, ledger }, StashEvent::Named(base)) => {
                match plan_stash_now(url.as_str(), &content, base.as_str()) {
                    Some(plan) => {
                        let file_name = plan.page.filename.clone();
                        let document = plan.document.clone();
                        (
                            StashRun { url, stage: StashStage::AwaitWrite { plan, ledger } },
                            StashAction::WriteDocument { file_name, document },
                        )
                    },
                    None => {
                        let mut m = String::new();
                        push_str(&mut m, CLOCK_OUT_OF_RANGE);
                        (StashRun { url, stage: StashStage::Done }, StashAction::Finish(Err(StashError::Io(m))))
                    },
                }
            },
            (StashStage::AwaitWrite { plan, ledger }, StashEvent::Written(Ok(()))) => {
                let entry = LedgerEntry {
                    url: plan.entry.url.clone(),
                    fetched_at: plan.entry.fetched_at.clone(),
                    file: plan.entry.file.clone(),
                };
                (
                    StashRun { url, stage: StashStage::AwaitAppend { plan, ledger } },
                    StashAction::AppendEntry { entry },
                )
            },
            (StashStage::AwaitWrite { .. }, StashEvent::Written(Err(m))) => {
                (StashRun { url, stage: StashStage::Done }, StashAction::Finish(Err(StashError::Io(m))))
            },
            (StashStage::AwaitAppend { plan, .. }, StashEvent::Appended(Ok(()))) => {
                (StashRun { url, stage: StashStage::Done }, StashAction::Finish(Ok(plan.page)))
            },
            (StashStage::AwaitAppend { .. }, StashEvent::Appended(Err(m))) => {
                (StashRun { url, stage: StashStage::Done }, StashAction::Finish(Err(StashError::Io(m))))
            },
            _ => {
                (StashRun { url, stage: StashStage::Done }, StashAction::Finish(Err(StashError::Io(String::new()))))
            },
        }
    }
}

/// The ledger uniqueness law over a whole stash run. A run asks for one
/// append at most: `step` sends `AppendEntry` only on its way into
/// `AwaitAppend`, with the plan's entry, and every step from there finishes
/// the run. In a well-formed run (`stash_url` and `stash_html` start one, and
/// `step` keeps it so) that entry records the run's URL, which the ledger
/// read for the duplicate check does not record. So appending it to that
/// ledger keeps distinct URLs distinct, records the run's URL, and leaves
/// every other URL recorded exactly when it was before.
pub proof fn lemma_run_keeps_urls_distinct(run: StashRun, other: Seq<char>)
    requires
        run.wf(),
        run.stage matches StashStage::AwaitAppend { ledger, .. } && urls_distinct(ledger@),
    ensures
        run.stage matches StashStage::AwaitAppend { plan, ledger } ==> {
            &&& urls_distinct(ledger@.push(plan.entry))
            &&& has_url(ledger@.push(plan.entry), run.url@)
            &&& other != run.url@ ==> has_url(ledger@.push(plan.entry), other) == has_url(
                ledger@,
                other,
            )
        },
{
    match run.stage {
        StashStage::AwaitAppend { plan, ledger } => {
            lemma_append_new_url(ledger@, plan.entry, other);
        },
        _ => {},
    }
}

} // verus!
