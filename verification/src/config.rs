//! The `bo` configuration: where the stash lives, and what reading the
//! configuration file means for the commands.
//!
//! The configuration lives at `$HOME/.bo/config.json` by default. Reading and
//! writing the file is the caller's work; this module holds the decisions.

use vstd::prelude::*;

use crate::ledger::{json_quote, json_string};
use crate::paths::{join, join_path};
use crate::text::push_str;

verus! {

/// The saved configuration: the directory that holds the stash.
#[derive(Debug)]
pub struct Config {
    pub output_dir: String,
}

/// Why the configuration could not be read.
#[derive(Debug)]
pub enum ConfigError {
    /// There is no configuration file.
    NotFound,
    /// The file could not be read or written; holds the system's message.
    Io(String),
    /// The file is not valid configuration JSON; holds the parser's message.
    Parse(String),
}

/// A `ConfigError` with its message taken by its view.
pub enum ConfigErrorView {
    NotFound,
    Io(Seq<char>),
    Parse(Seq<char>),
}

impl View for ConfigError {
    type V = ConfigErrorView;

    open spec fn view(&self) -> ConfigErrorView {
        match self {
            ConfigError::NotFound => ConfigErrorView::NotFound,
            ConfigError::Io(m) => ConfigErrorView::Io(m@),
            ConfigError::Parse(m) => ConfigErrorView::Parse(m@),
        }
    }
}

/// The hint shown when a command needs a stash and none has been set up.
pub const NOT_SEEDED_MSG: &'static str = "bo hasn't been seeded yet \u{2014} run: bo seed <output-dir>";

// ── specifications ──────────────────────────────────────────────────────────

/// The message a configuration error is shown with.
pub open spec fn config_error_message(e: ConfigErrorView) -> Seq<char> {
    match e {
        ConfigErrorView::NotFound => "config file not found"@,
        ConfigErrorView::Io(m) => "config I/O error: "@ + m,
        ConfigErrorView::Parse(m) => "config parse error: "@ + m,
    }
}

/// The default configuration file for a home directory (`.` when there is
/// none): `<home>/.bo/config.json`.
pub open spec fn config_file_for(home: Option<Seq<char>>) -> Seq<char> {
    let h = match home {
        Some(h) => h,
        None => "."@,
    };
    join_path(join_path(h, ".bo"@), "config.json"@)
}

/// A directory made absolute against the current directory `cwd`, as
/// `Path::is_absolute` and `Path::join` decide it.
pub open spec fn absolute_dir(dir: Seq<char>, cwd: Seq<char>) -> Seq<char> {
    if dir.len() > 0 && dir[0] == '/' {
        dir
    } else {
        join_path(cwd, dir)
    }
}

/// The seeded directory is absolute whenever the current directory is: a
/// directory that starts at the root is kept as it is, and any other one
/// (`./my-stash`, `my-stash`, `../x`) is joined onto the current directory,
/// with one `/` between them unless the current directory already ends with
/// one.
pub proof fn lemma_output_dir_is_absolute(dir: Seq<char>, cwd: Seq<char>)
    ensures
        dir.len() > 0 && dir[0] == '/' ==> absolute_dir(dir, cwd) == dir,
        !(dir.len() > 0 && dir[0] == '/') && cwd.len() > 0 && cwd.last() != '/' ==> absolute_dir(
            dir,
            cwd,
        ) == cwd + seq!['/'] + dir,
        !(dir.len() > 0 && dir[0] == '/') && (cwd.len() == 0 || cwd.last() == '/') ==> absolute_dir(
            dir,
            cwd,
        ) == cwd + dir,
        !(dir.len() > 0 && dir[0] == '/') ==> cwd.is_prefix_of(absolute_dir(dir, cwd))
            && dir.is_suffix_of(absolute_dir(dir, cwd)),
        cwd.len() > 0 && cwd[0] == '/' ==> absolute_dir(dir, cwd).len() > 0 && absolute_dir(
            dir,
            cwd,
        )[0] == '/',
{
    let r = absolute_dir(dir, cwd);
    if !(dir.len() > 0 && dir[0] == '/') {
        if cwd.len() > 0 && cwd.last() != '/' {
            assert(r =~= cwd + (seq!['/'] + dir));
        }
        assert(r.subrange(0, cwd.len() as int) =~= cwd);
        assert(r.subrange(r.len() - dir.len(), r.len() as int) =~= dir);
        if cwd.len() > 0 {
            assert(r[0] == cwd[0]);
        }
    }
}

// ── executable code ─────────────────────────────────────────────────────────

impl ConfigError {
    /// The message this error is shown with.
    pub fn message(&self) -> (m: String)
        ensures
            m@ == config_error_message(self@),
    {
        let mut m = String::new();
        match self {
            ConfigError::NotFound => push_str(&mut m, "config file not found"),
            ConfigError::Io(e) => {
                push_str(&mut m, "config I/O error: ");
                push_str(&mut m, e.as_str());
            },
            ConfigError::Parse(e) => {
                push_str(&mut m, "config parse error: ");
                push_str(&mut m, e.as_str());
            },
        }
        m
    }
}

/// The configuration file under the home directory `home` (`.` when there is
/// none): `<home>/.bo/config.json`.
pub fn config_path_for(home: Option<&str>) -> (p: String)
    ensures
        p@ == config_file_for(
            match home {
                Some(h) => Some(h@),
                None => None,
            },
        ),
{
    let dir = match home {
        Some(h) => join(h, ".bo"),
        None => join(".", ".bo"),
    };
    join(dir.as_str(), "config.json")
}

/// The hint shown when no stash has been set up.
pub fn not_seeded_err() -> (m: String)
    ensures
        m@ == NOT_SEEDED_MSG@,
{
    let mut m = String::new();
    push_str(&mut m, NOT_SEEDED_MSG);
    m
}

/// What a command that needs the configuration makes of reading it: the
/// configuration itself; the seeding hint when there is no file; or a
/// message that names the error.
pub fn require_config_from(read: Result<Config, ConfigError>) -> (r: Result<Config, String>)
    ensures
        match read {
            Ok(c) => r == Ok::<Config, String>(c),
            Err(e) => r matches Err(m) && m@ == (if e is NotFound {
                NOT_SEEDED_MSG@
            } else {
                "failed to read config: "@ + config_error_message(e@)
            }),
        },
{
    match read {
        Ok(c) => Ok(c),
        Err(ConfigError::NotFound) => Err(not_seeded_err()),
        Err(e) => {
            let mut m = String::new();
            push_str(&mut m, "failed to read config: ");
            let detail = e.message();
            push_str(&mut m, detail.as_str());
            Err(m)
        },
    }
}

/// What `bo seed` does, given what reading the configuration gave.
#[derive(Debug)]
pub enum SeedStep {
    /// A stash is already set up: show this message and stop, successfully.
    AlreadySeeded(String),
    /// Create the stash directory and write the configuration.
    Create,
    /// Stop with this error.
    Fail(String),
}

/// Decides `bo seed` from what reading the configuration gave: an existing
/// configuration is left as it is, a missing one is created, and any other
/// error stops the command.
pub fn seed_step(existing: &Result<Config, ConfigError>) -> (s: SeedStep)
    ensures
        match existing {
            Ok(c) => s matches SeedStep::AlreadySeeded(m) && m@ == "bo has already been seeded at "@
                + c.output_dir@ + "!"@,
            Err(ConfigError::NotFound) => s is Create,
            Err(e) => s matches SeedStep::Fail(m) && m@ == "failed to read config: "@
                + config_error_message(e@),
        },
{
    match existing {
        Ok(c) => {
            let mut m = String::new();
            push_str(&mut m, "bo has already been seeded at ");
            push_str(&mut m, c.output_dir.as_str());
            push_str(&mut m, "!");
            SeedStep::AlreadySeeded(m)
        },
        Err(ConfigError::NotFound) => SeedStep::Create,
        Err(e) => {
            let mut m = String::new();
            push_str(&mut m, "failed to read config: ");
            let detail = e.message();
            push_str(&mut m, detail.as_str());
            SeedStep::Fail(m)
        },
    }
}

/// `dir` made absolute: kept when it starts at the root, else joined onto
/// the current directory `cwd`.
pub fn resolve_output_dir(dir: &str, cwd: &str) -> (r: String)
    ensures
        r@ == absolute_dir(dir@, cwd@),
        dir@.len() > 0 && dir@[0] == '/' ==> r@ == dir@,
        !(dir@.len() > 0 && dir@[0] == '/') ==> cwd@.is_prefix_of(r@) && dir@.is_suffix_of(r@),
        cwd@.len() > 0 && cwd@[0] == '/' ==> r@.len() > 0 && r@[0] == '/',
{
    proof {
        lemma_output_dir_is_absolute(dir@, cwd@);
    }
    let cs = crate::text::chars_of(dir);
    if cs.len() > 0 && cs[0] == '/' {
        let mut r = String::new();
        push_str(&mut r, dir);
        r
    } else {
        join(cwd, dir)
    }
}

/// The text of the configuration file, as serde writes the configuration
/// pretty-printed: one field, indented by two spaces.
pub open spec fn config_file_text(output_dir: Seq<char>) -> Seq<char> {
    "{\n  \"output_dir\": "@ + json_string(output_dir) + "\n}"@
}

/// The text of the configuration file for the stash directory `output_dir`.
pub fn config_json(output_dir: &str) -> (r: String)
    ensures
        r@ == config_file_text(output_dir@),
{
    let quoted = match json_quote(output_dir) {
        Some(q) => q,
        None => String::new(),
    };
    let mut r = String::new();
    push_str(&mut r, "{\n  \"output_dir\": ");
    push_str(&mut r, quoted.as_str());
    push_str(&mut r, "\n}");
    r
}

} // verus!
