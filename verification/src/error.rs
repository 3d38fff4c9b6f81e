use vstd::prelude::*;

verus! {

/// Errors produced by the library.
///
/// Variants fall into three buckets that the binary maps to distinct exit codes:
/// preflight refusals (the repo/branch isn't in a state to PR), the `Aborted`
/// and `EmptyTitle` user-cancellation cases, and operational failures from the
/// underlying `git`/`gh` processes.
#[derive(Debug, Clone, PartialEq, Eq)]
pub enum SenditError {
    NotARepo,
    NotAuthenticated,
    GhNotInstalled,
    GitNotInstalled,
    OnTrunk(String),
    DetachedHead,
    NoTrunk,
    NothingToSend { trunk: String },
    GitFailed(String),
    GhFailed(String),
    GhParse(String),
    EditorFailed(String),
    EmptyTitle,
    TitleRequired,
    Aborted,
    /// An I/O error, by its text.
    Io(String),
}

/// A `SenditError` with each string taken by its characters.
pub enum ErrorView {
    NotARepo,
    NotAuthenticated,
    GhNotInstalled,
    GitNotInstalled,
    OnTrunk(Seq<char>),
    DetachedHead,
    NoTrunk,
    NothingToSend { trunk: Seq<char> },
    GitFailed(Seq<char>),
    GhFailed(Seq<char>),
    GhParse(Seq<char>),
    EditorFailed(Seq<char>),
    EmptyTitle,
    TitleRequired,
    Aborted,
    Io(Seq<char>),
}

impl View for SenditError {
    type V = ErrorView;

    open spec fn view(&self) -> ErrorView {
        match self {
            SenditError::NotARepo => ErrorView::NotARepo,
            SenditError::NotAuthenticated => ErrorView::NotAuthenticated,
            SenditError::GhNotInstalled => ErrorView::GhNotInstalled,
            SenditError::GitNotInstalled => ErrorView::GitNotInstalled,
            SenditError::OnTrunk(b) => ErrorView::OnTrunk(b@),
            SenditError::DetachedHead => ErrorView::DetachedHead,
            SenditError::NoTrunk => ErrorView::NoTrunk,
            SenditError::NothingToSend { trunk } => ErrorView::NothingToSend { trunk: trunk@ },
            SenditError::GitFailed(m) => ErrorView::GitFailed(m@),
            SenditError::GhFailed(m) => ErrorView::GhFailed(m@),
            SenditError::GhParse(m) => ErrorView::GhParse(m@),
            SenditError::EditorFailed(m) => ErrorView::EditorFailed(m@),
            SenditError::EmptyTitle => ErrorView::EmptyTitle,
            SenditError::TitleRequired => ErrorView::TitleRequired,
            SenditError::Aborted => ErrorView::Aborted,
            SenditError::Io(m) => ErrorView::Io(m@),
        }
    }
}

/// The text that describes an error to the user.
pub open spec fn error_text(e: ErrorView) -> Seq<char> {
    match e {
        ErrorView::NotARepo => "not inside a git repository"@,
        ErrorView::NotAuthenticated => "GitHub CLI not authenticated; run `gh auth login`"@,
        ErrorView::GhNotInstalled => "`gh` not found on PATH; install the GitHub CLI (https://cli.github.com)"@,
        ErrorView::GitNotInstalled => "`git` not found on PATH"@,
        ErrorView::OnTrunk(b) => "refusing to open a PR from trunk branch `"@ + b
            + "`; check out a feature branch first"@,
        ErrorView::DetachedHead => "detached HEAD; check out a branch first"@,
        ErrorView::NoTrunk => "could not determine the trunk/default branch; pass --base <ref>"@,
        ErrorView::NothingToSend { trunk } => "no commits ahead of `"@ + trunk
            + "`; nothing to send"@,
        ErrorView::GitFailed(m) => "git command failed: "@ + m,
        ErrorView::GhFailed(m) => "gh command failed: "@ + m,
        ErrorView::GhParse(m) => "failed to parse gh JSON output: "@ + m,
        ErrorView::EditorFailed(ed) => "editor `"@ + ed + "` exited with an error"@,
        ErrorView::EmptyTitle => "empty PR title; aborting (nothing was pushed or created)"@,
        ErrorView::TitleRequired => "a PR title is required: pass --title, or run interactively to use the editor"@,
        ErrorView::Aborted => "aborted by user"@,
        ErrorView::Io(m) => "I/O error: "@ + m,
    }
}

/// The process exit code for a failed run: `1` empty title, `2` preflight
/// refusal, `3` operational failure, `130` user abort.
pub open spec fn error_exit_code(e: ErrorView) -> i32 {
    match e {
        ErrorView::Aborted => 130,
        ErrorView::EmptyTitle => 1,
        ErrorView::NotARepo | ErrorView::DetachedHead | ErrorView::OnTrunk(_)
        | ErrorView::NoTrunk | ErrorView::NothingToSend { .. }
        | ErrorView::NotAuthenticated | ErrorView::GhNotInstalled
        | ErrorView::GitNotInstalled | ErrorView::TitleRequired => 2,
        _ => 3,
    }
}

fn lit3(a: &str, b: &String, c: &str) -> (s: String)
    ensures
        s@ == a@ + b@ + c@,
{
    let mut s = String::from_str(a);
    s.append(b.as_str());
    s.append(c);
    s
}

fn lit2(a: &str, b: &String) -> (s: String)
    ensures
        s@ == a@ + b@,
{
    let mut s = String::from_str(a);
    s.append(b.as_str());
    s
}

impl SenditError {
    /// The text that describes this error to the user.
    pub fn message(&self) -> (s: String)
        ensures
            s@ == error_text(self@),
    {
        match self {
            SenditError::NotARepo => String::from_str("not inside a git repository"),
            SenditError::NotAuthenticated => String::from_str(
                "GitHub CLI not authenticated; run `gh auth login`",
            ),
            SenditError::GhNotInstalled => String::from_str(
                "`gh` not found on PATH; install the GitHub CLI (https://cli.github.com)",
            ),
            SenditError::GitNotInstalled => String::from_str("`git` not found on PATH"),
            SenditError::OnTrunk(b) => lit3(
                "refusing to open a PR from trunk branch `",
                b,
                "`; check out a feature branch first",
            ),
            SenditError::DetachedHead => String::from_str("detached HEAD; check out a branch first"),
            SenditError::NoTrunk => String::from_str(
                "could not determine the trunk/default branch; pass --base <ref>",
            ),
            SenditError::NothingToSend { trunk } => lit3(
                "no commits ahead of `",
                trunk,
                "`; nothing to send",
            ),
            SenditError::GitFailed(m) => lit2("git command failed: ", m),
            SenditError::GhFailed(m) => lit2("gh command failed: ", m),
            SenditError::GhParse(m) => lit2("failed to parse gh JSON output: ", m),
            SenditError::EditorFailed(ed) => lit3("editor `", ed, "` exited with an error"),
            SenditError::EmptyTitle => String::from_str(
                "empty PR title; aborting (nothing was pushed or created)",
            ),
            SenditError::TitleRequired => String::from_str(
                "a PR title is required: pass --title, or run interactively to use the editor",
            ),
            SenditError::Aborted => String::from_str("aborted by user"),
            SenditError::Io(m) => lit2("I/O error: ", m),
        }
    }

    /// The process exit code for a run that ended in this error.
    pub fn exit_code(&self) -> (code: i32)
        ensures
            code == error_exit_code(self@),
    {
        match self {
            SenditError::Aborted => 130,
            SenditError::EmptyTitle => 1,
            SenditError::NotARepo | SenditError::DetachedHead | SenditError::OnTrunk(_)
            | SenditError::NoTrunk | SenditError::NothingToSend { .. }
            | SenditError::NotAuthenticated | SenditError::GhNotInstalled
            | SenditError::GitNotInstalled | SenditError::TitleRequired => 2,
            _ => 3,
        }
    }
}

/// The exit code of a run that ended with `r`: `0` when it finished with its
/// summary, otherwise the error's code.
pub open spec fn run_exit_code(r: Result<Seq<char>, ErrorView>) -> i32 {
    match r {
        Ok(_) => 0,
        Err(e) => error_exit_code(e),
    }
}

/// The process exit code for a run that ended with `r`.
pub fn exit_status(r: &Result<String, SenditError>) -> (c: i32)
    ensures
        c == run_exit_code(text_result(*r)),
{
    match r {
        Ok(_) => 0,
        Err(e) => e.exit_code(),
    }
}

/// The line written to standard error for a run that ended in `e`.
pub open spec fn error_line_text(e: ErrorView) -> Seq<char> {
    "sendit: "@ + error_text(e)
}

/// The line to write to standard error for a run that ended in this error:
/// `sendit: ` and the error's text.
pub fn error_line(e: &SenditError) -> (s: String)
    ensures
        s@ == error_line_text(e@),
{
    let m = e.message();
    let mut s = String::from_str("sendit: ");
    s.append(m.as_str());
    s
}

} // verus!

verus! {

/// A result holding a string, taken by the views of the string and the error.
pub open spec fn text_result(r: Result<String, SenditError>) -> Result<Seq<char>, ErrorView> {
    match r {
        Ok(s) => Ok(s@),
        Err(e) => Err(e@),
    }
}

} // verus!
