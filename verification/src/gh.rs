use crate::command::{
    gh_invocation, invocation_args, lossy_text, utf8_text, stderr_text, stdout_text, succeeded,
    CommandOutcome, CommandOutput, Invocation, Tool,
};
use crate::error::{text_result, ErrorView, SenditError};
use crate::text::{chars_of, string_of, strings_of, strings_view, trim, trim_chars};
use vstd::prelude::*;
use vstd::utf8::{decode_utf8, valid_utf8};

verus! {

/// An open PR already associated with the current branch.
#[derive(Debug, Clone, PartialEq, Eq)]
pub struct ExistingPr {
    pub number: u64,
    pub url: String,
    pub state: String,
    pub is_draft: bool,
}

/// An existing PR, its strings taken by their characters.
pub struct ExistingPrView {
    pub number: u64,
    pub url: Seq<char>,
    pub state: Seq<char>,
    pub is_draft: bool,
}

impl View for ExistingPr {
    type V = ExistingPrView;

    open spec fn view(&self) -> ExistingPrView {
        ExistingPrView {
            number: self.number,
            url: self.url@,
            state: self.state@,
            is_draft: self.is_draft,
        }
    }
}

/// An optional existing PR, taken by its view.
pub open spec fn opt_pr_view(p: Option<ExistingPr>) -> Option<ExistingPrView> {
    match p {
        Some(x) => Some(x@),
        None => None,
    }
}

impl ExistingPr {
    /// A copy with the same fields.
    pub fn duplicate(&self) -> (r: ExistingPr)
        ensures
            r@ == self@,
    {
        ExistingPr {
            number: self.number,
            url: self.url.clone(),
            state: self.state.clone(),
            is_draft: self.is_draft,
        }
    }
}

/// How running `gh` went: the output, or the error that starting it gave
/// (`GhNotInstalled` when it is missing).
pub open spec fn gh_spawn(oc: CommandOutcome) -> Result<CommandOutput, ErrorView> {
    match oc {
        CommandOutcome::Finished(o) => Ok(o),
        CommandOutcome::NotFound => Err(ErrorView::GhNotInstalled),
        CommandOutcome::SpawnFailed(m) => Err(ErrorView::Io(m@)),
    }
}

fn gh_output(oc: &CommandOutcome) -> (r: Result<&CommandOutput, SenditError>)
    ensures
        match gh_spawn(*oc) {
            Ok(o) => r matches Ok(x) && *x == o,
            Err(e) => r matches Err(x) && x@ == e,
        },
{
    match oc {
        CommandOutcome::Finished(o) => Ok(o),
        CommandOutcome::NotFound => Err(SenditError::GhNotInstalled),
        CommandOutcome::SpawnFailed(m) => Err(SenditError::Io(m.clone())),
    }
}

/// What a `gh` command that must succeed gave: its stdout, or `GhFailed` with
/// the trimmed stderr.
pub open spec fn gh_stdout(oc: CommandOutcome) -> Result<Seq<char>, ErrorView> {
    match gh_spawn(oc) {
        Err(e) => Err(e),
        Ok(o) => if succeeded(o) {
            Ok(stdout_text(o))
        } else {
            Err(ErrorView::GhFailed(trim(stderr_text(o))))
        },
    }
}

/// Run-result of a `gh` command: its stdout, requiring success.
pub fn run_gh(oc: &CommandOutcome) -> (r: Result<String, SenditError>)
    ensures
        text_result(r) == gh_stdout(*oc),
{
    let o = gh_output(oc)?;
    if !o.success() {
        let e = lossy_text(&o.stderr);
        return Err(SenditError::GhFailed(string_of(&trim_chars(&chars_of(e.as_str())))));
    }
    Ok(lossy_text(&o.stdout))
}

/// The arguments of `gh auth status`.
pub open spec fn auth_args() -> Seq<Seq<char>> {
    seq!["auth"@, "status"@]
}

pub fn auth_command() -> (i: Invocation)
    ensures
        i.tool == Tool::Gh,
        invocation_args(i) == auth_args(),
{
    let i = gh_invocation(strings_of(&["auth", "status"]));
    assert(invocation_args(i) =~= auth_args());
    i
}

/// Whether `gh` is authenticated: `gh auth status` exited zero.
pub open spec fn auth_result(oc: CommandOutcome) -> Result<bool, ErrorView> {
    match gh_spawn(oc) {
        Err(e) => Err(e),
        Ok(o) => Ok(succeeded(o)),
    }
}

/// Whether `gh` is authenticated (`gh auth status` exits zero).
pub fn auth_ok(oc: &CommandOutcome) -> (r: Result<bool, SenditError>)
    ensures
        match auth_result(*oc) {
            Ok(b) => r == Ok::<bool, SenditError>(b),
            Err(e) => r matches Err(x) && x@ == e,
        },
{
    let o = gh_output(oc)?;
    Ok(o.success())
}

/// The arguments of `gh repo view --json defaultBranchRef`.
pub open spec fn repo_view_args() -> Seq<Seq<char>> {
    seq!["repo"@, "view"@, "--json"@, "defaultBranchRef"@]
}

pub fn repo_view_command() -> (i: Invocation)
    ensures
        i.tool == Tool::Gh,
        invocation_args(i) == repo_view_args(),
{
    let i = gh_invocation(strings_of(&["repo", "view", "--json", "defaultBranchRef"]));
    assert(invocation_args(i) =~= repo_view_args());
    i
}

/// The JSON that `gh repo view` printed when it succeeded and its output is
/// valid UTF-8 (JSON that is not cannot be read); any failure leaves the
/// default branch unknown rather than failing the run.
pub open spec fn repo_view_json(oc: CommandOutcome) -> Option<Seq<char>> {
    match oc {
        CommandOutcome::Finished(o) => if succeeded(o) && valid_utf8(o.stdout@) {
            Some(decode_utf8(o.stdout@))
        } else {
            None
        },
        _ => None,
    }
}

/// The JSON to read the default branch from, if `gh repo view` succeeded and
/// printed valid UTF-8.
pub fn default_branch_json(oc: &CommandOutcome) -> (r: Option<String>)
    ensures
        crate::text::opt_text(r) == repo_view_json(*oc),
{
    match oc {
        CommandOutcome::Finished(o) => if o.success() {
            utf8_text(&o.stdout)
        } else {
            None
        },
        _ => None,
    }
}

/// The arguments that list the open PRs whose head is `branch`.
pub open spec fn pr_list_args(branch: Seq<char>) -> Seq<Seq<char>> {
    seq![
        "pr"@,
        "list"@,
        "--head"@,
        branch,
        "--state"@,
        "open"@,
        "--json"@,
        "number,url,state,isDraft"@,
    ]
}

pub fn pr_list_command(branch: &str) -> (i: Invocation)
    ensures
        i.tool == Tool::Gh,
        invocation_args(i) == pr_list_args(branch@),
{
    let mut a = strings_of(&["pr", "list", "--head"]);
    let ghost a0 = a@;
    a.push(String::from_str(branch));
    let b = strings_of(&["--state", "open", "--json", "number,url,state,isDraft"]);
    let mut k: usize = 0;
    let ghost a1 = a@;
    assert(strings_view(a1) =~= strings_view(a0).push(branch@));
    while k < b.len()
        invariant
            k <= b.len(),
            strings_view(a@) == strings_view(a1) + strings_view(b@.take(k as int)),
        decreases b.len() - k,
    {
        let ghost before = a@;
        a.push(b[k].clone());
        assert(strings_view(a@) =~= strings_view(before).push(b@[k as int]@));
        assert(strings_view(b@.take(k + 1)) =~= strings_view(b@.take(k as int)).push(
            b@[k as int]@,
        ));
        assert(strings_view(a@) =~= strings_view(a1) + strings_view(b@.take(k + 1)));
        k += 1;
    }
    assert(b@.take(b.len() as int) =~= b@);
    let i = gh_invocation(a);
    assert(invocation_args(i) =~= pr_list_args(branch@));
    i
}

/// What the decoded PR list means: its first PR, if any, or `GhParse` when the
/// JSON could not be read (the message names the `pr list` call).
pub open spec fn existing_pr_result(decoded: Result<Seq<ExistingPrView>, Seq<char>>) -> Result<
    Option<ExistingPrView>,
    ErrorView,
> {
    match decoded {
        Ok(prs) => Ok(
            if prs.len() > 0 {
                Some(prs[0])
            } else {
                None
            },
        ),
        Err(m) => Err(ErrorView::GhParse("pr list: "@ + m)),
    }
}

/// A decoded PR list, taken by the views of its items and of the error text.
pub open spec fn decoded_prs_view(d: Result<Vec<ExistingPr>, String>) -> Result<
    Seq<ExistingPrView>,
    Seq<char>,
> {
    match d {
        Ok(v) => Ok(v@.map_values(|p: ExistingPr| p@)),
        Err(m) => Err(m@),
    }
}

/// Find the open PR whose head is the branch, from the decoded `gh pr list`
/// JSON (or the decoder's error text).
pub fn find_existing_pr(decoded: &Result<Vec<ExistingPr>, String>) -> (r: Result<
    Option<ExistingPr>,
    SenditError,
>)
    ensures
        match existing_pr_result(decoded_prs_view(*decoded)) {
            Ok(p) => r matches Ok(x) && opt_pr_view(x) == p,
            Err(e) => r matches Err(x) && x@ == e,
        },
{
    match decoded {
        Ok(prs) => if prs.len() > 0 {
            Ok(Some(prs[0].duplicate()))
        } else {
            Ok(None)
        },
        Err(m) => {
            let mut s = String::from_str("pr list: ");
            s.append(m.as_str());
            Err(SenditError::GhParse(s))
        },
    }
}

} // verus!
