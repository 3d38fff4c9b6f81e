use crate::command::{invocation_args, CommandOutcome, Invocation, Tool};
use crate::error::{ErrorView, SenditError};
use crate::gh::{
    auth_args, auth_command, auth_ok, auth_result, decoded_prs_view, default_branch_json,
    existing_pr_result, find_existing_pr, gh_stdout, opt_pr_view, pr_list_args, pr_list_command,
    repo_view_args, repo_view_command, repo_view_json, run_gh, ExistingPr, ExistingPrView,
};
use crate::git::{
    branch_exists_args, commit_log, commit_log_args, commit_log_command, commit_log_of,
    commits_ahead, commits_ahead_args, commits_ahead_command, commits_ahead_result, commits_view,
    current_branch, current_branch_args, current_branch_command, current_branch_result,
    diff_shortstat_args, diff_shortstat_command, diff_stat_args, diff_stat_command, diffstat,
    diffstat_of, git_stdout, has_upstream, has_upstream_command, inside_repo_args,
    inside_repo_result, is_inside_repo, is_inside_repo_command, local_branch_exists,
    local_branch_exists_command, merge_base, merge_base_args, merge_base_command,
    merge_base_result, origin_head, origin_head_args, origin_head_command, origin_head_result,
    run_git, status_ok, upstream_args, copy_log, CommitEntry, CommitView, DiffStat, DiffStatView,
};
use crate::text::{opt_text, str_eq};
use vstd::prelude::*;

verus! {

/// Everything the library learns about the branch before drafting a PR.
#[derive(Debug, Clone)]
pub struct PrContext {
    pub branch: String,
    pub trunk: String,
    pub merge_base: String,
    pub has_upstream: bool,
    pub commits_ahead: u32,
    pub commit_log: Vec<CommitEntry>,
    pub diffstat: DiffStat,
    pub existing_pr: Option<ExistingPr>,
}

/// A branch context, its strings taken by their characters.
pub struct PrContextView {
    pub branch: Seq<char>,
    pub trunk: Seq<char>,
    pub merge_base: Seq<char>,
    pub has_upstream: bool,
    pub commits_ahead: u32,
    pub commit_log: Seq<CommitView>,
    pub diffstat: DiffStatView,
    pub existing_pr: Option<ExistingPrView>,
}

impl View for PrContext {
    type V = PrContextView;

    open spec fn view(&self) -> PrContextView {
        PrContextView {
            branch: self.branch@,
            trunk: self.trunk@,
            merge_base: self.merge_base@,
            has_upstream: self.has_upstream,
            commits_ahead: self.commits_ahead,
            commit_log: commits_view(self.commit_log@),
            diffstat: self.diffstat@,
            existing_pr: opt_pr_view(self.existing_pr),
        }
    }
}

/// An optional string slice, taken by its characters.
pub open spec fn opt_str(o: Option<&str>) -> Option<Seq<char>> {
    match o {
        Some(s) => Some(s@),
        None => None,
    }
}

/// The trunk the signals point to, by precedence: an explicit override, then
/// `gh`'s default branch, then `origin/HEAD`, then a local `main`, then a local
/// `master`; `NoTrunk` when none is there.
pub open spec fn trunk_choice(
    base_override: Option<Seq<char>>,
    gh_default: Option<Seq<char>>,
    origin_head: Option<Seq<char>>,
    main_exists: bool,
    master_exists: bool,
) -> Result<Seq<char>, ErrorView> {
    if base_override is Some {
        Ok(base_override->0)
    } else if gh_default is Some {
        Ok(gh_default->0)
    } else if origin_head is Some {
        Ok(origin_head->0)
    } else if main_exists {
        Ok("main"@)
    } else if master_exists {
        Ok("master"@)
    } else {
        Err(ErrorView::NoTrunk)
    }
}

/// Decide the trunk/base branch from the available signals.
///
/// Precedence: an explicit `--base` override, then `gh`'s reported default
/// branch, then the local `origin/HEAD` symref, then a local `main`/`master`.
pub fn resolve_trunk(
    base_override: Option<&str>,
    gh_default: Option<&str>,
    origin_head: Option<&str>,
    main_exists: bool,
    master_exists: bool,
) -> (r: Result<String, SenditError>)
    ensures
        crate::error::text_result(r) == trunk_choice(
            opt_str(base_override),
            opt_str(gh_default),
            opt_str(origin_head),
            main_exists,
            master_exists,
        ),
{
    if let Some(base) = base_override {
        return Ok(String::from_str(base));
    }
    if let Some(name) = gh_default {
        return Ok(String::from_str(name));
    }
    if let Some(name) = origin_head {
        return Ok(String::from_str(name));
    }
    if main_exists {
        return Ok(String::from_str("main"));
    }
    if master_exists {
        return Ok(String::from_str("master"));
    }
    Err(SenditError::NoTrunk)
}

/// The trunk follows the precedence of its signals: an override always wins;
/// without one, `gh`'s default branch wins over everything local; then
/// `origin/HEAD`; then a local `main`, then a local `master`; with none of
/// them there is no trunk. And whatever is chosen is one of the signals.
pub proof fn lemma_trunk_precedence(
    base_override: Option<Seq<char>>,
    gh_default: Option<Seq<char>>,
    origin_head: Option<Seq<char>>,
    main_exists: bool,
    master_exists: bool,
)
    ensures
        ({
            let r = trunk_choice(base_override, gh_default, origin_head, main_exists, master_exists);
            &&& base_override is Some ==> r == Ok::<Seq<char>, ErrorView>(base_override->0)
            &&& base_override is None && gh_default is Some ==> r == Ok::<Seq<char>, ErrorView>(
                gh_default->0,
            )
            &&& base_override is None && gh_default is None && origin_head is Some ==> r == Ok::<
                Seq<char>,
                ErrorView,
            >(origin_head->0)
            &&& base_override is None && gh_default is None && origin_head is None && main_exists
                ==> r == Ok::<Seq<char>, ErrorView>("main"@)
            &&& base_override is None && gh_default is None && origin_head is None && !main_exists
                && master_exists ==> r == Ok::<Seq<char>, ErrorView>("master"@)
            &&& r is Err <==> (base_override is None && gh_default is None && origin_head is None
                && !main_exists && !master_exists)
            &&& r matches Ok(t) ==> (base_override == Some(t) || gh_default == Some(t)
                || origin_head == Some(t) || (main_exists && t == "main"@) || (master_exists && t
                == "master"@))
        }),
{
}

// ---------------------------------------------------------------------------
// Preflight: the checks that gather the branch context, one command at a time.

/// Which answer the preflight is waiting for.
#[derive(Debug, Clone, Copy, PartialEq, Eq)]
pub enum PreflightStep {
    RepoCheck,
    AuthCheck,
    Branch,
    GhDefault,
    GhDefaultDecode,
    OriginHead,
    MainExists,
    MasterExists,
    MergeBase,
    CommitsAhead,
    Upstream,
    Log,
    StatRaw,
    StatShort,
    OpenPrs,
    OpenPrsDecode,
    Finished,
}

/// The preflight's progress: what it has learned so far and what it waits for.
#[derive(Debug)]
pub struct Preflight {
    base_override: Option<String>,
    step: PreflightStep,
    branch: String,
    gh_default: Option<String>,
    origin_head: Option<String>,
    main_exists: bool,
    trunk: String,
    merge_base: String,
    commits_ahead: u32,
    has_upstream: bool,
    commit_log: Vec<CommitEntry>,
    stat_raw: String,
    diffstat: DiffStat,
}

/// The preflight's progress, its strings taken by their characters.
pub struct PreflightView {
    pub base_override: Option<Seq<char>>,
    pub step: PreflightStep,
    pub branch: Seq<char>,
    pub gh_default: Option<Seq<char>>,
    pub origin_head: Option<Seq<char>>,
    pub main_exists: bool,
    pub trunk: Seq<char>,
    pub merge_base: Seq<char>,
    pub commits_ahead: u32,
    pub has_upstream: bool,
    pub commit_log: Seq<CommitView>,
    pub stat_raw: Seq<char>,
    pub diffstat: DiffStatView,
}

impl View for Preflight {
    type V = PreflightView;

    closed spec fn view(&self) -> PreflightView {
        PreflightView {
            base_override: opt_text(self.base_override),
            step: self.step,
            branch: self.branch@,
            gh_default: opt_text(self.gh_default),
            origin_head: opt_text(self.origin_head),
            main_exists: self.main_exists,
            trunk: self.trunk@,
            merge_base: self.merge_base@,
            commits_ahead: self.commits_ahead,
            has_upstream: self.has_upstream,
            commit_log: commits_view(self.commit_log@),
            stat_raw: self.stat_raw@,
            diffstat: self.diffstat@,
        }
    }
}

/// What the caller hands back to the preflight: how the last command went, or
/// what the JSON it was asked to read holds.
#[derive(Debug)]
pub enum PreflightEvent {
    Ran(CommandOutcome),
    /// The default branch named in `gh repo view` JSON; `None` when the JSON
    /// names none or cannot be read.
    DefaultBranch(Option<String>),
    /// The PRs listed in `gh pr list` JSON, or the reader's error text.
    OpenPrs(Result<Vec<ExistingPr>, String>),
}

pub enum PreflightEventView {
    Ran(CommandOutcome),
    DefaultBranch(Option<Seq<char>>),
    OpenPrs(Result<Seq<ExistingPrView>, Seq<char>>),
}

impl View for PreflightEvent {
    type V = PreflightEventView;

    open spec fn view(&self) -> PreflightEventView {
        match self {
            PreflightEvent::Ran(oc) => PreflightEventView::Ran(*oc),
            PreflightEvent::DefaultBranch(d) => PreflightEventView::DefaultBranch(opt_text(*d)),
            PreflightEvent::OpenPrs(d) => PreflightEventView::OpenPrs(decoded_prs_view(*d)),
        }
    }
}

/// What the preflight asks the caller to do next.
#[derive(Debug)]
pub enum PreflightAction {
    /// Run this program and hand back how it went.
    Run(Invocation),
    /// Read the default branch from this `gh repo view` JSON.
    DecodeDefaultBranch(String),
    /// Read the PR list from this `gh pr list` JSON.
    DecodeOpenPrs(String),
    /// The preflight is over: the branch context, or the first check that failed.
    Done(Result<PrContext, SenditError>),
}

pub enum PreflightActionView {
    Run(Tool, Seq<Seq<char>>),
    DecodeDefaultBranch(Seq<char>),
    DecodeOpenPrs(Seq<char>),
    Done(Result<PrContextView, ErrorView>),
}

impl View for PreflightAction {
    type V = PreflightActionView;

    open spec fn view(&self) -> PreflightActionView {
        match self {
            PreflightAction::Run(i) => PreflightActionView::Run(i.tool, invocation_args(*i)),
            PreflightAction::DecodeDefaultBranch(j) => PreflightActionView::DecodeDefaultBranch(j@),
            PreflightAction::DecodeOpenPrs(j) => PreflightActionView::DecodeOpenPrs(j@),
            PreflightAction::Done(r) => PreflightActionView::Done(
                match r {
                    Ok(c) => Ok(c@),
                    Err(e) => Err(e@),
                },
            ),
        }
    }
}

/// Whether an event is the kind of answer that the step waits for.
pub open spec fn event_fits(step: PreflightStep, e: PreflightEventView) -> bool {
    match step {
        PreflightStep::GhDefaultDecode => e is DefaultBranch,
        PreflightStep::OpenPrsDecode => e is OpenPrs,
        PreflightStep::Finished => false,
        _ => e is Ran,
    }
}

/// The preflight's state at its start.
pub open spec fn preflight_initial(base_override: Option<Seq<char>>) -> PreflightView {
    PreflightView {
        base_override,
        step: PreflightStep::RepoCheck,
        branch: Seq::empty(),
        gh_default: None,
        origin_head: None,
        main_exists: false,
        trunk: Seq::empty(),
        merge_base: Seq::empty(),
        commits_ahead: 0,
        has_upstream: false,
        commit_log: Seq::empty(),
        stat_raw: Seq::empty(),
        diffstat: DiffStatView { files: 0, insertions: 0, deletions: 0, raw: Seq::empty() },
    }
}

/// The preflight ends with an error.
pub open spec fn fail_with(s: PreflightView, e: ErrorView) -> (PreflightView, PreflightActionView) {
    (PreflightView { step: PreflightStep::Finished, ..s }, PreflightActionView::Done(Err(e)))
}

/// The preflight moves on to `step` and runs a command.
pub open spec fn ask(s: PreflightView, step: PreflightStep, tool: Tool, args: Seq<Seq<char>>) -> (
    PreflightView,
    PreflightActionView,
) {
    (PreflightView { step, ..s }, PreflightActionView::Run(tool, args))
}

/// The context the preflight reports once it knows the open PR, if any.
pub open spec fn context_of(s: PreflightView, pr: Option<ExistingPrView>) -> PrContextView {
    PrContextView {
        branch: s.branch,
        trunk: s.trunk,
        merge_base: s.merge_base,
        has_upstream: s.has_upstream,
        commits_ahead: s.commits_ahead,
        commit_log: s.commit_log,
        diffstat: s.diffstat,
        existing_pr: pr,
    }
}

/// One step of the preflight: given the answer to what it asked last, what it
/// learns and what it asks next. The checks run in this order, and the first
/// one that fails ends the preflight: inside a repository, `gh` authenticated,
/// on a branch; then the default branch (`gh`), `origin/HEAD`, local `main` and
/// `master` are all read and the trunk resolved from them; the branch must not
/// be the trunk; then the merge-base, at least one commit ahead of it, the
/// upstream, the commit log, the diff statistics and the open PR.
pub open spec fn preflight_next(s: PreflightView, e: PreflightEventView) -> (
    PreflightView,
    PreflightActionView,
) {
    match (s.step, e) {
        (PreflightStep::RepoCheck, PreflightEventView::Ran(oc)) => match inside_repo_result(oc) {
            Err(err) => fail_with(s, err),
            Ok(false) => fail_with(s, ErrorView::NotARepo),
            Ok(true) => ask(s, PreflightStep::AuthCheck, Tool::Gh, auth_args()),
        },
        (PreflightStep::AuthCheck, PreflightEventView::Ran(oc)) => match auth_result(oc) {
            Err(err) => fail_with(s, err),
            Ok(false) => fail_with(s, ErrorView::NotAuthenticated),
            Ok(true) => ask(s, PreflightStep::Branch, Tool::Git, current_branch_args()),
        },
        (PreflightStep::Branch, PreflightEventView::Ran(oc)) => match current_branch_result(oc) {
            Err(err) => fail_with(s, err),
            Ok(b) => ask(
                PreflightView { branch: b, ..s },
                PreflightStep::GhDefault,
                Tool::Gh,
                repo_view_args(),
            ),
        },
        (PreflightStep::GhDefault, PreflightEventView::Ran(oc)) => match repo_view_json(oc) {
            Some(j) => (
                PreflightView { step: PreflightStep::GhDefaultDecode, ..s },
                PreflightActionView::DecodeDefaultBranch(j),
            ),
            None => ask(
                PreflightView { gh_default: None, ..s },
                PreflightStep::OriginHead,
                Tool::Git,
                origin_head_args(),
            ),
        },
        (PreflightStep::GhDefaultDecode, PreflightEventView::DefaultBranch(d)) => ask(
            PreflightView { gh_default: d, ..s },
            PreflightStep::OriginHead,
            Tool::Git,
            origin_head_args(),
        ),
        (PreflightStep::OriginHead, PreflightEventView::Ran(oc)) => ask(
            PreflightView { origin_head: origin_head_result(oc), ..s },
            PreflightStep::MainExists,
            Tool::Git,
            branch_exists_args("main"@),
        ),
        (PreflightStep::MainExists, PreflightEventView::Ran(oc)) => ask(
            PreflightView { main_exists: status_ok(oc), ..s },
            PreflightStep::MasterExists,
            Tool::Git,
            branch_exists_args("master"@),
        ),
        (PreflightStep::MasterExists, PreflightEventView::Ran(oc)) => match trunk_choice(
            s.base_override,
            s.gh_default,
            s.origin_head,
            s.main_exists,
            status_ok(oc),
        ) {
            Err(err) => fail_with(s, err),
            Ok(t) => if s.branch == t {
                fail_with(s, ErrorView::OnTrunk(t))
            } else {
                ask(
                    PreflightView { trunk: t, ..s },
                    PreflightStep::MergeBase,
                    Tool::Git,
                    merge_base_args(t),
                )
            },
        },
        (PreflightStep::MergeBase, PreflightEventView::Ran(oc)) => match merge_base_result(oc) {
            Err(err) => fail_with(s, err),
            Ok(mb) => ask(
                PreflightView { merge_base: mb, ..s },
                PreflightStep::CommitsAhead,
                Tool::Git,
                commits_ahead_args(mb),
            ),
        },
        (PreflightStep::CommitsAhead, PreflightEventView::Ran(oc)) => match commits_ahead_result(
            oc,
        ) {
            Err(err) => fail_with(s, err),
            Ok(n) => if n == 0 {
                fail_with(s, ErrorView::NothingToSend { trunk: s.trunk })
            } else {
                ask(
                    PreflightView { commits_ahead: n, ..s },
                    PreflightStep::Upstream,
                    Tool::Git,
                    upstream_args(),
                )
            },
        },
        (PreflightStep::Upstream, PreflightEventView::Ran(oc)) => ask(
            PreflightView { has_upstream: status_ok(oc), ..s },
            PreflightStep::Log,
            Tool::Git,
            commit_log_args(s.merge_base),
        ),
        (PreflightStep::Log, PreflightEventView::Ran(oc)) => match git_stdout(oc) {
            Err(err) => fail_with(s, err),
            Ok(out) => ask(
                PreflightView { commit_log: commit_log_of(out), ..s },
                PreflightStep::StatRaw,
                Tool::Git,
                diff_stat_args(s.merge_base),
            ),
        },
        (PreflightStep::StatRaw, PreflightEventView::Ran(oc)) => match git_stdout(oc) {
            Err(err) => fail_with(s, err),
            Ok(out) => ask(
                PreflightView { stat_raw: out, ..s },
                PreflightStep::StatShort,
                Tool::Git,
                diff_shortstat_args(s.merge_base),
            ),
        },
        (PreflightStep::StatShort, PreflightEventView::Ran(oc)) => match git_stdout(oc) {
            Err(err) => fail_with(s, err),
            Ok(out) => ask(
                PreflightView { diffstat: diffstat_of(s.stat_raw, out), ..s },
                PreflightStep::OpenPrs,
                Tool::Gh,
                pr_list_args(s.branch),
            ),
        },
        (PreflightStep::OpenPrs, PreflightEventView::Ran(oc)) => match gh_stdout(oc) {
            Err(err) => fail_with(s, err),
            Ok(j) => (
                PreflightView { step: PreflightStep::OpenPrsDecode, ..s },
                PreflightActionView::DecodeOpenPrs(j),
            ),
        },
        (PreflightStep::OpenPrsDecode, PreflightEventView::OpenPrs(d)) => match existing_pr_result(
            d,
        ) {
            Err(err) => fail_with(s, err),
            Ok(pr) => (
                PreflightView { step: PreflightStep::Finished, ..s },
                PreflightActionView::Done(Ok(context_of(s, pr))),
            ),
        },
        _ => (s, PreflightActionView::Done(Err(ErrorView::Aborted))),
    }
}

impl Preflight {
    fn fail(self, e: SenditError) -> (r: (Preflight, PreflightAction))
        ensures
            (r.0@, r.1@) == fail_with(self@, e@),
    {
        let mut s = self;
        s.step = PreflightStep::Finished;
        (s, PreflightAction::Done(Err(e)))
    }

    fn ask(self, step: PreflightStep, inv: Invocation) -> (r: (Preflight, PreflightAction))
        ensures
            (r.0@, r.1@) == ask(self@, step, inv.tool, invocation_args(inv)),
    {
        let mut s = self;
        s.step = step;
        (s, PreflightAction::Run(inv))
    }
}

/// Start the preflight: it first asks whether the directory is a repository.
pub fn preflight_start(base_override: Option<String>) -> (r: (Preflight, PreflightAction))
    ensures
        r.0@ == preflight_initial(opt_text(base_override)),
        r.1@ == PreflightActionView::Run(Tool::Git, inside_repo_args()),
{
    let s = Preflight {
        base_override,
        step: PreflightStep::RepoCheck,
        branch: String::new(),
        gh_default: None,
        origin_head: None,
        main_exists: false,
        trunk: String::new(),
        merge_base: String::new(),
        commits_ahead: 0,
        has_upstream: false,
        commit_log: Vec::new(),
        stat_raw: String::new(),
        diffstat: DiffStat { files: 0, insertions: 0, deletions: 0, raw: String::new() },
    };
    assert(commits_view(s.commit_log@) =~= Seq::<CommitView>::empty());
    (s, PreflightAction::Run(is_inside_repo_command()))
}

/// Run every preflight check and gather the branch context, or report the
/// first failing check as an error; one step per answer (see `preflight_next`).
pub fn preflight(state: Preflight, event: PreflightEvent) -> (r: (Preflight, PreflightAction))
    requires
        event_fits(state@.step, event@),
    ensures
        (r.0@, r.1@) == preflight_next(state@, event@),
{
    let mut s = state;
    match (s.step, event) {
        (PreflightStep::RepoCheck, PreflightEvent::Ran(oc)) => match is_inside_repo(&oc) {
            Err(e) => s.fail(e),
            Ok(false) => s.fail(SenditError::NotARepo),
            Ok(true) => s.ask(PreflightStep::AuthCheck, auth_command()),
        },
        (PreflightStep::AuthCheck, PreflightEvent::Ran(oc)) => match auth_ok(&oc) {
            Err(e) => s.fail(e),
            Ok(false) => s.fail(SenditError::NotAuthenticated),
            Ok(true) => s.ask(PreflightStep::Branch, current_branch_command()),
        },
        (PreflightStep::Branch, PreflightEvent::Ran(oc)) => match current_branch(&oc) {
            Err(e) => s.fail(e),
            Ok(b) => {
                s.branch = b;
                s.ask(PreflightStep::GhDefault, repo_view_command())
            },
        },
        (PreflightStep::GhDefault, PreflightEvent::Ran(oc)) => match default_branch_json(&oc) {
            Some(j) => {
                s.step = PreflightStep::GhDefaultDecode;
                (s, PreflightAction::DecodeDefaultBranch(j))
            },
            None => {
                s.gh_default = None;
                s.ask(PreflightStep::OriginHead, origin_head_command())
            },
        },
        (PreflightStep::GhDefaultDecode, PreflightEvent::DefaultBranch(d)) => {
            s.gh_default = d;
            s.ask(PreflightStep::OriginHead, origin_head_command())
        },
        (PreflightStep::OriginHead, PreflightEvent::Ran(oc)) => {
            s.origin_head = origin_head(&oc);
            s.ask(PreflightStep::MainExists, local_branch_exists_command("main"))
        },
        (PreflightStep::MainExists, PreflightEvent::Ran(oc)) => {
            s.main_exists = local_branch_exists(&oc);
            s.ask(PreflightStep::MasterExists, local_branch_exists_command("master"))
        },
        (PreflightStep::MasterExists, PreflightEvent::Ran(oc)) => {
            let master = local_branch_exists(&oc);
            let chosen = resolve_trunk(
                match &s.base_override {
                    Some(b) => Some(b.as_str()),
                    None => None,
                },
                match &s.gh_default {
                    Some(b) => Some(b.as_str()),
                    None => None,
                },
                match &s.origin_head {
                    Some(b) => Some(b.as_str()),
                    None => None,
                },
                s.main_exists,
                master,
            );
            match chosen {
                Err(e) => s.fail(e),
                Ok(t) => if str_eq(s.branch.as_str(), t.as_str()) {
                    s.fail(SenditError::OnTrunk(t))
                } else {
                    let inv = merge_base_command(t.as_str());
                    s.trunk = t;
                    s.ask(PreflightStep::MergeBase, inv)
                },
            }
        },
        (PreflightStep::MergeBase, PreflightEvent::Ran(oc)) => match merge_base(&oc) {
            Err(e) => s.fail(e),
            Ok(mb) => {
                let inv = commits_ahead_command(mb.as_str());
                s.merge_base = mb;
                s.ask(PreflightStep::CommitsAhead, inv)
            },
        },
        (PreflightStep::CommitsAhead, PreflightEvent::Ran(oc)) => match commits_ahead(&oc) {
            Err(e) => s.fail(e),
            Ok(n) => if n == 0 {
                let trunk = s.trunk.clone();
                s.fail(SenditError::NothingToSend { trunk })
            } else {
                s.commits_ahead = n;
                s.ask(PreflightStep::Upstream, has_upstream_command())
            },
        },
        (PreflightStep::Upstream, PreflightEvent::Ran(oc)) => {
            s.has_upstream = has_upstream(&oc);
            let inv = commit_log_command(s.merge_base.as_str());
            s.ask(PreflightStep::Log, inv)
        },
        (PreflightStep::Log, PreflightEvent::Ran(oc)) => match commit_log(&oc) {
            Err(e) => s.fail(e),
            Ok(log) => {
                s.commit_log = log;
                let inv = diff_stat_command(s.merge_base.as_str());
                s.ask(PreflightStep::StatRaw, inv)
            },
        },
        (PreflightStep::StatRaw, PreflightEvent::Ran(oc)) => match run_git(&oc) {
            Err(e) => s.fail(e),
            Ok(out) => {
                s.stat_raw = out;
                let inv = diff_shortstat_command(s.merge_base.as_str());
                s.ask(PreflightStep::StatShort, inv)
            },
        },
        (PreflightStep::StatShort, PreflightEvent::Ran(oc)) => match run_git(&oc) {
            Err(e) => s.fail(e),
            Ok(out) => {
                s.diffstat = diffstat(s.stat_raw.as_str(), out.as_str());
                let inv = pr_list_command(s.branch.as_str());
                s.ask(PreflightStep::OpenPrs, inv)
            },
        },
        (PreflightStep::OpenPrs, PreflightEvent::Ran(oc)) => match run_gh(&oc) {
            Err(e) => s.fail(e),
            Ok(j) => {
                s.step = PreflightStep::OpenPrsDecode;
                (s, PreflightAction::DecodeOpenPrs(j))
            },
        },
        (PreflightStep::OpenPrsDecode, PreflightEvent::OpenPrs(d)) => match find_existing_pr(&d) {
            Err(e) => s.fail(e),
            Ok(pr) => {
                s.step = PreflightStep::Finished;
                let ctx = PrContext {
                    branch: s.branch.clone(),
                    trunk: s.trunk.clone(),
                    merge_base: s.merge_base.clone(),
                    has_upstream: s.has_upstream,
                    commits_ahead: s.commits_ahead,
                    commit_log: copy_log(&s.commit_log),
                    diffstat: DiffStat {
                        files: s.diffstat.files,
                        insertions: s.diffstat.insertions,
                        deletions: s.diffstat.deletions,
                        raw: s.diffstat.raw.clone(),
                    },
                    existing_pr: pr,
                };
                (s, PreflightAction::Done(Ok(ctx)))
            },
        },
        (_, _) => (s, PreflightAction::Done(Err(SenditError::Aborted))),
    }
}

// ---------------------------------------------------------------------------
// The preflight as one straight computation.

/// What the outside world answers: how each command goes, and what the JSON
/// readers make of a text.
pub struct World {
    pub run: spec_fn(Tool, Seq<Seq<char>>) -> CommandOutcome,
    pub default_branch: spec_fn(Seq<char>) -> Option<Seq<char>>,
    pub open_prs: spec_fn(Seq<char>) -> Result<Seq<ExistingPrView>, Seq<char>>,
}

/// The world's answer to what the preflight asked.
pub open spec fn respond(w: World, a: PreflightActionView) -> PreflightEventView {
    match a {
        PreflightActionView::Run(t, args) => PreflightEventView::Ran((w.run)(t, args)),
        PreflightActionView::DecodeDefaultBranch(j) => PreflightEventView::DefaultBranch(
            (w.default_branch)(j),
        ),
        PreflightActionView::DecodeOpenPrs(j) => PreflightEventView::OpenPrs((w.open_prs)(j)),
        PreflightActionView::Done(_) => PreflightEventView::DefaultBranch(None),
    }
}

/// Up to `n` steps of the preflight against the world, from state `s` that has
/// just asked `a`; the last thing asked.
pub open spec fn drive(s: PreflightView, a: PreflightActionView, w: World, n: nat) -> PreflightActionView
    decreases n,
{
    if n == 0 || a is Done {
        a
    } else {
        let (s2, a2) = preflight_next(s, respond(w, a));
        drive(s2, a2, w, (n - 1) as nat)
    }
}

/// What the preflight finds in a world, written as one straight computation:
/// each check in turn, the first failure ending it.
pub open spec fn preflight_outcome(base_override: Option<Seq<char>>, w: World) -> Result<
    PrContextView,
    ErrorView,
> {
    let run = w.run;
    match inside_repo_result(run(Tool::Git, inside_repo_args())) {
        Err(e) => Err(e),
        Ok(false) => Err(ErrorView::NotARepo),
        Ok(true) => match auth_result(run(Tool::Gh, auth_args())) {
            Err(e) => Err(e),
            Ok(false) => Err(ErrorView::NotAuthenticated),
            Ok(true) => match current_branch_result(run(Tool::Git, current_branch_args())) {
                Err(e) => Err(e),
                Ok(branch) => {
                    let gh_default = match repo_view_json(run(Tool::Gh, repo_view_args())) {
                        Some(j) => (w.default_branch)(j),
                        None => None,
                    };
                    let origin = origin_head_result(run(Tool::Git, origin_head_args()));
                    let main = status_ok(run(Tool::Git, branch_exists_args("main"@)));
                    let master = status_ok(run(Tool::Git, branch_exists_args("master"@)));
                    match trunk_choice(base_override, gh_default, origin, main, master) {
                        Err(e) => Err(e),
                        Ok(trunk) => if branch == trunk {
                            Err(ErrorView::OnTrunk(trunk))
                        } else {
                            match merge_base_result(run(Tool::Git, merge_base_args(trunk))) {
                                Err(e) => Err(e),
                                Ok(mb) => match commits_ahead_result(
                                    run(Tool::Git, commits_ahead_args(mb)),
                                ) {
                                    Err(e) => Err(e),
                                    Ok(n) => if n == 0 {
                                        Err(ErrorView::NothingToSend { trunk })
                                    } else {
                                        let up = status_ok(run(Tool::Git, upstream_args()));
                                        match git_stdout(run(Tool::Git, commit_log_args(mb))) {
                                            Err(e) => Err(e),
                                            Ok(log) => match git_stdout(
                                                run(Tool::Git, diff_stat_args(mb)),
                                            ) {
                                                Err(e) => Err(e),
                                                Ok(raw) => match git_stdout(
                                                    run(Tool::Git, diff_shortstat_args(mb)),
                                                ) {
                                                    Err(e) => Err(e),
                                                    Ok(short) => match gh_stdout(
                                                        run(Tool::Gh, pr_list_args(branch)),
                                                    ) {
                                                        Err(e) => Err(e),
                                                        Ok(j) => match existing_pr_result(
                                                            (w.open_prs)(j),
                                                        ) {
                                                            Err(e) => Err(e),
                                                            Ok(pr) => Ok(
                                                                PrContextView {
                                                                    branch,
                                                                    trunk,
                                                                    merge_base: mb,
                                                                    has_upstream: up,
                                                                    commits_ahead: n,
                                                                    commit_log: commit_log_of(log),
                                                                    diffstat: diffstat_of(raw, short),
                                                                    existing_pr: pr,
                                                                },
                                                            ),
                                                        },
                                                    },
                                                },
                                            },
                                        }
                                    },
                                },
                            }
                        },
                    }
                },
            },
        },
    }
}

proof fn lemma_drive_step(s: PreflightView, a: PreflightActionView, w: World, n: nat)
    requires
        n > 0,
        !(a is Done),
    ensures
        drive(s, a, w, n) == drive(
            preflight_next(s, respond(w, a)).0,
            preflight_next(s, respond(w, a)).1,
            w,
            (n - 1) as nat,
        ),
{
}

proof fn lemma_drive_done(s: PreflightView, a: PreflightActionView, w: World, n: nat)
    requires
        a is Done,
    ensures
        drive(s, a, w, n) == a,
{
}

/// The preflight's result from the commit log on.
spec fn tail_outcome(
    branch: Seq<char>,
    trunk: Seq<char>,
    mb: Seq<char>,
    up: bool,
    n: u32,
    w: World,
) -> Result<PrContextView, ErrorView> {
    match git_stdout((w.run)(Tool::Git, commit_log_args(mb))) {
        Err(e) => Err(e),
        Ok(log) => match git_stdout((w.run)(Tool::Git, diff_stat_args(mb))) {
            Err(e) => Err(e),
            Ok(raw) => match git_stdout((w.run)(Tool::Git, diff_shortstat_args(mb))) {
                Err(e) => Err(e),
                Ok(short) => match gh_stdout((w.run)(Tool::Gh, pr_list_args(branch))) {
                    Err(e) => Err(e),
                    Ok(j) => match existing_pr_result((w.open_prs)(j)) {
                        Err(e) => Err(e),
                        Ok(pr) => Ok(
                            PrContextView {
                                branch,
                                trunk,
                                merge_base: mb,
                                has_upstream: up,
                                commits_ahead: n,
                                commit_log: commit_log_of(log),
                                diffstat: diffstat_of(raw, short),
                                existing_pr: pr,
                            },
                        ),
                    },
                },
            },
        },
    }
}

/// The preflight's result from the merge-base on.
spec fn middle_outcome(branch: Seq<char>, trunk: Seq<char>, w: World) -> Result<
    PrContextView,
    ErrorView,
> {
    match merge_base_result((w.run)(Tool::Git, merge_base_args(trunk))) {
        Err(e) => Err(e),
        Ok(mb) => match commits_ahead_result((w.run)(Tool::Git, commits_ahead_args(mb))) {
            Err(e) => Err(e),
            Ok(n) => if n == 0 {
                Err(ErrorView::NothingToSend { trunk })
            } else {
                tail_outcome(branch, trunk, mb, status_ok((w.run)(Tool::Git, upstream_args())), n, w)
            },
        },
    }
}

proof fn lemma_preflight_tail(s: PreflightView, w: World, n: nat)
    requires
        s.step == PreflightStep::Log,
        n >= 5,
    ensures
        drive(s, PreflightActionView::Run(Tool::Git, commit_log_args(s.merge_base)), w, n)
            == PreflightActionView::Done(
            tail_outcome(s.branch, s.trunk, s.merge_base, s.has_upstream, s.commits_ahead, w),
        ),
{
    let a = PreflightActionView::Run(Tool::Git, commit_log_args(s.merge_base));
    lemma_drive_step(s, a, w, n);
    let (s1, a1) = preflight_next(s, respond(w, a));
    if a1 is Done {
        lemma_drive_done(s1, a1, w, (n - 1) as nat);
        return;
    }
    lemma_drive_step(s1, a1, w, (n - 1) as nat);
    let (s2, a2) = preflight_next(s1, respond(w, a1));
    if a2 is Done {
        lemma_drive_done(s2, a2, w, (n - 2) as nat);
        return;
    }
    lemma_drive_step(s2, a2, w, (n - 2) as nat);
    let (s3, a3) = preflight_next(s2, respond(w, a2));
    if a3 is Done {
        lemma_drive_done(s3, a3, w, (n - 3) as nat);
        return;
    }
    lemma_drive_step(s3, a3, w, (n - 3) as nat);
    let (s4, a4) = preflight_next(s3, respond(w, a3));
    if a4 is Done {
        lemma_drive_done(s4, a4, w, (n - 4) as nat);
        return;
    }
    lemma_drive_step(s4, a4, w, (n - 4) as nat);
    let (s5, a5) = preflight_next(s4, respond(w, a4));
    lemma_drive_done(s5, a5, w, (n - 5) as nat);
}

proof fn lemma_preflight_middle(s: PreflightView, w: World, n: nat)
    requires
        s.step == PreflightStep::MergeBase,
        n >= 8,
    ensures
        drive(s, PreflightActionView::Run(Tool::Git, merge_base_args(s.trunk)), w, n)
            == PreflightActionView::Done(middle_outcome(s.branch, s.trunk, w)),
{
    let a = PreflightActionView::Run(Tool::Git, merge_base_args(s.trunk));
    lemma_drive_step(s, a, w, n);
    let (s1, a1) = preflight_next(s, respond(w, a));
    if a1 is Done {
        lemma_drive_done(s1, a1, w, (n - 1) as nat);
        return;
    }
    lemma_drive_step(s1, a1, w, (n - 1) as nat);
    let (s2, a2) = preflight_next(s1, respond(w, a1));
    if a2 is Done {
        lemma_drive_done(s2, a2, w, (n - 2) as nat);
        return;
    }
    lemma_drive_step(s2, a2, w, (n - 2) as nat);
    let (s3, a3) = preflight_next(s2, respond(w, a2));
    lemma_preflight_tail(s3, w, (n - 3) as nat);
}

/// From `origin/HEAD` to the trunk decision.
proof fn lemma_preflight_trunk(s: PreflightView, w: World, n: nat)
    requires
        s.step == PreflightStep::OriginHead,
        n >= 11,
    ensures
        drive(s, PreflightActionView::Run(Tool::Git, origin_head_args()), w, n)
            == PreflightActionView::Done(
            match trunk_choice(
                s.base_override,
                s.gh_default,
                origin_head_result((w.run)(Tool::Git, origin_head_args())),
                status_ok((w.run)(Tool::Git, branch_exists_args("main"@))),
                status_ok((w.run)(Tool::Git, branch_exists_args("master"@))),
            ) {
                Err(e) => Err(e),
                Ok(trunk) => if s.branch == trunk {
                    Err(ErrorView::OnTrunk(trunk))
                } else {
                    middle_outcome(s.branch, trunk, w)
                },
            },
        ),
{
    let a = PreflightActionView::Run(Tool::Git, origin_head_args());
    lemma_drive_step(s, a, w, n);
    let (s1, a1) = preflight_next(s, respond(w, a));
    lemma_drive_step(s1, a1, w, (n - 1) as nat);
    let (s2, a2) = preflight_next(s1, respond(w, a1));
    lemma_drive_step(s2, a2, w, (n - 2) as nat);
    let (s3, a3) = preflight_next(s2, respond(w, a2));
    if a3 is Done {
        lemma_drive_done(s3, a3, w, (n - 3) as nat);
        return;
    }
    lemma_preflight_middle(s3, w, (n - 3) as nat);
}

/// Driven by any world, the preflight's steps end, within sixteen answers,
/// in exactly what the straight computation `preflight_outcome` finds: every
/// check in order, stopping at the first that fails.
pub proof fn lemma_preflight_runs_to_outcome(base_override: Option<Seq<char>>, w: World)
    ensures
        drive(
            preflight_initial(base_override),
            PreflightActionView::Run(Tool::Git, inside_repo_args()),
            w,
            16,
        ) == PreflightActionView::Done(preflight_outcome(base_override, w)),
{
    let s0 = preflight_initial(base_override);
    let a0 = PreflightActionView::Run(Tool::Git, inside_repo_args());
    lemma_drive_step(s0, a0, w, 16);
    let (s1, a1) = preflight_next(s0, respond(w, a0));
    if a1 is Done {
        lemma_drive_done(s1, a1, w, 15);
        return;
    }
    lemma_drive_step(s1, a1, w, 15);
    let (s2, a2) = preflight_next(s1, respond(w, a1));
    if a2 is Done {
        lemma_drive_done(s2, a2, w, 14);
        return;
    }
    lemma_drive_step(s2, a2, w, 14);
    let (s3, a3) = preflight_next(s2, respond(w, a2));
    if a3 is Done {
        lemma_drive_done(s3, a3, w, 13);
        return;
    }
    lemma_drive_step(s3, a3, w, 13);
    let (s4, a4) = preflight_next(s3, respond(w, a3));
    if a4 is DecodeDefaultBranch {
        lemma_drive_step(s4, a4, w, 12);
        let (s5, a5) = preflight_next(s4, respond(w, a4));
        lemma_preflight_trunk(s5, w, 11);
    } else {
        lemma_preflight_trunk(s4, w, 12);
    }
}

/// What `gh repo view` does cannot end the preflight: when it fails, or
/// its JSON names no default branch, the trunk is looked for in the local
/// repository instead (`origin/HEAD`, then `main`, then `master`).
pub proof fn lemma_default_branch_not_fatal(s: PreflightView, e: PreflightEventView)
    requires
        s.step == PreflightStep::GhDefault || s.step == PreflightStep::GhDefaultDecode,
        event_fits(s.step, e),
    ensures
        !(preflight_next(s, e).1 is Done),
        preflight_next(s, e).1 is DecodeDefaultBranch || preflight_next(s, e).1
            == PreflightActionView::Run(Tool::Git, origin_head_args()),
{
}

} // verus!
