use crate::cli::{body_source_of, BodySource, BodySourceView, Cli, CliView};
use crate::command::{invocation_args, CommandOutcome, Invocation, Tool};
use crate::context::{
    preflight, preflight_next, preflight_start, preflight_initial, event_fits, Preflight,
    PreflightAction, PreflightActionView, PreflightEvent, PreflightEventView,
    PreflightView, PrContext, PrContextView,
};
use crate::editor::{parse_editor_output, parsed_of, render, render_text};
use crate::error::{ErrorView, SenditError};
use crate::gh::{decoded_prs_view, gh_stdout, run_gh, ExistingPr, ExistingPrView};
use crate::git::{push, push_args, push_command, push_result};
use crate::git::inside_repo_args;
use crate::pr::{
    action_choice, create_or_update_pr, outcome_of, pr_call_args, pr_command,
    resolve_action, ActionChoice, ActionChoiceView, PrAction, PrSpec, PrSpecView,
};
use crate::summary::{format_summary, summary_text};
use crate::text::{chars_of, decimal, decimal_chars, opt_text, push_chars, str_eq, trim, trim_chars, string_of};
use vstd::prelude::*;

verus! {

/// The characters that `str::to_lowercase` gives for `s`.
pub uninterp spec fn lowercase(s: Seq<char>) -> Seq<char>;

/// Lower-cases a string by Unicode's rules, by calling `str::to_lowercase`.
/// The contract claims only that the result is a function of the input
/// (`lowercase`); the case mapping itself is left unsaid.
#[verifier::external_body]
fn to_lowercase(s: &str) -> (r: String)
    ensures
        r@ == lowercase(s@),
{
    s.to_lowercase()
}

/// Whether every character of `s` is ASCII.
pub open spec fn all_ascii(s: Seq<char>) -> bool {
    forall|i: int| 0 <= i < s.len() ==> (#[trigger] s[i] as u32) < 128
}

/// A character lower-cased the ASCII way: `A`–`Z` become `a`–`z`, every other
/// character stays (`char::to_ascii_lowercase`).
pub open spec fn ascii_lower(c: char) -> char {
    if 'A' <= c && c <= 'Z' {
        ((c as u32) + 32) as char
    } else {
        c
    }
}

/// An answer typed at a prompt, trimmed and lower-cased. On ASCII text,
/// Unicode's lower-casing is exactly `A`–`Z` to `a`–`z`, so that case is done
/// here; any other text goes through `str::to_lowercase`.
pub open spec fn normalized(answer: Seq<char>) -> Seq<char> {
    let t = trim(answer);
    if all_ascii(t) {
        lower_ascii_text(t)
    } else {
        lowercase(t)
    }
}

/// Text lower-cased the ASCII way, character by character.
pub open spec fn lower_ascii_text(t: Seq<char>) -> Seq<char> {
    t.map_values(|c: char| ascii_lower(c))
}

fn lower_ascii_char(c: char) -> (r: char)
    requires
        (c as u32) < 128,
    ensures
        r == ascii_lower(c),
{
    if 'A' <= c && c <= 'Z' {
        let b: u8 = c as u8;
        (b + 32) as char
    } else {
        c
    }
}

fn normalize(answer: &str) -> (r: String)
    ensures
        r@ == normalized(answer@),
{
    let t = trim_chars(&chars_of(answer));
    let mut i: usize = 0;
    while i < t.len() && (t[i] as u32) < 128
        invariant
            i <= t.len(),
            forall|j: int| 0 <= j < i ==> (#[trigger] t@[j] as u32) < 128,
        decreases t.len() - i,
    {
        i += 1;
    }
    if i < t.len() {
        return to_lowercase(string_of(&t).as_str());
    }
    let mut low: Vec<char> = Vec::new();
    let mut k: usize = 0;
    while k < t.len()
        invariant
            k <= t.len(),
            all_ascii(t@),
            low@ == t@.take(k as int).map_values(|c: char| ascii_lower(c)),
        decreases t.len() - k,
    {
        let c = lower_ascii_char(t[k]);
        low.push(c);
        assert(t@.take(k + 1).map_values(|c: char| ascii_lower(c)) =~= t@.take(k as int).map_values(
            |c: char| ascii_lower(c),
        ).push(ascii_lower(t@[k as int])));
        k += 1;
    }
    assert(t@.take(t.len() as int) =~= t@);
    string_of(&low)
}

fn push_str(s: &mut String, t: &str)
    ensures
        final(s)@ == old(s)@ + t@,
{
    s.append(t);
}

/// The question asked when an open PR already exists and no flag decided.
pub open spec fn conflict_prompt_text(existing: ExistingPrView) -> Seq<char> {
    "PR #"@ + decimal(existing.number as nat) + " already exists ("@ + existing.state + ") "@
        + existing.url + "\n[u]pdate / [c]reate new / [s]top (default s): "@
}

/// The question asked when an open PR already exists and no flag decided.
pub fn conflict_prompt(existing: &ExistingPr) -> (s: String)
    ensures
        s@ == conflict_prompt_text(existing@),
{
    let mut s = String::from_str("PR #");
    push_chars(&mut s, &decimal_chars(existing.number));
    push_str(&mut s, " already exists (");
    push_str(&mut s, existing.state.as_str());
    push_str(&mut s, ") ");
    push_str(&mut s, existing.url.as_str());
    push_str(&mut s, "\n[u]pdate / [c]reate new / [s]top (default s): ");
    assert(s@ =~= conflict_prompt_text(existing@));
    s
}

/// `u`/`update` updates the existing PR, `c`/`create`/`new` creates another;
/// anything else (an empty line too) stops.
pub open spec fn conflict_decision(existing: ExistingPrView, answer: Seq<char>) -> Result<
    PrAction,
    ErrorView,
> {
    let a = normalized(answer);
    if a == "u"@ || a == "update"@ {
        Ok(PrAction::Update { number: existing.number })
    } else if a == "c"@ || a == "create"@ || a == "new"@ {
        Ok(PrAction::Create)
    } else {
        Err(ErrorView::Aborted)
    }
}

/// What the answer to the existing-PR question decides.
pub fn conflict_answer(existing: &ExistingPr, answer: &str) -> (r: Result<PrAction, SenditError>)
    ensures
        match conflict_decision(existing@, answer@) {
            Ok(a) => r == Ok::<PrAction, SenditError>(a),
            Err(e) => r matches Err(x) && x@ == e,
        },
{
    let a = normalize(answer);
    if str_eq(a.as_str(), "u") || str_eq(a.as_str(), "update") {
        Ok(PrAction::Update { number: existing.number })
    } else if str_eq(a.as_str(), "c") || str_eq(a.as_str(), "create") || str_eq(a.as_str(), "new") {
        Ok(PrAction::Create)
    } else {
        Err(SenditError::Aborted)
    }
}

/// The final question before pushing: which branch goes where, and whether a
/// PR is created (a draft only on create) or which one is updated.
pub open spec fn confirm_prompt_text(ctx: PrContextView, action: PrAction, spec: PrSpecView) -> Seq<
    char,
> {
    let verb = match action {
        PrAction::Create => "create"@,
        PrAction::Update { number } => "update #"@ + decimal(number as nat),
    };
    let draft = if spec.draft && action is Create {
        " draft"@
    } else {
        Seq::empty()
    };
    "Push "@ + ctx.branch + " and "@ + verb + draft + " PR -> "@ + ctx.trunk
        + ". Continue? [y/N]: "@
}

/// The final question before pushing.
pub fn confirm_prompt(ctx: &PrContext, action: PrAction, spec: &PrSpec) -> (s: String)
    ensures
        s@ == confirm_prompt_text(ctx@, action, spec@),
{
    let mut s = String::from_str("Push ");
    push_str(&mut s, ctx.branch.as_str());
    push_str(&mut s, " and ");
    match action {
        PrAction::Create => push_str(&mut s, "create"),
        PrAction::Update { number } => {
            push_str(&mut s, "update #");
            push_chars(&mut s, &decimal_chars(number));
        },
    }
    if spec.draft && matches!(action, PrAction::Create) {
        push_str(&mut s, " draft");
    }
    push_str(&mut s, " PR -> ");
    push_str(&mut s, ctx.trunk.as_str());
    push_str(&mut s, ". Continue? [y/N]: ");
    assert(s@ =~= confirm_prompt_text(ctx@, action, spec@));
    s
}

/// Only `y` or `yes` goes on; anything else (an empty line too) stops.
pub open spec fn confirm_decision(answer: Seq<char>) -> Result<(), ErrorView> {
    let a = normalized(answer);
    if a == "y"@ || a == "yes"@ {
        Ok(())
    } else {
        Err(ErrorView::Aborted)
    }
}

/// What the answer to the final question decides.
pub fn confirm_answer(answer: &str) -> (r: Result<(), SenditError>)
    ensures
        match confirm_decision(answer@) {
            Ok(()) => r is Ok,
            Err(e) => r matches Err(x) && x@ == e,
        },
{
    let a = normalize(answer);
    if str_eq(a.as_str(), "y") || str_eq(a.as_str(), "yes") {
        Ok(())
    } else {
        Err(SenditError::Aborted)
    }
}

/// How the PR's title and body are settled.
#[derive(Debug, Clone, PartialEq, Eq)]
pub enum SpecPlan {
    /// The flags settle it.
    Ready(PrSpec),
    /// Open the editor, seeded with these.
    Compose { title_seed: String, body_seed: String },
}

pub enum SpecPlanView {
    Ready(PrSpecView),
    Compose { title_seed: Seq<char>, body_seed: Seq<char> },
}

impl View for SpecPlan {
    type V = SpecPlanView;

    open spec fn view(&self) -> SpecPlanView {
        match self {
            SpecPlan::Ready(s) => SpecPlanView::Ready(s@),
            SpecPlan::Compose { title_seed, body_seed } => SpecPlanView::Compose {
                title_seed: title_seed@,
                body_seed: body_seed@,
            },
        }
    }
}

/// A title and a body from the flags skip the editor. Otherwise, when the run
/// is not interactive, a title must come from a flag (the body defaults to
/// empty); when it is, the editor opens seeded with whatever the flags gave.
pub open spec fn spec_plan(cli: CliView, flag_body: Option<Seq<char>>, interactive: bool) -> Result<
    SpecPlanView,
    ErrorView,
> {
    if cli.title is Some && flag_body is Some {
        Ok(
            SpecPlanView::Ready(
                PrSpecView { title: cli.title->0, body: flag_body->0, draft: cli.draft },
            ),
        )
    } else if !interactive {
        if cli.title is None {
            Err(ErrorView::TitleRequired)
        } else {
            Ok(
                SpecPlanView::Ready(
                    PrSpecView {
                        title: cli.title->0,
                        body: if flag_body is Some {
                            flag_body->0
                        } else {
                            Seq::empty()
                        },
                        draft: cli.draft,
                    },
                ),
            )
        }
    } else {
        Ok(
            SpecPlanView::Compose {
                title_seed: if cli.title is Some {
                    cli.title->0
                } else {
                    Seq::empty()
                },
                body_seed: if flag_body is Some {
                    flag_body->0
                } else {
                    Seq::empty()
                },
            },
        )
    }
}

fn opt_or_empty(o: &Option<String>) -> (s: String)
    ensures
        s@ == (if o is Some {
            o->0@
        } else {
            Seq::<char>::empty()
        }),
{
    match o {
        Some(x) => x.clone(),
        None => String::new(),
    }
}

/// Resolve the PR title/body from the flags and the body read from the body
/// flags; `interactive` says whether the editor may be used.
pub fn resolve_spec(cli: &Cli, flag_body: &Option<String>, interactive: bool) -> (r: Result<
    SpecPlan,
    SenditError,
>)
    ensures
        match spec_plan(cli@, opt_text(*flag_body), interactive) {
            Ok(p) => r matches Ok(x) && x@ == p,
            Err(e) => r matches Err(x) && x@ == e,
        },
{
    if let (Some(title), Some(body)) = (&cli.title, flag_body) {
        return Ok(
            SpecPlan::Ready(PrSpec { title: title.clone(), body: body.clone(), draft: cli.draft }),
        );
    }
    if !interactive {
        match &cli.title {
            None => return Err(SenditError::TitleRequired),
            Some(title) => {
                return Ok(
                    SpecPlan::Ready(
                        PrSpec {
                            title: title.clone(),
                            body: opt_or_empty(flag_body),
                            draft: cli.draft,
                        },
                    ),
                );
            },
        }
    }
    Ok(SpecPlan::Compose { title_seed: opt_or_empty(&cli.title), body_seed: opt_or_empty(flag_body) })
}

// ---------------------------------------------------------------------------
// A whole run, one step per answer from the outside world.

/// Where a run stands.
#[derive(Debug)]
pub enum Phase {
    /// Gathering the branch context.
    Preflighting(Preflight),
    /// An open PR exists; waiting for the user to say update, create or stop.
    ChoosingAction(PrContext, ExistingPr),
    /// Waiting for the body named by `--body-file`.
    ReadingBody(PrContext, PrAction),
    /// Waiting for the edited template.
    Editing(PrContext, PrAction),
    /// Waiting for the final yes or no.
    Confirming(PrContext, PrAction, PrSpec),
    /// Waiting for the push.
    Pushing(PrContext, PrAction, PrSpec),
    /// Waiting for `gh` to create or update the PR.
    Submitting(PrContext, PrAction, PrSpec),
    /// The run is over.
    Done,
}

pub enum PhaseView {
    Preflighting(PreflightView),
    ChoosingAction(PrContextView, ExistingPrView),
    ReadingBody(PrContextView, PrAction),
    Editing(PrContextView, PrAction),
    Confirming(PrContextView, PrAction, PrSpecView),
    Pushing(PrContextView, PrAction, PrSpecView),
    Submitting(PrContextView, PrAction, PrSpecView),
    Done,
}

impl View for Phase {
    type V = PhaseView;

    open spec fn view(&self) -> PhaseView {
        match self {
            Phase::Preflighting(p) => PhaseView::Preflighting(p@),
            Phase::ChoosingAction(c, e) => PhaseView::ChoosingAction(c@, e@),
            Phase::ReadingBody(c, a) => PhaseView::ReadingBody(c@, *a),
            Phase::Editing(c, a) => PhaseView::Editing(c@, *a),
            Phase::Confirming(c, a, s) => PhaseView::Confirming(c@, *a, s@),
            Phase::Pushing(c, a, s) => PhaseView::Pushing(c@, *a, s@),
            Phase::Submitting(c, a, s) => PhaseView::Submitting(c@, *a, s@),
            Phase::Done => PhaseView::Done,
        }
    }
}

/// A run: its options, whether standard input is a terminal, and where it stands.
#[derive(Debug)]
pub struct Session {
    pub cli: Cli,
    pub stdin_is_terminal: bool,
    pub phase: Phase,
}

pub struct SessionView {
    pub cli: CliView,
    pub stdin_is_terminal: bool,
    pub phase: PhaseView,
}

impl View for Session {
    type V = SessionView;

    open spec fn view(&self) -> SessionView {
        SessionView { cli: self.cli@, stdin_is_terminal: self.stdin_is_terminal, phase: self.phase@ }
    }
}

/// What the caller hands back to the run.
#[derive(Debug)]
pub enum SessionEvent {
    /// How the last program went.
    Ran(CommandOutcome),
    /// The default branch read from `gh repo view` JSON (`None`: none, or unreadable).
    DefaultBranch(Option<String>),
    /// The PRs read from `gh pr list` JSON, or the reader's error text.
    OpenPrs(Result<Vec<ExistingPr>, String>),
    /// The line the user typed at a prompt (empty at end of input).
    Answer(Result<String, SenditError>),
    /// The body read from a file or standard input.
    BodyRead(Result<String, SenditError>),
    /// The template as the user left it in the editor.
    Edited(Result<String, SenditError>),
}

pub enum SessionEventView {
    Ran(CommandOutcome),
    DefaultBranch(Option<Seq<char>>),
    OpenPrs(Result<Seq<ExistingPrView>, Seq<char>>),
    Answer(Result<Seq<char>, ErrorView>),
    BodyRead(Result<Seq<char>, ErrorView>),
    Edited(Result<Seq<char>, ErrorView>),
}

impl View for SessionEvent {
    type V = SessionEventView;

    open spec fn view(&self) -> SessionEventView {
        match self {
            SessionEvent::Ran(oc) => SessionEventView::Ran(*oc),
            SessionEvent::DefaultBranch(d) => SessionEventView::DefaultBranch(opt_text(*d)),
            SessionEvent::OpenPrs(d) => SessionEventView::OpenPrs(decoded_prs_view(*d)),
            SessionEvent::Answer(r) => SessionEventView::Answer(crate::error::text_result(*r)),
            SessionEvent::BodyRead(r) => SessionEventView::BodyRead(crate::error::text_result(*r)),
            SessionEvent::Edited(r) => SessionEventView::Edited(crate::error::text_result(*r)),
        }
    }
}

/// What the run asks the caller to do next.
#[derive(Debug)]
pub enum SessionAction {
    /// Run this program and hand back how it went.
    Run(Invocation),
    /// Read the default branch from this `gh repo view` JSON.
    DecodeDefaultBranch(String),
    /// Read the PR list from this `gh pr list` JSON.
    DecodeOpenPrs(String),
    /// Show this question on standard error and hand back the line typed.
    Prompt(String),
    /// Read the body from this source (standard input or a file).
    ReadBody(BodySource),
    /// Let the user edit this template and hand back the result.
    Edit(String),
    /// The run is over: the summary to print, or the error that ended it.
    Finish(Result<String, SenditError>),
}

pub enum SessionActionView {
    Run(Tool, Seq<Seq<char>>),
    DecodeDefaultBranch(Seq<char>),
    DecodeOpenPrs(Seq<char>),
    Prompt(Seq<char>),
    ReadBody(BodySourceView),
    Edit(Seq<char>),
    Finish(Result<Seq<char>, ErrorView>),
}

impl View for SessionAction {
    type V = SessionActionView;

    open spec fn view(&self) -> SessionActionView {
        match self {
            SessionAction::Run(i) => SessionActionView::Run(i.tool, invocation_args(*i)),
            SessionAction::DecodeDefaultBranch(j) => SessionActionView::DecodeDefaultBranch(j@),
            SessionAction::DecodeOpenPrs(j) => SessionActionView::DecodeOpenPrs(j@),
            SessionAction::Prompt(q) => SessionActionView::Prompt(q@),
            SessionAction::ReadBody(b) => SessionActionView::ReadBody(b@),
            SessionAction::Edit(t) => SessionActionView::Edit(t@),
            SessionAction::Finish(r) => SessionActionView::Finish(crate::error::text_result(*r)),
        }
    }
}

/// Whether an event is the kind of answer the run waits for.
pub open spec fn session_event_fits(s: SessionView, e: SessionEventView) -> bool {
    match s.phase {
        PhaseView::Preflighting(p) => match e {
            SessionEventView::Ran(oc) => event_fits(p.step, PreflightEventView::Ran(oc)),
            SessionEventView::DefaultBranch(d) => event_fits(
                p.step,
                PreflightEventView::DefaultBranch(d),
            ),
            SessionEventView::OpenPrs(d) => event_fits(p.step, PreflightEventView::OpenPrs(d)),
            _ => false,
        },
        PhaseView::ChoosingAction(..) => e is Answer,
        PhaseView::ReadingBody(..) => e is BodyRead,
        PhaseView::Editing(..) => e is Edited,
        PhaseView::Confirming(..) => e is Answer,
        PhaseView::Pushing(..) => e is Ran,
        PhaseView::Submitting(..) => e is Ran,
        PhaseView::Done => false,
    }
}

/// The run ends with `r`.
pub open spec fn finish(s: SessionView, r: Result<Seq<char>, ErrorView>) -> (
    SessionView,
    SessionActionView,
) {
    (SessionView { phase: PhaseView::Done, ..s }, SessionActionView::Finish(r))
}

/// Whether the editor may be used: the run is not `--yes` and standard input
/// is a terminal.
pub open spec fn interactive(s: SessionView) -> bool {
    !s.cli.yes && s.stdin_is_terminal
}

/// With the title and body settled: straight to the push under `--yes`,
/// otherwise the final question first.
pub open spec fn after_spec(
    s: SessionView,
    ctx: PrContextView,
    action: PrAction,
    spec: PrSpecView,
) -> (SessionView, SessionActionView) {
    if s.cli.yes {
        (
            SessionView { phase: PhaseView::Pushing(ctx, action, spec), ..s },
            SessionActionView::Run(Tool::Git, push_args(ctx.branch, !ctx.has_upstream)),
        )
    } else {
        (
            SessionView { phase: PhaseView::Confirming(ctx, action, spec), ..s },
            SessionActionView::Prompt(confirm_prompt_text(ctx, action, spec)),
        )
    }
}

/// With the body from the flags known: the spec is settled, or the editor opens.
pub open spec fn after_body(
    s: SessionView,
    ctx: PrContextView,
    action: PrAction,
    flag_body: Option<Seq<char>>,
) -> (SessionView, SessionActionView) {
    match spec_plan(s.cli, flag_body, interactive(s)) {
        Err(e) => finish(s, Err(e)),
        Ok(SpecPlanView::Ready(spec)) => after_spec(s, ctx, action, spec),
        Ok(SpecPlanView::Compose { title_seed, body_seed }) => (
            SessionView { phase: PhaseView::Editing(ctx, action), ..s },
            SessionActionView::Edit(render_text(ctx, title_seed, body_seed)),
        ),
    }
}

/// With the action decided: the body is read when it comes from a file or
/// standard input.
pub open spec fn after_action(s: SessionView, ctx: PrContextView, action: PrAction) -> (
    SessionView,
    SessionActionView,
) {
    match body_source_of(s.cli) {
        BodySourceView::Absent => after_body(s, ctx, action, None),
        BodySourceView::Inline(b) => after_body(s, ctx, action, Some(b)),
        src => (
            SessionView { phase: PhaseView::ReadingBody(ctx, action), ..s },
            SessionActionView::ReadBody(src),
        ),
    }
}

/// With the branch context gathered: create or update by the flags, or ask.
pub open spec fn after_preflight(s: SessionView, ctx: PrContextView) -> (
    SessionView,
    SessionActionView,
) {
    match action_choice(ctx.existing_pr, s.cli.update, s.cli.new, s.cli.yes) {
        ActionChoiceView::Create => after_action(s, ctx, PrAction::Create),
        ActionChoiceView::Update(n) => after_action(s, ctx, PrAction::Update { number: n }),
        ActionChoiceView::Conflict(p) => (
            SessionView { phase: PhaseView::ChoosingAction(ctx, p), ..s },
            SessionActionView::Prompt(conflict_prompt_text(p)),
        ),
    }
}

/// A preflight step, as a step of the run.
pub open spec fn lift_preflight(s: SessionView, r: (PreflightView, PreflightActionView)) -> (
    SessionView,
    SessionActionView,
) {
    match r.1 {
        PreflightActionView::Run(t, args) => (
            SessionView { phase: PhaseView::Preflighting(r.0), ..s },
            SessionActionView::Run(t, args),
        ),
        PreflightActionView::DecodeDefaultBranch(j) => (
            SessionView { phase: PhaseView::Preflighting(r.0), ..s },
            SessionActionView::DecodeDefaultBranch(j),
        ),
        PreflightActionView::DecodeOpenPrs(j) => (
            SessionView { phase: PhaseView::Preflighting(r.0), ..s },
            SessionActionView::DecodeOpenPrs(j),
        ),
        PreflightActionView::Done(Err(e)) => finish(s, Err(e)),
        PreflightActionView::Done(Ok(ctx)) => after_preflight(s, ctx),
    }
}

/// The preflight's view of a run's event.
pub open spec fn preflight_event(e: SessionEventView) -> PreflightEventView {
    match e {
        SessionEventView::Ran(oc) => PreflightEventView::Ran(oc),
        SessionEventView::DefaultBranch(d) => PreflightEventView::DefaultBranch(d),
        SessionEventView::OpenPrs(d) => PreflightEventView::OpenPrs(d),
        _ => PreflightEventView::DefaultBranch(None),
    }
}

/// One step of a run: the preflight; then create or update (asking when an
/// open PR exists and no flag decides); then the title and body (from the
/// flags, or the editor); then, unless `--yes`, the final question; then the
/// push; then the `gh` call that creates or updates the PR, and the summary.
/// The first error ends the run.
pub open spec fn session_next(s: SessionView, e: SessionEventView) -> (
    SessionView,
    SessionActionView,
) {
    match s.phase {
        PhaseView::Preflighting(p) => lift_preflight(s, preflight_next(p, preflight_event(e))),
        PhaseView::ChoosingAction(ctx, existing) => match e {
            SessionEventView::Answer(Ok(line)) => match conflict_decision(existing, line) {
                Ok(action) => after_action(s, ctx, action),
                Err(err) => finish(s, Err(err)),
            },
            SessionEventView::Answer(Err(err)) => finish(s, Err(err)),
            _ => (s, SessionActionView::Finish(Err(ErrorView::Aborted))),
        },
        PhaseView::ReadingBody(ctx, action) => match e {
            SessionEventView::BodyRead(Ok(b)) => after_body(s, ctx, action, Some(b)),
            SessionEventView::BodyRead(Err(err)) => finish(s, Err(err)),
            _ => (s, SessionActionView::Finish(Err(ErrorView::Aborted))),
        },
        PhaseView::Editing(ctx, action) => match e {
            SessionEventView::Edited(Ok(text)) => match parsed_of(text) {
                Ok(p) => after_spec(
                    s,
                    ctx,
                    action,
                    PrSpecView { title: p.title, body: p.body, draft: s.cli.draft },
                ),
                Err(err) => finish(s, Err(err)),
            },
            SessionEventView::Edited(Err(err)) => finish(s, Err(err)),
            _ => (s, SessionActionView::Finish(Err(ErrorView::Aborted))),
        },
        PhaseView::Confirming(ctx, action, spec) => match e {
            SessionEventView::Answer(Ok(line)) => match confirm_decision(line) {
                Ok(()) => (
                    SessionView { phase: PhaseView::Pushing(ctx, action, spec), ..s },
                    SessionActionView::Run(Tool::Git, push_args(ctx.branch, !ctx.has_upstream)),
                ),
                Err(err) => finish(s, Err(err)),
            },
            SessionEventView::Answer(Err(err)) => finish(s, Err(err)),
            _ => (s, SessionActionView::Finish(Err(ErrorView::Aborted))),
        },
        PhaseView::Pushing(ctx, action, spec) => match e {
            SessionEventView::Ran(oc) => match push_result(oc) {
                Ok(()) => (
                    SessionView { phase: PhaseView::Submitting(ctx, action, spec), ..s },
                    SessionActionView::Run(Tool::Gh, pr_call_args(ctx, spec, action)),
                ),
                Err(err) => finish(s, Err(err)),
            },
            _ => (s, SessionActionView::Finish(Err(ErrorView::Aborted))),
        },
        PhaseView::Submitting(ctx, action, spec) => match e {
            SessionEventView::Ran(oc) => match gh_stdout(oc) {
                Ok(out) => finish(
                    s,
                    Ok(summary_text(outcome_of(ctx, spec, action, out), ctx, spec)),
                ),
                Err(err) => finish(s, Err(err)),
            },
            _ => (s, SessionActionView::Finish(Err(ErrorView::Aborted))),
        },
        PhaseView::Done => (s, SessionActionView::Finish(Err(ErrorView::Aborted))),
    }
}

/// A run's options and terminal flag, in no particular phase.
pub open spec fn base_view(cli: CliView, tty: bool) -> SessionView {
    SessionView { cli, stdin_is_terminal: tty, phase: PhaseView::Done }
}

fn end_with(cli: Cli, tty: bool, r: Result<String, SenditError>) -> (out: (Session, SessionAction))
    ensures
        (out.0@, out.1@) == finish(base_view(cli@, tty), crate::error::text_result(r)),
{
    (Session { cli, stdin_is_terminal: tty, phase: Phase::Done }, SessionAction::Finish(r))
}

fn step_after_spec(cli: Cli, tty: bool, ctx: PrContext, action: PrAction, spec: PrSpec) -> (out: (
    Session,
    SessionAction,
))
    ensures
        (out.0@, out.1@) == after_spec(base_view(cli@, tty), ctx@, action, spec@),
{
    if cli.yes {
        let inv = push_command(ctx.branch.as_str(), !ctx.has_upstream);
        (
            Session { cli, stdin_is_terminal: tty, phase: Phase::Pushing(ctx, action, spec) },
            SessionAction::Run(inv),
        )
    } else {
        let q = confirm_prompt(&ctx, action, &spec);
        (
            Session { cli, stdin_is_terminal: tty, phase: Phase::Confirming(ctx, action, spec) },
            SessionAction::Prompt(q),
        )
    }
}

fn step_after_body(
    cli: Cli,
    tty: bool,
    ctx: PrContext,
    action: PrAction,
    flag_body: Option<String>,
) -> (out: (Session, SessionAction))
    ensures
        (out.0@, out.1@) == after_body(base_view(cli@, tty), ctx@, action, opt_text(flag_body)),
{
    let interactive = !cli.yes && tty;
    match resolve_spec(&cli, &flag_body, interactive) {
        Err(e) => end_with(cli, tty, Err(e)),
        Ok(SpecPlan::Ready(spec)) => step_after_spec(cli, tty, ctx, action, spec),
        Ok(SpecPlan::Compose { title_seed, body_seed }) => {
            let t = render(&ctx, title_seed.as_str(), body_seed.as_str());
            (
                Session { cli, stdin_is_terminal: tty, phase: Phase::Editing(ctx, action) },
                SessionAction::Edit(t),
            )
        },
    }
}

fn step_after_action(cli: Cli, tty: bool, ctx: PrContext, action: PrAction) -> (out: (
    Session,
    SessionAction,
))
    ensures
        (out.0@, out.1@) == after_action(base_view(cli@, tty), ctx@, action),
{
    match cli.body_source() {
        BodySource::Absent => step_after_body(cli, tty, ctx, action, None),
        BodySource::Inline(b) => step_after_body(cli, tty, ctx, action, Some(b)),
        src => (
            Session { cli, stdin_is_terminal: tty, phase: Phase::ReadingBody(ctx, action) },
            SessionAction::ReadBody(src),
        ),
    }
}

fn step_after_preflight(cli: Cli, tty: bool, ctx: PrContext) -> (out: (Session, SessionAction))
    ensures
        (out.0@, out.1@) == after_preflight(base_view(cli@, tty), ctx@),
{
    let choice = resolve_action(
        match &ctx.existing_pr {
            Some(p) => Some(p),
            None => None,
        },
        cli.update,
        cli.new,
        cli.yes,
    );
    match choice {
        ActionChoice::Create => step_after_action(cli, tty, ctx, PrAction::Create),
        ActionChoice::Update(n) => step_after_action(cli, tty, ctx, PrAction::Update { number: n }),
        ActionChoice::Conflict(p) => {
            let q = conflict_prompt(&p);
            (
                Session { cli, stdin_is_terminal: tty, phase: Phase::ChoosingAction(ctx, p) },
                SessionAction::Prompt(q),
            )
        },
    }
}

/// Start a run: the preflight's first check.
pub fn session_start(cli: Cli, stdin_is_terminal: bool) -> (out: (Session, SessionAction))
    ensures
        out.0@ == (SessionView {
            cli: cli@,
            stdin_is_terminal,
            phase: PhaseView::Preflighting(preflight_initial(cli@.base)),
        }),
        out.1@ == SessionActionView::Run(Tool::Git, inside_repo_args()),
{
    let (p, a) = preflight_start(cli.base.clone());
    let inv = match a {
        PreflightAction::Run(i) => i,
        _ => {
            proof {
                assert(false);
            }
            return (
                Session { cli, stdin_is_terminal, phase: Phase::Done },
                SessionAction::Finish(Err(SenditError::Aborted)),
            );
        },
    };
    (Session { cli, stdin_is_terminal, phase: Phase::Preflighting(p) }, SessionAction::Run(inv))
}

/// One step of a run (see `session_next`): what the run does with the answer
/// to what it asked last, and what it asks next.
pub fn session_step(session: Session, event: SessionEvent) -> (out: (Session, SessionAction))
    requires
        session_event_fits(session@, event@),
    ensures
        (out.0@, out.1@) == session_next(session@, event@),
{
    let ghost s = session@;
    let Session { cli, stdin_is_terminal: tty, phase } = session;
    assert(s == SessionView { phase: s.phase, ..base_view(cli@, tty) });
    match phase {
        Phase::Preflighting(p) => {
            let pe = match event {
                SessionEvent::Ran(oc) => PreflightEvent::Ran(oc),
                SessionEvent::DefaultBranch(d) => PreflightEvent::DefaultBranch(d),
                SessionEvent::OpenPrs(d) => PreflightEvent::OpenPrs(d),
                _ => {
                    proof {
                        assert(false);
                    }
                    return end_with(cli, tty, Err(SenditError::Aborted));
                },
            };
            let (p2, a) = preflight(p, pe);
            match a {
                PreflightAction::Run(i) => (
                    Session { cli, stdin_is_terminal: tty, phase: Phase::Preflighting(p2) },
                    SessionAction::Run(i),
                ),
                PreflightAction::DecodeDefaultBranch(j) => (
                    Session { cli, stdin_is_terminal: tty, phase: Phase::Preflighting(p2) },
                    SessionAction::DecodeDefaultBranch(j),
                ),
                PreflightAction::DecodeOpenPrs(j) => (
                    Session { cli, stdin_is_terminal: tty, phase: Phase::Preflighting(p2) },
                    SessionAction::DecodeOpenPrs(j),
                ),
                PreflightAction::Done(Err(e)) => end_with(cli, tty, Err(e)),
                PreflightAction::Done(Ok(ctx)) => step_after_preflight(cli, tty, ctx),
            }
        },
        Phase::ChoosingAction(ctx, existing) => match event {
            SessionEvent::Answer(Ok(line)) => match conflict_answer(&existing, line.as_str()) {
                Ok(action) => step_after_action(cli, tty, ctx, action),
                Err(e) => end_with(cli, tty, Err(e)),
            },
            SessionEvent::Answer(Err(e)) => end_with(cli, tty, Err(e)),
            _ => {
                proof {
                    assert(false);
                }
                end_with(cli, tty, Err(SenditError::Aborted))
            },
        },
        Phase::ReadingBody(ctx, action) => match event {
            SessionEvent::BodyRead(Ok(b)) => step_after_body(cli, tty, ctx, action, Some(b)),
            SessionEvent::BodyRead(Err(e)) => end_with(cli, tty, Err(e)),
            _ => {
                proof {
                    assert(false);
                }
                end_with(cli, tty, Err(SenditError::Aborted))
            },
        },
        Phase::Editing(ctx, action) => match event {
            SessionEvent::Edited(Ok(text)) => match parse_editor_output(text.as_str()) {
                Ok(p) => {
                    let spec = PrSpec { title: p.title, body: p.body, draft: cli.draft };
                    step_after_spec(cli, tty, ctx, action, spec)
                },
                Err(e) => end_with(cli, tty, Err(e)),
            },
            SessionEvent::Edited(Err(e)) => end_with(cli, tty, Err(e)),
            _ => {
                proof {
                    assert(false);
                }
                end_with(cli, tty, Err(SenditError::Aborted))
            },
        },
        Phase::Confirming(ctx, action, spec) => match event {
            SessionEvent::Answer(Ok(line)) => match confirm_answer(line.as_str()) {
                Ok(()) => {
                    let inv = push_command(ctx.branch.as_str(), !ctx.has_upstream);
                    (
                        Session {
                            cli,
                            stdin_is_terminal: tty,
                            phase: Phase::Pushing(ctx, action, spec),
                        },
                        SessionAction::Run(inv),
                    )
                },
                Err(e) => end_with(cli, tty, Err(e)),
            },
            SessionEvent::Answer(Err(e)) => end_with(cli, tty, Err(e)),
            _ => {
                proof {
                    assert(false);
                }
                end_with(cli, tty, Err(SenditError::Aborted))
            },
        },
        Phase::Pushing(ctx, action, spec) => match event {
            SessionEvent::Ran(oc) => match push(&oc) {
                Ok(()) => {
                    let inv = pr_command(&ctx, &spec, action);
                    (
                        Session {
                            cli,
                            stdin_is_terminal: tty,
                            phase: Phase::Submitting(ctx, action, spec),
                        },
                        SessionAction::Run(inv),
                    )
                },
                Err(e) => end_with(cli, tty, Err(e)),
            },
            _ => {
                proof {
                    assert(false);
                }
                end_with(cli, tty, Err(SenditError::Aborted))
            },
        },
        Phase::Submitting(ctx, action, spec) => match event {
            SessionEvent::Ran(oc) => match run_gh(&oc) {
                Ok(out) => {
                    let outcome = create_or_update_pr(&ctx, &spec, action, out.as_str());
                    let summary = format_summary(&outcome, &ctx, &spec);
                    end_with(cli, tty, Ok(summary))
                },
                Err(e) => end_with(cli, tty, Err(e)),
            },
            _ => {
                proof {
                    assert(false);
                }
                end_with(cli, tty, Err(SenditError::Aborted))
            },
        },
        Phase::Done => {
            proof {
                assert(false);
            }
            end_with(cli, tty, Err(SenditError::Aborted))
        },
    }
}

// ---------------------------------------------------------------------------
// What every run keeps to.

/// Whether the run asks for a `git push`.
pub open spec fn is_push(a: SessionActionView) -> bool {
    match a {
        SessionActionView::Run(t, args) => t == Tool::Git && args.len() >= 3 && args[2] == "push"@,
        _ => false,
    }
}

/// Whether the run waits on the final question and the answer is yes.
pub open spec fn said_yes(s: SessionView, e: SessionEventView) -> bool {
    &&& s.phase is Confirming
    &&& e matches SessionEventView::Answer(Ok(line))
    &&& confirm_decision(line) is Ok
}

/// A run pushes only the current branch, the way `push_args` says (never
/// a force push, `-u origin <branch>` only when there is no upstream yet), and
/// only once the title and body are settled and the user said yes to the final
/// question, or `--yes` was given.
pub proof fn lemma_push_only_when_confirmed(s: SessionView, e: SessionEventView)
    requires
        session_event_fits(s, e),
        is_push(session_next(s, e).1),
    ensures
        session_next(s, e).0.phase matches PhaseView::Pushing(ctx, _, _) && session_next(
            s,
            e,
        ).1 == SessionActionView::Run(Tool::Git, push_args(ctx.branch, !ctx.has_upstream)),
        s.cli.yes || said_yes(s, e),
{
    let (s2, a) = session_next(s, e);
    match s.phase {
        PhaseView::Preflighting(p) => {
            lemma_preflight_never_pushes(p, preflight_event(e));
        },
        _ => {},
    }
}

/// No command that the preflight runs is a push.
proof fn lemma_preflight_never_pushes(p: PreflightView, e: PreflightEventView)
    ensures
        preflight_next(p, e).1 matches PreflightActionView::Run(t, args) ==> (t == Tool::Gh || (
        args.len() >= 3 && args[2] != "push"@)),
{
    reveal_strlit("push");
    reveal_strlit("rev-parse");
    reveal_strlit("symbolic-ref");
    reveal_strlit("merge-base");
    reveal_strlit("rev-list");
    reveal_strlit("log");
    reveal_strlit("diff");
    let r = preflight_next(p, e);
    if let PreflightActionView::Run(t, args) = r.1 {
        if t == Tool::Git {
            assert(args.len() >= 3);
            let third = args[2];
            assert(third == "rev-parse"@ || third == "symbolic-ref"@ || third == "merge-base"@
                || third == "rev-list"@ || third == "log"@ || third == "diff"@);
            assert("push"@.len() == 4);
            assert("rev-parse"@.len() != 4);
            assert("symbolic-ref"@.len() != 4);
            assert("merge-base"@.len() != 4);
            assert("rev-list"@.len() != 4);
            assert("log"@.len() != 4);
            assert("diff"@[0] != "push"@[0]);
            assert(third != "push"@);
        }
    }
}

/// Whether the run asks `gh` to create or edit a PR.
pub open spec fn is_pr_call(a: SessionActionView) -> bool {
    match a {
        SessionActionView::Run(t, args) => t == Tool::Gh && args.len() >= 2 && args[0] == "pr"@
            && (args[1] == "create"@ || args[1] == "edit"@),
        _ => false,
    }
}

/// The run asks `gh` to create or edit the PR only right after the push
/// succeeded, and then with exactly the arguments `pr_call_args` gives for the
/// settled title, body and action: never after a refusal, an abort, a failed
/// check or a failed push.
pub proof fn lemma_pr_call_only_after_push(s: SessionView, e: SessionEventView)
    requires
        session_event_fits(s, e),
        is_pr_call(session_next(s, e).1),
    ensures
        s.phase matches PhaseView::Pushing(ctx, action, spec) && (e matches SessionEventView::Ran(
            oc,
        ) && push_result(oc) is Ok) && session_next(s, e).0.phase == PhaseView::Submitting(
            ctx,
            action,
            spec,
        ) && session_next(s, e).1 == SessionActionView::Run(
            Tool::Gh,
            pr_call_args(ctx, spec, action),
        ),
{
    match s.phase {
        PhaseView::Preflighting(p) => {
            lemma_preflight_never_creates(p, preflight_event(e));
        },
        _ => {},
    }
}

/// No `gh` command that the preflight runs creates or edits a PR.
proof fn lemma_preflight_never_creates(p: PreflightView, e: PreflightEventView)
    ensures
        preflight_next(p, e).1 matches PreflightActionView::Run(t, args) ==> (t == Tool::Git || (
        args.len() >= 2 && (args[0] != "pr"@ || (args[1] != "create"@ && args[1] != "edit"@)))),
{
    reveal_strlit("pr");
    reveal_strlit("auth");
    reveal_strlit("repo");
    reveal_strlit("list");
    reveal_strlit("create");
    reveal_strlit("edit");
    let r = preflight_next(p, e);
    if let PreflightActionView::Run(t, args) = r.1 {
        if t == Tool::Gh {
            assert(args.len() >= 2);
            assert(args[0] == "auth"@ || args[0] == "repo"@ || (args[0] == "pr"@ && args[1]
                == "list"@));
            assert("auth"@.len() != "pr"@.len());
            assert("repo"@.len() != "pr"@.len());
            assert("list"@.len() != "create"@.len());
            assert("list"@[0] != "edit"@[0]);
        }
    }
}

/// When the edited template has no title, the run ends there with
/// `EmptyTitle`: nothing is pushed or created, and no further step is taken.
pub proof fn lemma_empty_title_stops_run(s: SessionView, text: Seq<char>)
    requires
        s.phase is Editing,
        parsed_of(text) == Err::<crate::editor::ParsedView, ErrorView>(ErrorView::EmptyTitle),
    ensures
        session_next(s, SessionEventView::Edited(Ok(text))).1 == SessionActionView::Finish(
            Err(ErrorView::EmptyTitle),
        ),
        session_next(s, SessionEventView::Edited(Ok(text))).0.phase is Done,
        forall|e: SessionEventView|
            !session_event_fits(#[trigger] session_next(s, SessionEventView::Edited(Ok(text))).0, e),
{
}

/// Whether an event answers what the action asked for.
pub open spec fn answers(a: SessionActionView, e: SessionEventView) -> bool {
    match a {
        SessionActionView::Run(..) => e is Ran,
        SessionActionView::DecodeDefaultBranch(_) => e is DefaultBranch,
        SessionActionView::DecodeOpenPrs(_) => e is OpenPrs,
        SessionActionView::Prompt(_) => e is Answer,
        SessionActionView::ReadBody(_) => e is BodyRead,
        SessionActionView::Edit(_) => e is Edited,
        SessionActionView::Finish(_) => false,
    }
}

/// Whatever a run asks for, any answer of the asked kind is one it can
/// take next, so a caller that answers each request in kind never breaks the
/// run's precondition; and `Finish` is asked exactly when the run is over.
pub proof fn lemma_requests_answerable(s: SessionView, e: SessionEventView, e2: SessionEventView)
    requires
        session_event_fits(s, e),
    ensures
        answers(session_next(s, e).1, e2) ==> session_event_fits(session_next(s, e).0, e2),
        session_next(s, e).1 is Finish <==> session_next(s, e).0.phase is Done,
{
}

/// The run's first request can be answered in kind.
pub proof fn lemma_start_answerable(cli: CliView, tty: bool, oc: CommandOutcome)
    ensures
        session_event_fits(
            SessionView {
                cli,
                stdin_is_terminal: tty,
                phase: PhaseView::Preflighting(preflight_initial(cli.base)),
            },
            SessionEventView::Ran(oc),
        ),
{
}

/// The letters the existing-PR question offers are honoured, in either case
/// and with any whitespace around them: `u`/`update` updates that PR,
/// `c`/`create`/`new` creates another, and an empty line (the default, `s`)
/// or `s` stops the run.
pub proof fn lemma_conflict_letters(existing: ExistingPrView, answer: Seq<char>)
    ensures
        ({
            let t = trim(answer);
            let r = conflict_decision(existing, answer);
            &&& t == "u"@ || t == "U"@ || t == "update"@ || t == "Update"@ || t == "UPDATE"@
                ==> r == Ok::<PrAction, ErrorView>(PrAction::Update { number: existing.number })
            &&& t == "c"@ || t == "C"@ || t == "create"@ || t == "Create"@ || t == "new"@ || t
                == "NEW"@ ==> r == Ok::<PrAction, ErrorView>(PrAction::Create)
            &&& t.len() == 0 || t == "s"@ || t == "S"@ ==> r == Err::<PrAction, ErrorView>(
                ErrorView::Aborted,
            )
        }),
{
    reveal_strlit("C");
    reveal_strlit("Create");
    reveal_strlit("N");
    reveal_strlit("NEW");
    reveal_strlit("S");
    reveal_strlit("U");
    reveal_strlit("UPDATE");
    reveal_strlit("Update");
    reveal_strlit("Y");
    reveal_strlit("YES");
    reveal_strlit("Yes");
    reveal_strlit("c");
    reveal_strlit("create");
    reveal_strlit("n");
    reveal_strlit("new");
    reveal_strlit("no");
    reveal_strlit("s");
    reveal_strlit("u");
    reveal_strlit("update");
    reveal_strlit("y");
    reveal_strlit("yes");
    lemma_ascii_words();
    let t = trim(answer);
    let n = normalized(answer);
    let r = conflict_decision(existing, answer);
    let upd = t == "u"@ || t == "U"@ || t == "update"@ || t == "Update"@ || t == "UPDATE"@;
    let cre = t == "c"@ || t == "C"@ || t == "create"@ || t == "Create"@ || t == "new"@ || t
        == "NEW"@;
    let stop = t.len() == 0 || t == "s"@ || t == "S"@;
    assert(upd ==> r == Ok::<PrAction, ErrorView>(PrAction::Update { number: existing.number }))
        by {
        if upd {
            assert(n == "u"@ || n == "update"@);
        }
    }
    assert(cre ==> r == Ok::<PrAction, ErrorView>(PrAction::Create)) by {
        if cre {
            assert(n == "c"@ || n == "create"@ || n == "new"@);
            assert(n[0] != "u"@[0] && n[0] != "update"@[0]);
        }
    }
    assert(stop ==> r == Err::<PrAction, ErrorView>(ErrorView::Aborted)) by {
        if stop {
            assert(n.len() == 0 || n == "s"@);
            if n.len() > 0 {
                assert(n[0] != "u"@[0] && n[0] != "update"@[0] && n[0] != "c"@[0] && n[0]
                    != "create"@[0] && n[0] != "new"@[0]);
            }
        }
    }
}

/// Only a yes goes on at the final question, in either case and with any
/// whitespace around it; an empty line (the default, `N`) or a no stops.
pub proof fn lemma_confirm_letters(answer: Seq<char>)
    ensures
        ({
            let t = trim(answer);
            let r = confirm_decision(answer);
            &&& t == "y"@ || t == "Y"@ || t == "yes"@ || t == "Yes"@ || t == "YES"@ ==> r is Ok
            &&& t.len() == 0 || t == "n"@ || t == "N"@ || t == "no"@ ==> r == Err::<(), ErrorView>(
                ErrorView::Aborted,
            )
        }),
{
    reveal_strlit("C");
    reveal_strlit("Create");
    reveal_strlit("N");
    reveal_strlit("NEW");
    reveal_strlit("S");
    reveal_strlit("U");
    reveal_strlit("UPDATE");
    reveal_strlit("Update");
    reveal_strlit("Y");
    reveal_strlit("YES");
    reveal_strlit("Yes");
    reveal_strlit("c");
    reveal_strlit("create");
    reveal_strlit("n");
    reveal_strlit("new");
    reveal_strlit("no");
    reveal_strlit("s");
    reveal_strlit("u");
    reveal_strlit("update");
    reveal_strlit("y");
    reveal_strlit("yes");
    lemma_ascii_words();
    let t = trim(answer);
    let n = normalized(answer);
    let r = confirm_decision(answer);
    let yes = t == "y"@ || t == "Y"@ || t == "yes"@ || t == "Yes"@ || t == "YES"@;
    let no = t.len() == 0 || t == "n"@ || t == "N"@ || t == "no"@;
    assert(yes ==> r is Ok) by {
        if yes {
            assert(n == "y"@ || n == "yes"@);
        }
    }
    assert(no ==> r == Err::<(), ErrorView>(ErrorView::Aborted)) by {
        if no {
            assert(n.len() == 0 || n == "n"@ || n == "no"@);
            if n.len() > 0 {
                assert(n[0] != "y"@[0] && n[0] != "yes"@[0]);
            }
        }
    }
}

/// The ASCII lower-casing of the answers the prompts name.
proof fn lemma_ascii_words()
    ensures
        all_ascii("u"@),
        all_ascii("U"@),
        all_ascii("update"@),
        all_ascii("Update"@),
        all_ascii("UPDATE"@),
        all_ascii("c"@),
        all_ascii("C"@),
        all_ascii("create"@),
        all_ascii("Create"@),
        all_ascii("new"@),
        all_ascii("NEW"@),
        all_ascii("s"@),
        all_ascii("S"@),
        all_ascii("y"@),
        all_ascii("Y"@),
        all_ascii("yes"@),
        all_ascii("Yes"@),
        all_ascii("YES"@),
        all_ascii("n"@),
        all_ascii("N"@),
        all_ascii("no"@),
        lower_ascii_text("u"@) == "u"@,
        lower_ascii_text("U"@) == "u"@,
        lower_ascii_text("update"@) == "update"@,
        lower_ascii_text("Update"@) == "update"@,
        lower_ascii_text("UPDATE"@) == "update"@,
        lower_ascii_text("c"@) == "c"@,
        lower_ascii_text("C"@) == "c"@,
        lower_ascii_text("create"@) == "create"@,
        lower_ascii_text("Create"@) == "create"@,
        lower_ascii_text("new"@) == "new"@,
        lower_ascii_text("NEW"@) == "new"@,
        lower_ascii_text("s"@) == "s"@,
        lower_ascii_text("S"@) == "s"@,
        lower_ascii_text(Seq::<char>::empty()) == Seq::<char>::empty(),
        all_ascii(Seq::<char>::empty()),
        lower_ascii_text("y"@) == "y"@,
        lower_ascii_text("Y"@) == "y"@,
        lower_ascii_text("yes"@) == "yes"@,
        lower_ascii_text("Yes"@) == "yes"@,
        lower_ascii_text("YES"@) == "yes"@,
        lower_ascii_text("n"@) == "n"@,
        lower_ascii_text("N"@) == "n"@,
        lower_ascii_text("no"@) == "no"@,
{
    reveal_strlit("u");
    reveal_strlit("U");
    reveal_strlit("update");
    reveal_strlit("Update");
    reveal_strlit("UPDATE");
    reveal_strlit("c");
    reveal_strlit("C");
    reveal_strlit("create");
    reveal_strlit("Create");
    reveal_strlit("new");
    reveal_strlit("NEW");
    reveal_strlit("s");
    reveal_strlit("S");
    reveal_strlit("y");
    reveal_strlit("Y");
    reveal_strlit("yes");
    reveal_strlit("Yes");
    reveal_strlit("YES");
    reveal_strlit("n");
    reveal_strlit("N");
    reveal_strlit("no");
    assert(lower_ascii_text("u"@) =~= "u"@);
    assert(lower_ascii_text("U"@) =~= "u"@);
    assert(lower_ascii_text("update"@) =~= "update"@);
    assert(lower_ascii_text("Update"@) =~= "update"@);
    assert(lower_ascii_text("UPDATE"@) =~= "update"@);
    assert(lower_ascii_text("c"@) =~= "c"@);
    assert(lower_ascii_text("C"@) =~= "c"@);
    assert(lower_ascii_text("create"@) =~= "create"@);
    assert(lower_ascii_text("Create"@) =~= "create"@);
    assert(lower_ascii_text("new"@) =~= "new"@);
    assert(lower_ascii_text("NEW"@) =~= "new"@);
    assert(lower_ascii_text("s"@) =~= "s"@);
    assert(lower_ascii_text("S"@) =~= "s"@);
    assert(lower_ascii_text(Seq::<char>::empty()) =~= Seq::<char>::empty());
    assert(lower_ascii_text("y"@) =~= "y"@);
    assert(lower_ascii_text("Y"@) =~= "y"@);
    assert(lower_ascii_text("yes"@) =~= "yes"@);
    assert(lower_ascii_text("Yes"@) =~= "yes"@);
    assert(lower_ascii_text("YES"@) =~= "yes"@);
    assert(lower_ascii_text("n"@) =~= "n"@);
    assert(lower_ascii_text("N"@) =~= "n"@);
    assert(lower_ascii_text("no"@) =~= "no"@);
}

/// How the title and body are settled: a title and a body from the flags are
/// used as they are, interactive or not; otherwise a run that is not
/// interactive needs a title (the body then defaults to empty), and an
/// interactive one opens the editor seeded with the title and the body that the
/// flags gave. The draft flag is kept.
pub proof fn lemma_spec_plan_seeds(cli: CliView, flag_body: Option<Seq<char>>, interactive: bool)
    ensures
        ({
            let r = spec_plan(cli, flag_body, interactive);
            &&& cli.title is Some && flag_body is Some ==> r == Ok::<SpecPlanView, ErrorView>(
                SpecPlanView::Ready(
                    PrSpecView { title: cli.title->0, body: flag_body->0, draft: cli.draft },
                ),
            )
            &&& !interactive && cli.title is None ==> r == Err::<SpecPlanView, ErrorView>(
                ErrorView::TitleRequired,
            )
            &&& !interactive && cli.title is Some && flag_body is None ==> r == Ok::<
                SpecPlanView,
                ErrorView,
            >(
                SpecPlanView::Ready(
                    PrSpecView { title: cli.title->0, body: Seq::empty(), draft: cli.draft },
                ),
            )
            &&& interactive && !(cli.title is Some && flag_body is Some) ==> (r is Ok && r->Ok_0 is Compose
                && (cli.title is Some ==> r->Ok_0->title_seed == cli.title->0) && (cli.title is None
                ==> r->Ok_0->title_seed.len() == 0) && (flag_body is Some ==> r->Ok_0->body_seed
                == flag_body->0) && (flag_body is None ==> r->Ok_0->body_seed.len() == 0))
        }),
{
}

} // verus!
