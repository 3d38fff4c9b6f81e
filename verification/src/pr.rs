use crate::command::{gh_invocation, invocation_args, Invocation, Tool};
use crate::context::{PrContext, PrContextView};
use crate::gh::{ExistingPr, ExistingPrView};
use crate::text::{
    is_digit, lemma_decimal_digits, lemma_parse_decimal, lemma_split_concat, lemma_split_no_sep,
    chars_of, decimal, decimal_chars, lines, lines_chars, parse_unsigned, parse_unsigned_chars,
    split, split_chars, starts_with, starts_with_chars, string_of, strings_view, trim,
    trim_chars,
};
use vstd::prelude::*;

verus! {

/// The human-authored content of a PR.
#[derive(Debug, Clone, PartialEq, Eq)]
pub struct PrSpec {
    pub title: String,
    pub body: String,
    pub draft: bool,
}

/// PR content, its strings taken by their characters.
pub struct PrSpecView {
    pub title: Seq<char>,
    pub body: Seq<char>,
    pub draft: bool,
}

impl View for PrSpec {
    type V = PrSpecView;

    open spec fn view(&self) -> PrSpecView {
        PrSpecView { title: self.title@, body: self.body@, draft: self.draft }
    }
}

/// Whether to open a new PR or update an existing one.
#[derive(Debug, Clone, Copy, PartialEq, Eq)]
pub enum PrAction {
    Create,
    Update { number: u64 },
}

/// The result of a create/update operation.
#[derive(Debug, Clone)]
pub struct PrOutcome {
    pub url: String,
    pub number: Option<u64>,
    pub draft: bool,
    pub action: PrAction,
}

/// A PR outcome, its URL taken by its characters.
pub struct PrOutcomeView {
    pub url: Seq<char>,
    pub number: Option<u64>,
    pub draft: bool,
    pub action: PrAction,
}

impl View for PrOutcome {
    type V = PrOutcomeView;

    open spec fn view(&self) -> PrOutcomeView {
        PrOutcomeView {
            url: self.url@,
            number: self.number,
            draft: self.draft,
            action: self.action,
        }
    }
}

/// The create-vs-update decision resolved from the CLI flags and any existing
/// PR, without performing any I/O.
///
/// `Conflict` means an open PR already exists for the branch and no flag forced
/// the choice; the caller must decide how to proceed (prompt interactively,
/// default to one, or error). This lets embedders reuse the decision table
/// without inheriting the terminal prompt.
#[derive(Debug, Clone, PartialEq, Eq)]
pub enum ActionChoice {
    /// Open a new PR.
    Create,
    /// Update the existing PR with this number.
    Update(u64),
    /// An open PR exists and the choice was not forced; the caller decides.
    Conflict(ExistingPr),
}

pub enum ActionChoiceView {
    Create,
    Update(u64),
    Conflict(ExistingPrView),
}

impl View for ActionChoice {
    type V = ActionChoiceView;

    open spec fn view(&self) -> ActionChoiceView {
        match self {
            ActionChoice::Create => ActionChoiceView::Create,
            ActionChoice::Update(n) => ActionChoiceView::Update(*n),
            ActionChoice::Conflict(p) => ActionChoiceView::Conflict(p@),
        }
    }
}

/// An optional borrowed PR, taken by its view.
pub open spec fn opt_pr_ref_view(p: Option<&ExistingPr>) -> Option<ExistingPrView> {
    match p {
        Some(x) => Some(x@),
        None => None,
    }
}

/// The decision table. Precedence: no existing PR → `Create`; `--update` →
/// `Update`; `--new` → `Create`; `--yes` (the idempotent default for
/// scripting) → `Update`; otherwise `Conflict`.
pub open spec fn action_choice(
    existing: Option<ExistingPrView>,
    update: bool,
    new: bool,
    yes: bool,
) -> ActionChoiceView {
    match existing {
        None => ActionChoiceView::Create,
        Some(p) => if update {
            ActionChoiceView::Update(p.number)
        } else if new {
            ActionChoiceView::Create
        } else if yes {
            ActionChoiceView::Update(p.number)
        } else {
            ActionChoiceView::Conflict(p)
        },
    }
}

/// Resolve an [`ActionChoice`] from the existing PR (if any) and the `--update`
/// / `--new` / `--yes` flags, with no prompting or other I/O.
pub fn resolve_action(existing: Option<&ExistingPr>, update: bool, new: bool, yes: bool) -> (r:
    ActionChoice)
    ensures
        r@ == action_choice(opt_pr_ref_view(existing), update, new, yes),
{
    let existing = match existing {
        Some(e) => e,
        None => return ActionChoice::Create,
    };
    if update {
        ActionChoice::Update(existing.number)
    } else if new {
        ActionChoice::Create
    } else if yes {
        ActionChoice::Update(existing.number)
    } else {
        ActionChoice::Conflict(existing.duplicate())
    }
}

/// The arguments of `gh pr create`: base and head branches, title, body (even
/// when empty), and `--draft` last for a draft.
pub open spec fn create_args(ctx: PrContextView, spec: PrSpecView) -> Seq<Seq<char>> {
    let base = seq![
        "pr"@,
        "create"@,
        "--base"@,
        ctx.trunk,
        "--head"@,
        ctx.branch,
        "--title"@,
        spec.title,
        "--body"@,
        spec.body,
    ];
    if spec.draft {
        base.push("--draft"@)
    } else {
        base
    }
}

/// Build the `gh pr create` argument list.
pub fn build_create_args(ctx: &PrContext, spec: &PrSpec) -> (args: Vec<String>)
    ensures
        strings_view(args@) == create_args(ctx@, spec@),
{
    let mut args: Vec<String> = Vec::new();
    args.push(String::from_str("pr"));
    args.push(String::from_str("create"));
    args.push(String::from_str("--base"));
    args.push(ctx.trunk.clone());
    args.push(String::from_str("--head"));
    args.push(ctx.branch.clone());
    args.push(String::from_str("--title"));
    args.push(spec.title.clone());
    args.push(String::from_str("--body"));
    args.push(spec.body.clone());
    if spec.draft {
        args.push(String::from_str("--draft"));
    }
    assert(strings_view(args@) =~= create_args(ctx@, spec@));
    args
}

/// The arguments of `gh pr edit <number>`: the new title and body.
pub open spec fn edit_args(number: u64, spec: PrSpecView) -> Seq<Seq<char>> {
    seq!["pr"@, "edit"@, decimal(number as nat), "--title"@, spec.title, "--body"@, spec.body]
}

/// Build the `gh pr edit <number>` argument list.
pub fn build_edit_args(number: u64, spec: &PrSpec) -> (args: Vec<String>)
    ensures
        strings_view(args@) == edit_args(number, spec@),
{
    let mut args: Vec<String> = Vec::new();
    args.push(String::from_str("pr"));
    args.push(String::from_str("edit"));
    args.push(string_of(&decimal_chars(number)));
    args.push(String::from_str("--title"));
    args.push(spec.title.clone());
    args.push(String::from_str("--body"));
    args.push(spec.body.clone());
    assert(strings_view(args@) =~= edit_args(number, spec@));
    args
}

/// The `gh` call that creates or updates the PR.
pub open spec fn pr_call_args(ctx: PrContextView, spec: PrSpecView, action: PrAction) -> Seq<
    Seq<char>,
> {
    match action {
        PrAction::Create => create_args(ctx, spec),
        PrAction::Update { number } => edit_args(number, spec),
    }
}

/// The `gh` invocation that creates or updates the PR per `spec` and `action`.
pub fn pr_command(ctx: &PrContext, spec: &PrSpec, action: PrAction) -> (i: Invocation)
    ensures
        i.tool == Tool::Gh,
        invocation_args(i) == pr_call_args(ctx@, spec@, action),
{
    match action {
        PrAction::Create => gh_invocation(build_create_args(ctx, spec)),
        PrAction::Update { number } => gh_invocation(build_edit_args(number, spec)),
    }
}

/// The last line, trimmed, that starts with `http` once trimmed; empty if none.
pub open spec fn last_url(ls: Seq<Seq<char>>) -> Seq<char>
    decreases ls.len(),
{
    if ls.len() == 0 {
        Seq::empty()
    } else if starts_with(trim(ls.last()), "http"@) {
        trim(ls.last())
    } else {
        last_url(ls.drop_last())
    }
}

/// The PR URL in `gh` output.
pub open spec fn pr_url_of(stdout: Seq<char>) -> Seq<char> {
    last_url(lines(stdout))
}

/// Extract the PR URL from `gh` stdout (the last line beginning with `http`).
pub fn parse_pr_url(stdout: &str) -> (url: String)
    ensures
        url@ == pr_url_of(stdout@),
{
    let ls = lines_chars(&chars_of(stdout));
    let ghost lv = lines(stdout@);
    let http = chars_of("http");
    let mut i: usize = ls.len();
    assert(lv.take(ls.len() as int) =~= lv);
    while i > 0
        invariant
            i <= ls.len(),
            ls@.len() == lv.len(),
            forall|k: int| 0 <= k < ls@.len() ==> #[trigger] ls@[k]@ == lv[k],
            http@ == "http"@,
            lv == lines(stdout@),
            last_url(lv) == last_url(lv.take(i as int)),
        decreases i,
    {
        let t = trim_chars(&ls[i - 1]);
        assert(lv.take(i as int).last() == lv[i - 1]);
        assert(lv.take(i as int).drop_last() =~= lv.take(i - 1));
        assert(t@ == trim(lv.take(i as int).last()));
        if starts_with_chars(&t, &http) {
            assert(last_url(lv.take(i as int)) == t@);
            return string_of(&t);
        }
        i -= 1;
    }
    String::new()
}

/// The PR number at the end of a URL: what follows its last `/`, read as a `u64`.
pub open spec fn pr_number_of(url: Seq<char>) -> Option<u64> {
    match parse_unsigned(split(url, '/').last(), u64::MAX as nat) {
        Some(n) => Some(n as u64),
        None => None,
    }
}

/// Extract the trailing PR number from a `.../pull/<n>` URL.
pub fn parse_pr_number(url: &str) -> (n: Option<u64>)
    ensures
        n == pr_number_of(url@),
{
    let parts = split_chars(&chars_of(url), '/');
    proof {
        assert(split(url@, '/') == crate::text::split_by(url@, crate::text::is_char('/')));
    }
    let last = &parts[parts.len() - 1];
    match parse_unsigned_chars(last, 0xffff_ffff_ffff_ffff) {
        Ok(n) => Some(n),
        Err(_) => None,
    }
}

/// What the create or update reports, given what `gh` printed.
///
/// `gh pr edit` cannot toggle draft/ready state, so on update the reported
/// draft status is the existing PR's (the spec's when none is known), and an
/// update whose output names no URL reports the existing PR's URL.
pub open spec fn outcome_of(
    ctx: PrContextView,
    spec: PrSpecView,
    action: PrAction,
    stdout: Seq<char>,
) -> PrOutcomeView {
    let url = pr_url_of(stdout);
    match action {
        PrAction::Create => PrOutcomeView {
            url,
            number: pr_number_of(url),
            draft: spec.draft,
            action,
        },
        PrAction::Update { number } => PrOutcomeView {
            url: if url.len() == 0 {
                match ctx.existing_pr {
                    Some(p) => p.url,
                    None => Seq::empty(),
                }
            } else {
                url
            },
            number: Some(number),
            draft: match ctx.existing_pr {
                Some(p) => p.is_draft,
                None => spec.draft,
            },
            action,
        },
    }
}

/// Create or update the PR per `spec` and `action`: the outcome, from what the
/// `gh` call of `pr_command` printed.
pub fn create_or_update_pr(ctx: &PrContext, spec: &PrSpec, action: PrAction, stdout: &str) -> (r:
    PrOutcome)
    ensures
        r@ == outcome_of(ctx@, spec@, action, stdout@),
{
    let url = parse_pr_url(stdout);
    match action {
        PrAction::Create => {
            let number = parse_pr_number(url.as_str());
            PrOutcome { url, number, draft: spec.draft, action }
        },
        PrAction::Update { number } => {
            let draft = match &ctx.existing_pr {
                Some(p) => p.is_draft,
                None => spec.draft,
            };
            let empty = chars_of(url.as_str()).len() == 0;
            let url = if empty {
                match &ctx.existing_pr {
                    Some(p) => p.url.clone(),
                    None => String::new(),
                }
            } else {
                url
            };
            PrOutcome { url, number: Some(number), draft, action }
        },
    }
}

/// The number written at the end of a PR URL, after its last `/`, is the
/// number read back from it.
pub proof fn lemma_pr_number_round_trip(prefix: Seq<char>, n: u64)
    ensures
        pr_number_of(prefix + seq!['/'] + decimal(n as nat)) == Some(n),
{
    let d = decimal(n as nat);
    lemma_decimal_digits(n as nat);
    assert forall|j: int| 0 <= j < d.len() implies #[trigger] d[j] != '/' by {
        assert(is_digit(d[j]));
    }
    lemma_split_no_sep(d, '/');
    lemma_split_concat(prefix, d, '/');
    lemma_parse_decimal(n as nat, u64::MAX as nat);
}

/// What a create or update reports: the action asked for; on create, the
/// draft status asked for and the URL `gh` printed with the number at its end;
/// on update, the number of the PR updated and, since `gh pr edit` cannot
/// change it, the existing PR's draft status (the asked one only when no PR is
/// known), and its URL when `gh` printed none.
pub proof fn lemma_outcome_reports(
    ctx: PrContextView,
    spec: PrSpecView,
    action: PrAction,
    stdout: Seq<char>,
)
    ensures
        ({
            let o = outcome_of(ctx, spec, action, stdout);
            &&& o.action == action
            &&& action is Create ==> o.draft == spec.draft && o.url == pr_url_of(stdout) && o.number
                == pr_number_of(pr_url_of(stdout))
            &&& action matches PrAction::Update { number } ==> o.number == Some(number)
            &&& action is Update && ctx.existing_pr is Some ==> o.draft == ctx.existing_pr->0.is_draft
            &&& action is Update && ctx.existing_pr is None ==> o.draft == spec.draft
            &&& action is Update && pr_url_of(stdout).len() > 0 ==> o.url == pr_url_of(stdout)
            &&& action is Update && pr_url_of(stdout).len() == 0 && ctx.existing_pr is Some ==> o.url
                == ctx.existing_pr->0.url
        }),
{
}

} // verus!
