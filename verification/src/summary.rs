use crate::context::{PrContext, PrContextView};
use crate::pr::{PrAction, PrOutcome, PrOutcomeView, PrSpec, PrSpecView};
use crate::text::{decimal, decimal_chars, push_chars};
use vstd::prelude::*;

verus! {

/// The final "Sent!" summary block.
pub open spec fn summary_text(outcome: PrOutcomeView, ctx: PrContextView, spec: PrSpecView) -> Seq<
    char,
> {
    let action = match outcome.action {
        PrAction::Create => "Created"@,
        PrAction::Update { .. } => "Updated"@,
    };
    let status = if outcome.draft {
        "Draft"@
    } else {
        "Ready"@
    };
    "Sent! "@ + action + " PR\n  Title:   "@ + spec.title + "\n  URL:     "@ + outcome.url
        + "\n  Status:  "@ + status + "\n  Branch:  "@ + ctx.branch + " -> "@ + ctx.trunk
        + "\n  Commits: "@ + decimal(ctx.commits_ahead as nat) + " | Files: "@ + decimal(
        ctx.diffstat.files as nat,
    ) + " | Changes: +"@ + decimal(ctx.diffstat.insertions as nat) + " -"@ + decimal(
        ctx.diffstat.deletions as nat,
    )
}

fn push_str(s: &mut String, t: &str)
    ensures
        final(s)@ == old(s)@ + t@,
{
    s.append(t);
}

fn push_num(s: &mut String, n: u32)
    ensures
        final(s)@ == old(s)@ + decimal(n as nat),
{
    push_chars(s, &decimal_chars(n as u64));
}

/// Format the final "Sent!" summary block.
pub fn format_summary(outcome: &PrOutcome, ctx: &PrContext, spec: &PrSpec) -> (s: String)
    ensures
        s@ == summary_text(outcome@, ctx@, spec@),
{
    let action = match outcome.action {
        PrAction::Create => "Created",
        PrAction::Update { .. } => "Updated",
    };
    let status = if outcome.draft {
        "Draft"
    } else {
        "Ready"
    };
    let mut s = String::from_str("Sent! ");
    push_str(&mut s, action);
    push_str(&mut s, " PR\n  Title:   ");
    push_str(&mut s, spec.title.as_str());
    push_str(&mut s, "\n  URL:     ");
    push_str(&mut s, outcome.url.as_str());
    push_str(&mut s, "\n  Status:  ");
    push_str(&mut s, status);
    push_str(&mut s, "\n  Branch:  ");
    push_str(&mut s, ctx.branch.as_str());
    push_str(&mut s, " -> ");
    push_str(&mut s, ctx.trunk.as_str());
    push_str(&mut s, "\n  Commits: ");
    push_num(&mut s, ctx.commits_ahead);
    push_str(&mut s, " | Files: ");
    push_num(&mut s, ctx.diffstat.files);
    push_str(&mut s, " | Changes: +");
    push_num(&mut s, ctx.diffstat.insertions);
    push_str(&mut s, " -");
    push_num(&mut s, ctx.diffstat.deletions);
    assert(s@ =~= summary_text(outcome@, ctx@, spec@));
    s
}

} // verus!
