//! `sendit`: push the current branch and open a GitHub PR with a title and body
//! you write yourself. The library holds the decisions of a run (which checks,
//! which commands, what their output means, the editor template and how it is
//! read back, the create-or-update choice, the summary) as verified functions;
//! the caller runs the programs and the editor and hands the results back.

pub mod cli;
pub mod command;
pub mod context;
pub mod editor;
pub mod error;
pub mod gh;
pub mod git;
pub mod pr;
pub mod session;
pub mod summary;
pub mod text;

pub use cli::Cli;
pub use context::{preflight, resolve_trunk, PrContext};
pub use editor::{parse_editor_output, render_template, ParsedPr};
pub use error::SenditError;
pub use gh::ExistingPr;
pub use git::{parse_commit_log, parse_shortstat, CommitEntry, DiffStat};
pub use pr::{
    build_create_args, build_edit_args, create_or_update_pr, parse_pr_number, parse_pr_url,
    resolve_action, ActionChoice, PrAction, PrOutcome, PrSpec,
};
pub use summary::format_summary;
