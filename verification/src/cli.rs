use crate::text::{opt_text, str_eq};
use vstd::prelude::*;

verus! {

/// The command-line options.
///
/// With no options, the PR title and body come from `$EDITOR` on a pre-filled
/// template. Giving `title` plus a body source (`body`/`body_file`) skips the
/// editor for scripting.
#[derive(Debug, Clone, Default)]
pub struct Cli {
    /// PR title. When combined with a body source, skips the editor.
    pub title: Option<String>,
    /// PR body text.
    pub body: Option<String>,
    /// Read the PR body from a file (`-` for stdin).
    pub body_file: Option<String>,
    /// Create the PR as a draft (honored on create only).
    pub draft: bool,
    /// Skip confirmation prompts (non-interactive).
    pub yes: bool,
    /// Override the base/trunk branch to target.
    pub base: Option<String>,
    /// When a PR already exists for this branch, update it.
    pub update: bool,
    /// When a PR already exists for this branch, create a new one anyway.
    pub new: bool,
}

/// The options, their strings taken by their characters.
pub struct CliView {
    pub title: Option<Seq<char>>,
    pub body: Option<Seq<char>>,
    pub body_file: Option<Seq<char>>,
    pub draft: bool,
    pub yes: bool,
    pub base: Option<Seq<char>>,
    pub update: bool,
    pub new: bool,
}

impl View for Cli {
    type V = CliView;

    open spec fn view(&self) -> CliView {
        CliView {
            title: opt_text(self.title),
            body: opt_text(self.body),
            body_file: opt_text(self.body_file),
            draft: self.draft,
            yes: self.yes,
            base: opt_text(self.base),
            update: self.update,
            new: self.new,
        }
    }
}

/// Where the PR body given on the command line comes from.
#[derive(Debug, Clone, PartialEq, Eq)]
pub enum BodySource {
    /// No body was given.
    Absent,
    /// `--body <text>`.
    Inline(String),
    /// `--body-file -`: standard input.
    Stdin,
    /// `--body-file <path>`.
    File(String),
}

pub enum BodySourceView {
    Absent,
    Inline(Seq<char>),
    Stdin,
    File(Seq<char>),
}

impl View for BodySource {
    type V = BodySourceView;

    open spec fn view(&self) -> BodySourceView {
        match self {
            BodySource::Absent => BodySourceView::Absent,
            BodySource::Inline(b) => BodySourceView::Inline(b@),
            BodySource::Stdin => BodySourceView::Stdin,
            BodySource::File(p) => BodySourceView::File(p@),
        }
    }
}

/// `--body` wins; then `--body-file`, where `-` means standard input.
pub open spec fn body_source_of(cli: CliView) -> BodySourceView {
    if cli.body is Some {
        BodySourceView::Inline(cli.body->0)
    } else if cli.body_file is None {
        BodySourceView::Absent
    } else if cli.body_file->0 == "-"@ {
        BodySourceView::Stdin
    } else {
        BodySourceView::File(cli.body_file->0)
    }
}

impl Cli {
    /// Whether the user supplied a body via flag (`--body` or `--body-file`).
    pub fn has_body_source(&self) -> (b: bool)
        ensures
            b == (self.body is Some || self.body_file is Some),
    {
        self.body.is_some() || self.body_file.is_some()
    }

    /// Where to read the PR body from: `--body`, `--body-file <path>`, or
    /// `--body-file -` (stdin).
    pub fn body_source(&self) -> (r: BodySource)
        ensures
            r@ == body_source_of(self@),
    {
        if let Some(body) = &self.body {
            return BodySource::Inline(body.clone());
        }
        match &self.body_file {
            None => BodySource::Absent,
            Some(path) => if str_eq(path.as_str(), "-") {
                BodySource::Stdin
            } else {
                BodySource::File(path.clone())
            },
        }
    }
}

} // verus!
