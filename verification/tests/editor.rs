use sendit::editor::{split_editor_command, SCISSORS};
use sendit::{parse_editor_output, render_template, CommitEntry, DiffStat, PrContext, SenditError};

fn ctx() -> PrContext {
    PrContext {
        branch: "feat/foo".to_string(),
        trunk: "master".to_string(),
        merge_base: "abc".to_string(),
        has_upstream: false,
        commits_ahead: 2,
        commit_log: vec![CommitEntry {
            hash: "a1b2c3d".to_string(),
            subject: "Add the widget loader".to_string(),
        }],
        diffstat: DiffStat {
            files: 1,
            insertions: 42,
            deletions: 7,
            raw: " src/widget.rs | 49 +++++++---".to_string(),
        },
        existing_pr: None,
    }
}

#[test]
fn template_contains_context() {
    let t = render_template(&ctx());
    assert!(t.contains(SCISSORS));
    assert!(t.contains("# Branch: feat/foo -> master   |   Commits ahead: 2"));
    assert!(t.contains("#   a1b2c3d Add the widget loader"));
    assert!(t.contains("src/widget.rs | 49 +++++++---"));
    assert!(t.contains("# Diff stat:"));
}

#[test]
fn parse_title_and_body() {
    let raw = "Add JWT auth\n\n## Summary\n- did the thing\n";
    let p = parse_editor_output(raw).unwrap();
    assert_eq!(p.title, "Add JWT auth");
    assert_eq!(p.body, "## Summary\n- did the thing");
}

#[test]
fn parse_title_only() {
    let p = parse_editor_output("Add JWT auth\n").unwrap();
    assert_eq!(p.title, "Add JWT auth");
    assert_eq!(p.body, "");
}

#[test]
fn parse_drops_scissors_block() {
    let raw = format!("My title\n\nbody line\n{SCISSORS}\n# Branch: x -> y\n#   commitline\n");
    let p = parse_editor_output(&raw).unwrap();
    assert_eq!(p.title, "My title");
    assert_eq!(p.body, "body line");
}

#[test]
fn parse_template_untouched_is_empty_title() {
    let raw = render_template(&ctx());
    assert!(matches!(
        parse_editor_output(&raw),
        Err(SenditError::EmptyTitle)
    ));
}

#[test]
fn parse_preserves_markdown_headers_in_body() {
    let raw = "Title\n\n# A heading\n## Another\nbody\n";
    let p = parse_editor_output(raw).unwrap();
    assert_eq!(p.body, "# A heading\n## Another\nbody");
}

#[test]
fn parse_skips_leading_blank_lines() {
    let p = parse_editor_output("\n\n  Title here  \n\nbody\n").unwrap();
    assert_eq!(p.title, "Title here");
    assert_eq!(p.body, "body");
}

#[test]
fn parse_preserves_backticks_and_vars() {
    let raw = "Title\n\nuse `cargo build` and $HOME and \"quotes\"\n";
    let p = parse_editor_output(raw).unwrap();
    assert_eq!(p.body, "use `cargo build` and $HOME and \"quotes\"");
}

#[test]
fn split_simple_editor() {
    assert_eq!(split_editor_command("vi"), ("vi".to_string(), vec![]));
}

#[test]
fn split_editor_with_args() {
    assert_eq!(
        split_editor_command("code --wait"),
        ("code".to_string(), vec!["--wait".to_string()])
    );
    assert_eq!(
        split_editor_command("  emacs -nw  "),
        ("emacs".to_string(), vec!["-nw".to_string()])
    );
}

#[test]
fn split_empty_editor_defaults_vi() {
    assert_eq!(split_editor_command(""), ("vi".to_string(), vec![]));
}
