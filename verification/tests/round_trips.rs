use sendit::editor::render;
use sendit::{
    parse_commit_log, parse_editor_output, parse_pr_number, parse_shortstat, CommitEntry, DiffStat,
    PrContext, SenditError,
};

fn ctx() -> PrContext {
    PrContext {
        branch: "feat/x".to_string(),
        trunk: "main".to_string(),
        merge_base: "abc".to_string(),
        has_upstream: true,
        commits_ahead: 12,
        commit_log: vec![CommitEntry {
            hash: "a1".to_string(),
            subject: "First".to_string(),
        }],
        diffstat: DiffStat {
            files: 1,
            insertions: 1,
            deletions: 0,
            raw: " a | 1 +\n 1 file changed, 1 insertion(+)".to_string(),
        },
        existing_pr: None,
    }
}

#[test]
fn template_round_trip_keeps_title_and_body() {
    let t = render(&ctx(), "  My title ", "\nLine one\n\n  Line three  \n\n");
    let p = parse_editor_output(&t).unwrap();
    assert_eq!(p.title, "My title");
    assert_eq!(p.body, "Line one\n\n  Line three");
}

#[test]
fn template_round_trip_without_body() {
    let p = parse_editor_output(&render(&ctx(), "Only a title", "")).unwrap();
    assert_eq!(p.title, "Only a title");
    assert_eq!(p.body, "");
}

#[test]
fn template_with_blank_seeds_has_no_title() {
    assert!(matches!(
        parse_editor_output(&render(&ctx(), "", "")),
        Err(SenditError::EmptyTitle)
    ));
}

#[test]
fn template_lists_commits_and_counts() {
    let t = render(&ctx(), "T", "B");
    assert!(t.starts_with("T\n\nB\n\n# ------------------------ >8 ------------------------\n"));
    assert!(t.contains("# Branch: feat/x -> main   |   Commits ahead: 12\n"));
    assert!(t.contains("#\n# Commits:\n#   a1 First\n"));
    assert!(t.ends_with("#\n# Diff stat:\n#    a | 1 +\n#    1 file changed, 1 insertion(+)\n"));
}

#[test]
fn shortstat_round_trip_all_forms() {
    assert_eq!(parse_shortstat(" 1 file changed, 1 insertion(+), 1 deletion(-)\n"), (1, 1, 1));
    assert_eq!(parse_shortstat(" 4 files changed, 10 insertions(+)\n"), (4, 10, 0));
    assert_eq!(parse_shortstat(" 2 files changed, 1 deletion(-)\n"), (2, 0, 1));
    assert_eq!(parse_shortstat(" 5 files changed, 0 insertions(+), 0 deletions(-)\n"), (5, 0, 0));
    assert_eq!(parse_shortstat(" 0 files changed\n"), (0, 0, 0));
}

#[test]
fn pr_number_round_trip() {
    assert_eq!(parse_pr_number("https://github.com/o/r/pull/4294967296"), Some(4294967296));
    assert_eq!(parse_pr_number("https://github.com/o/r/pull/12/"), None);
    assert_eq!(parse_pr_number("pull/+12"), Some(12));
}

#[test]
fn commit_log_round_trip() {
    let log = parse_commit_log("abc123 Fix: a thing\ndef456 \n0a0a0a0  two  spaces\n");
    assert_eq!(log.len(), 3);
    assert_eq!((log[0].hash.as_str(), log[0].subject.as_str()), ("abc123", "Fix: a thing"));
    assert_eq!((log[1].hash.as_str(), log[1].subject.as_str()), ("def456", ""));
    assert_eq!((log[2].hash.as_str(), log[2].subject.as_str()), ("0a0a0a0", " two  spaces"));
}

#[test]
fn text_after_scissors_is_ignored() {
    let a = parse_editor_output("T\n\nbody\n# ------------------------ >8 ------------------------\nanything\nmore").unwrap();
    let b = parse_editor_output("T\n\nbody\n# ------------------------ >8 ------------------------\n").unwrap();
    assert_eq!(a, b);
    assert_eq!(a.body, "body");
}

#[test]
fn whitespace_only_lines_around_body_are_trimmed() {
    let p = parse_editor_output("Title\n \nbody\n").unwrap();
    assert_eq!(p.title, "Title");
    assert_eq!(p.body, "body");
    let p = parse_editor_output("Title\n\t\n  \nfirst\n\n second\n   \n\n").unwrap();
    assert_eq!(p.body, "first\n\n second");
    let p = parse_editor_output("Title\n  \n\t\n").unwrap();
    assert_eq!(p.body, "");
}

#[test]
fn shortstat_forms_with_and_without_newline() {
    assert_eq!(parse_shortstat(" 4 files changed"), (4, 0, 0));
    assert_eq!(parse_shortstat(" 4 files changed\n"), (4, 0, 0));
    assert_eq!(parse_shortstat(" 1 file changed, 0 insertions(+), 0 deletions(-)\n"), (1, 0, 0));
    assert_eq!(parse_shortstat(" 1 file changed, 1 insertion(+)\n"), (1, 1, 0));
    assert_eq!(parse_shortstat(" 2 files changed, 1 deletion(-)"), (2, 0, 1));
}
