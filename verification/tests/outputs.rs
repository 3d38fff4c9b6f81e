use sendit::editor::{editor_argv, editor_status};
use sendit::error::{error_line, exit_status};
use sendit::command::{CommandOutcome, CommandOutput};
use sendit::gh::{auth_ok, default_branch_json, find_existing_pr, run_gh};
use sendit::git::{
    commit_log, commits_ahead, current_branch, diffstat, has_upstream, is_inside_repo,
    local_branch_exists, merge_base, origin_head, push, run_git,
};
use sendit::{ExistingPr, SenditError};

fn done(code: i32, stdout: &[u8], stderr: &[u8]) -> CommandOutcome {
    CommandOutcome::Finished(CommandOutput {
        code: Some(code),
        stdout: stdout.to_vec(),
        stderr: stderr.to_vec(),
    })
}

#[test]
fn inside_repo_reads_true() {
    assert_eq!(is_inside_repo(&done(0, b"true\n", b"")).unwrap(), true);
    assert_eq!(is_inside_repo(&done(0, b"false\n", b"")).unwrap(), false);
    assert_eq!(is_inside_repo(&done(128, b"", b"fatal")).unwrap(), false);
    // Invalid UTF-8 decodes to a replacement character, which is not `true`.
    assert_eq!(is_inside_repo(&done(0, b"\xfftrue\n", b"")).unwrap(), false);
}

#[test]
fn missing_programs_are_named() {
    assert!(matches!(
        is_inside_repo(&CommandOutcome::NotFound),
        Err(SenditError::GitNotInstalled)
    ));
    assert!(matches!(
        auth_ok(&CommandOutcome::NotFound),
        Err(SenditError::GhNotInstalled)
    ));
    match run_git(&CommandOutcome::SpawnFailed("denied".to_string())) {
        Err(SenditError::Io(m)) => assert_eq!(m, "denied"),
        other => panic!("unexpected: {other:?}"),
    }
}

#[test]
fn run_git_maps_failures() {
    assert!(matches!(
        run_git(&done(128, b"", b"fatal: not a git repository (or any parent)")),
        Err(SenditError::NotARepo)
    ));
    match run_git(&done(128, b"", b"  fatal: bad revision  \n")) {
        Err(SenditError::GitFailed(m)) => assert_eq!(m, "fatal: bad revision"),
        other => panic!("unexpected: {other:?}"),
    }
    match run_git(&done(1, b"", b" boom \n")) {
        Err(SenditError::GitFailed(m)) => assert_eq!(m, "boom"),
        other => panic!("unexpected: {other:?}"),
    }
    assert_eq!(run_git(&done(0, b"out\n", b"")).unwrap(), "out\n");
}

#[test]
fn current_branch_needs_a_name() {
    assert_eq!(current_branch(&done(0, b"feat/x\n", b"")).unwrap(), "feat/x");
    assert!(matches!(
        current_branch(&done(0, b"  \n", b"")),
        Err(SenditError::DetachedHead)
    ));
    assert!(matches!(
        current_branch(&done(1, b"", b"")),
        Err(SenditError::DetachedHead)
    ));
}

#[test]
fn origin_head_strips_remote() {
    assert_eq!(origin_head(&done(0, b"origin/main\n", b"")).as_deref(), Some("main"));
    assert_eq!(origin_head(&done(0, b"origin/\n", b"")).as_deref(), Some("origin/"));
    assert_eq!(origin_head(&done(0, b"upstream/dev\n", b"")).as_deref(), Some("upstream/dev"));
    assert_eq!(origin_head(&done(0, b"  \n", b"")), None);
    assert_eq!(origin_head(&done(1, b"origin/main\n", b"")), None);
    assert_eq!(origin_head(&CommandOutcome::NotFound), None);
}

#[test]
fn status_only_commands() {
    assert!(local_branch_exists(&done(0, b"", b"")));
    assert!(!local_branch_exists(&done(1, b"", b"")));
    assert!(!local_branch_exists(&CommandOutcome::NotFound));
    assert!(has_upstream(&done(0, b"origin/feat\n", b"")));
    assert!(!has_upstream(&CommandOutcome::SpawnFailed("x".to_string())));
    let signalled = CommandOutcome::Finished(CommandOutput {
        code: None,
        stdout: vec![],
        stderr: vec![],
    });
    assert!(!has_upstream(&signalled));
}

#[test]
fn merge_base_is_trimmed() {
    assert_eq!(merge_base(&done(0, b"  abc123\n", b"")).unwrap(), "abc123");
}

#[test]
fn commits_ahead_reports_bad_counts() {
    assert_eq!(commits_ahead(&done(0, b"7\n", b"")).unwrap(), 7);
    assert_eq!(commits_ahead(&done(0, b"+7\n", b"")).unwrap(), 7);
    match commits_ahead(&done(0, b"seven\n", b"")) {
        Err(SenditError::GitFailed(m)) => {
            assert_eq!(m, "unexpected rev-list output: invalid digit found in string")
        }
        other => panic!("unexpected: {other:?}"),
    }
    match commits_ahead(&done(0, b"4294967296\n", b"")) {
        Err(SenditError::GitFailed(m)) => {
            assert_eq!(m, "unexpected rev-list output: number too large to fit in target type")
        }
        other => panic!("unexpected: {other:?}"),
    }
    match commits_ahead(&done(0, b"\n", b"")) {
        Err(SenditError::GitFailed(m)) => {
            assert_eq!(m, "unexpected rev-list output: cannot parse integer from empty string")
        }
        other => panic!("unexpected: {other:?}"),
    }
    match commits_ahead(&done(0, b"99999999999x\n", b"")) {
        Err(SenditError::GitFailed(m)) => {
            assert_eq!(m, "unexpected rev-list output: number too large to fit in target type")
        }
        other => panic!("unexpected: {other:?}"),
    }
}

#[test]
fn commit_log_from_output() {
    let log = commit_log(&done(0, b"a1 First\r\nb2 Second\n", b"")).unwrap();
    assert_eq!(log.len(), 2);
    assert_eq!(log[0].subject, "First");
    assert_eq!(log[1].hash, "b2");
}

#[test]
fn diffstat_trims_display_block() {
    let d = diffstat(
        " f.rs | 2 +-\n 1 file changed, 1 insertion(+), 1 deletion(-)\n\n",
        " 1 file changed, 1 insertion(+), 1 deletion(-)\n",
    );
    assert_eq!((d.files, d.insertions, d.deletions), (1, 1, 1));
    assert_eq!(d.raw, " f.rs | 2 +-\n 1 file changed, 1 insertion(+), 1 deletion(-)");
}

#[test]
fn push_reports_stderr() {
    assert!(push(&done(0, b"", b"")).is_ok());
    match push(&done(1, b"", b"  rejected  ")) {
        Err(SenditError::GitFailed(m)) => assert_eq!(m, "rejected"),
        other => panic!("unexpected: {other:?}"),
    }
}

#[test]
fn gh_outputs() {
    assert!(auth_ok(&done(0, b"", b"")).unwrap());
    assert!(!auth_ok(&done(1, b"", b"")).unwrap());
    match run_gh(&done(1, b"", b" no such PR \n")) {
        Err(SenditError::GhFailed(m)) => assert_eq!(m, "no such PR"),
        other => panic!("unexpected: {other:?}"),
    }
    assert_eq!(default_branch_json(&done(0, b"{}", b"")).as_deref(), Some("{}"));
    assert_eq!(default_branch_json(&done(1, b"{}", b"")), None);
    assert_eq!(default_branch_json(&done(0, b"{\"a\":\"\xff\"}", b"")), None);
}

#[test]
fn first_open_pr_is_taken() {
    let pr = ExistingPr {
        number: 3,
        url: "u".to_string(),
        state: "OPEN".to_string(),
        is_draft: true,
    };
    let found = find_existing_pr(&Ok(vec![pr.clone()])).unwrap();
    assert_eq!(found, Some(pr));
    assert_eq!(find_existing_pr(&Ok(vec![])).unwrap(), None);
    match find_existing_pr(&Err("EOF while parsing".to_string())) {
        Err(SenditError::GhParse(m)) => assert_eq!(m, "pr list: EOF while parsing"),
        other => panic!("unexpected: {other:?}"),
    }
}

#[test]
fn git_runs_with_raw_utf8_paths() {
    let i = sendit::git::git_cmd();
    assert_eq!(i.tool, sendit::command::Tool::Git);
    assert_eq!(i.args, vec!["-c".to_string(), "core.quotepath=false".to_string()]);
}

#[test]
fn utf8_stdout_is_kept_as_written() {
    let out = run_git(&done(0, "héllo\n".as_bytes(), b"")).unwrap();
    assert_eq!(out, "héllo\n");
}

#[test]
fn run_exit_status_and_error_line() {
    assert_eq!(exit_status(&Ok("Sent!".to_string())), 0);
    assert_eq!(exit_status(&Err(SenditError::Aborted)), 130);
    assert_eq!(exit_status(&Err(SenditError::EmptyTitle)), 1);
    assert_eq!(exit_status(&Err(SenditError::NotARepo)), 2);
    assert_eq!(exit_status(&Err(SenditError::GhFailed("x".to_string()))), 3);
    assert_eq!(error_line(&SenditError::NotARepo), "sendit: not inside a git repository");
    assert_eq!(
        error_line(&SenditError::OnTrunk("main".to_string())),
        "sendit: refusing to open a PR from trunk branch `main`; check out a feature branch first"
    );
}

#[test]
fn editor_launch_and_exit() {
    assert_eq!(
        editor_argv("code --wait", "/tmp/SENDIT_PR_1.md"),
        ("code".to_string(), vec!["--wait".to_string(), "/tmp/SENDIT_PR_1.md".to_string()])
    );
    assert_eq!(editor_argv("", "f.md"), ("vi".to_string(), vec!["f.md".to_string()]));
    assert!(editor_status(true, "vi").is_ok());
    match editor_status(false, "code --wait") {
        Err(SenditError::EditorFailed(ed)) => assert_eq!(ed, "code --wait"),
        other => panic!("unexpected: {other:?}"),
    }
}
