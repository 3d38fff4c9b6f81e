use sendit::cli::{BodySource, Cli};
use sendit::command::{CommandOutcome, CommandOutput, Invocation, Tool};
use sendit::context::{preflight, preflight_start, PreflightAction, PreflightEvent};
use sendit::session::{
    confirm_answer, confirm_prompt, conflict_answer, conflict_prompt, resolve_spec, session_start,
    session_step, SessionAction, SessionEvent, SpecPlan,
};
use sendit::{DiffStat, ExistingPr, PrAction, PrContext, PrSpec, SenditError};

fn done(code: i32, stdout: &str) -> CommandOutcome {
    CommandOutcome::Finished(CommandOutput {
        code: Some(code),
        stdout: stdout.as_bytes().to_vec(),
        stderr: vec![],
    })
}

fn args(i: &Invocation) -> Vec<&str> {
    i.args.iter().map(|a| a.as_str()).collect()
}

/// The world of a repository on branch `feat` with two commits ahead of
/// `main`, no upstream, and no open PR.
fn answer(i: &Invocation) -> CommandOutcome {
    let a = args(i);
    match (i.tool, a.as_slice()) {
        (Tool::Git, ["-c", "core.quotepath=false", "rev-parse", "--is-inside-work-tree"]) => {
            done(0, "true\n")
        }
        (Tool::Gh, ["auth", "status"]) => done(0, ""),
        (Tool::Git, [_, _, "symbolic-ref", "--quiet", "--short", "HEAD"]) => done(0, "feat\n"),
        (Tool::Gh, ["repo", "view", "--json", "defaultBranchRef"]) => {
            done(0, "{\"defaultBranchRef\":{\"name\":\"main\"}}")
        }
        (Tool::Git, [_, _, "symbolic-ref", "--short", "refs/remotes/origin/HEAD"]) => {
            done(0, "origin/main\n")
        }
        (Tool::Git, [_, _, "rev-parse", "--verify", "--quiet", "refs/heads/main"]) => done(0, ""),
        (Tool::Git, [_, _, "rev-parse", "--verify", "--quiet", "refs/heads/master"]) => done(1, ""),
        (Tool::Git, [_, _, "merge-base", "HEAD", "main"]) => done(0, "abc123\n"),
        (Tool::Git, [_, _, "rev-list", "--count", "abc123..HEAD"]) => done(0, "2\n"),
        (Tool::Git, [_, _, "rev-parse", "--abbrev-ref", "--symbolic-full-name", "@{u}"]) => {
            done(128, "")
        }
        (Tool::Git, [_, _, "log", "--format=%h %s", "abc123..HEAD"]) => {
            done(0, "b2 Second\na1 First\n")
        }
        (Tool::Git, [_, _, "diff", "--stat", "abc123..HEAD"]) => {
            done(0, " f | 2 +-\n 1 file changed, 1 insertion(+), 1 deletion(-)\n")
        }
        (Tool::Git, [_, _, "diff", "--shortstat", "abc123..HEAD"]) => {
            done(0, " 1 file changed, 1 insertion(+), 1 deletion(-)\n")
        }
        (Tool::Gh, ["pr", "list", "--head", "feat", "--state", "open", "--json", _]) => done(0, "[]"),
        (Tool::Git, [_, _, "push", "-u", "origin", "feat"]) => done(0, ""),
        (Tool::Gh, ["pr", "create", ..]) => {
            done(0, "Creating pull request\nhttps://github.com/o/r/pull/7\n")
        }
        other => panic!("unexpected command: {other:?}"),
    }
}

#[test]
fn preflight_gathers_context_in_order() {
    let (mut state, mut action) = preflight_start(None);
    let mut asked: Vec<Vec<String>> = Vec::new();
    let ctx = loop {
        let event = match action {
            PreflightAction::Run(i) => {
                asked.push(i.args.clone());
                PreflightEvent::Ran(answer(&i))
            }
            PreflightAction::DecodeDefaultBranch(json) => {
                assert!(json.contains("main"));
                PreflightEvent::DefaultBranch(Some("main".to_string()))
            }
            PreflightAction::DecodeOpenPrs(json) => {
                assert_eq!(json, "[]");
                PreflightEvent::OpenPrs(Ok(vec![]))
            }
            PreflightAction::Done(r) => break r.unwrap(),
        };
        let (s, a) = preflight(state, event);
        state = s;
        action = a;
    };
    assert_eq!(asked.len(), 14);
    assert_eq!(ctx.branch, "feat");
    assert_eq!(ctx.trunk, "main");
    assert_eq!(ctx.merge_base, "abc123");
    assert!(!ctx.has_upstream);
    assert_eq!(ctx.commits_ahead, 2);
    assert_eq!(ctx.commit_log.len(), 2);
    assert_eq!(ctx.commit_log[0].subject, "Second");
    assert_eq!((ctx.diffstat.files, ctx.diffstat.insertions, ctx.diffstat.deletions), (1, 1, 1));
    assert!(ctx.existing_pr.is_none());
}

#[test]
fn preflight_stops_outside_a_repository() {
    let (state, action) = preflight_start(None);
    assert!(matches!(action, PreflightAction::Run(_)));
    let (_, action) = preflight(state, PreflightEvent::Ran(done(0, "false\n")));
    assert!(matches!(action, PreflightAction::Done(Err(SenditError::NotARepo))));
}

#[test]
fn preflight_refuses_the_trunk_branch() {
    let (mut state, mut action) = preflight_start(Some("feat".to_string()));
    let err = loop {
        let event = match action {
            PreflightAction::Run(i) => PreflightEvent::Ran(answer(&i)),
            PreflightAction::DecodeDefaultBranch(_) => PreflightEvent::DefaultBranch(None),
            PreflightAction::DecodeOpenPrs(_) => PreflightEvent::OpenPrs(Ok(vec![])),
            PreflightAction::Done(r) => break r.unwrap_err(),
        };
        let (s, a) = preflight(state, event);
        state = s;
        action = a;
    };
    assert!(matches!(err, SenditError::OnTrunk(ref t) if t == "feat"));
    assert_eq!(err.message(), "refusing to open a PR from trunk branch `feat`; check out a feature branch first");
    assert_eq!(err.exit_code(), 2);
}

fn drive(cli: Cli, tty: bool, mut respond: impl FnMut(&SessionAction) -> SessionEvent) -> (Result<String, SenditError>, Vec<String>) {
    let (mut session, mut action) = session_start(cli, tty);
    let mut log = Vec::new();
    loop {
        match &action {
            SessionAction::Finish(r) => return (r.clone(), log),
            SessionAction::Run(i) => log.push(i.args.join(" ")),
            SessionAction::Prompt(q) => log.push(format!("prompt: {q}")),
            SessionAction::Edit(_) => log.push("edit".to_string()),
            _ => {}
        }
        let event = respond(&action);
        let (s, a) = session_step(session, event);
        session = s;
        action = a;
    }
}

fn world(action: &SessionAction) -> SessionEvent {
    match action {
        SessionAction::Run(i) => SessionEvent::Ran(answer(i)),
        SessionAction::DecodeDefaultBranch(_) => SessionEvent::DefaultBranch(Some("main".to_string())),
        SessionAction::DecodeOpenPrs(_) => SessionEvent::OpenPrs(Ok(vec![])),
        other => panic!("unexpected request: {other:?}"),
    }
}

#[test]
fn scripted_run_pushes_then_creates() {
    let cli = Cli {
        title: Some("Add auth".to_string()),
        body: Some("Body".to_string()),
        yes: true,
        draft: true,
        ..Cli::default()
    };
    let (r, log) = drive(cli, false, world);
    let summary = r.unwrap();
    assert!(summary.starts_with("Sent! Created PR\n  Title:   Add auth\n"));
    assert!(summary.contains("URL:     https://github.com/o/r/pull/7"));
    assert!(summary.contains("Status:  Draft"));
    assert!(summary.contains("Commits: 2 | Files: 1 | Changes: +1 -1"));
    let n = log.len();
    assert_eq!(log[n - 2], "-c core.quotepath=false push -u origin feat");
    assert_eq!(
        log[n - 1],
        "pr create --base main --head feat --title Add auth --body Body --draft"
    );
}

#[test]
fn declining_the_confirmation_pushes_nothing() {
    let cli = Cli {
        title: Some("T".to_string()),
        body: Some("B".to_string()),
        ..Cli::default()
    };
    let (r, log) = drive(cli, false, |a| match a {
        SessionAction::Prompt(q) => {
            assert_eq!(q, "Push feat and create PR -> main. Continue? [y/N]: ");
            SessionEvent::Answer(Ok("\n".to_string()))
        }
        other => world(other),
    });
    let err = r.unwrap_err();
    assert!(matches!(err, SenditError::Aborted));
    assert_eq!(err.exit_code(), 130);
    assert!(log.iter().all(|l| !l.contains("push")));
}

#[test]
fn untouched_template_aborts_before_push() {
    let (r, log) = drive(Cli::default(), true, |a| match a {
        SessionAction::Edit(template) => SessionEvent::Edited(Ok(template.clone())),
        other => world(other),
    });
    let err = r.unwrap_err();
    assert!(matches!(err, SenditError::EmptyTitle));
    assert_eq!(err.exit_code(), 1);
    assert_eq!(log.last().unwrap(), "edit");
}

#[test]
fn edited_template_is_confirmed_and_sent() {
    let (r, _) = drive(Cli::default(), true, |a| match a {
        SessionAction::Edit(template) => {
            SessionEvent::Edited(Ok(format!("Edited title\n\nSome body\n{template}")))
        }
        SessionAction::Prompt(_) => SessionEvent::Answer(Ok("YES\n".to_string())),
        other => world(other),
    });
    assert!(r.unwrap().contains("Title:   Edited title"));
}

#[test]
fn body_file_is_requested() {
    let cli = Cli {
        title: Some("T".to_string()),
        body_file: Some("-".to_string()),
        yes: true,
        ..Cli::default()
    };
    let mut asked = None;
    let (r, _) = drive(cli, false, |a| match a {
        SessionAction::ReadBody(src) => {
            asked = Some(src.clone());
            SessionEvent::BodyRead(Err(SenditError::Io("closed".to_string())))
        }
        other => world(other),
    });
    assert_eq!(asked, Some(BodySource::Stdin));
    let err = r.unwrap_err();
    assert_eq!(err.message(), "I/O error: closed");
    assert_eq!(err.exit_code(), 3);
}

#[test]
fn non_interactive_run_needs_a_title() {
    let (r, _) = drive(Cli::default(), false, world);
    let err = r.unwrap_err();
    assert!(matches!(err, SenditError::TitleRequired));
    assert_eq!(err.exit_code(), 2);
}

fn ctx() -> PrContext {
    PrContext {
        branch: "feat".to_string(),
        trunk: "main".to_string(),
        merge_base: "abc".to_string(),
        has_upstream: true,
        commits_ahead: 1,
        commit_log: vec![],
        diffstat: DiffStat { files: 0, insertions: 0, deletions: 0, raw: String::new() },
        existing_pr: None,
    }
}

#[test]
fn prompts_and_answers() {
    let existing = ExistingPr {
        number: 42,
        url: "https://github.com/o/r/pull/42".to_string(),
        state: "OPEN".to_string(),
        is_draft: false,
    };
    assert_eq!(
        conflict_prompt(&existing),
        "PR #42 already exists (OPEN) https://github.com/o/r/pull/42\n[u]pdate / [c]reate new / [s]top (default s): "
    );
    assert_eq!(conflict_answer(&existing, " Update\n").unwrap(), PrAction::Update { number: 42 });
    assert_eq!(conflict_answer(&existing, "NEW").unwrap(), PrAction::Create);
    assert!(matches!(conflict_answer(&existing, ""), Err(SenditError::Aborted)));
    assert!(confirm_answer(" Y \n").is_ok());
    assert!(matches!(confirm_answer("no"), Err(SenditError::Aborted)));
    let spec = PrSpec { title: "T".to_string(), body: String::new(), draft: true };
    assert_eq!(
        confirm_prompt(&ctx(), PrAction::Update { number: 9 }, &spec),
        "Push feat and update #9 PR -> main. Continue? [y/N]: "
    );
    assert_eq!(
        confirm_prompt(&ctx(), PrAction::Create, &spec),
        "Push feat and create draft PR -> main. Continue? [y/N]: "
    );
}

#[test]
fn spec_resolution() {
    let cli = Cli { title: Some("T".to_string()), ..Cli::default() };
    match resolve_spec(&cli, &None, false).unwrap() {
        SpecPlan::Ready(s) => assert_eq!((s.title.as_str(), s.body.as_str()), ("T", "")),
        other => panic!("unexpected: {other:?}"),
    }
    match resolve_spec(&cli, &None, true).unwrap() {
        SpecPlan::Compose { title_seed, body_seed } => {
            assert_eq!((title_seed.as_str(), body_seed.as_str()), ("T", ""))
        }
        other => panic!("unexpected: {other:?}"),
    }
    assert!(matches!(resolve_spec(&Cli::default(), &Some("b".to_string()), false), Err(SenditError::TitleRequired)));
}

#[test]
fn body_sources() {
    let inline = Cli { body: Some("b".to_string()), body_file: Some("f".to_string()), ..Cli::default() };
    assert_eq!(inline.body_source(), BodySource::Inline("b".to_string()));
    assert!(inline.has_body_source());
    let file = Cli { body_file: Some("pr.md".to_string()), ..Cli::default() };
    assert_eq!(file.body_source(), BodySource::File("pr.md".to_string()));
    assert_eq!(Cli::default().body_source(), BodySource::Absent);
    assert!(!Cli::default().has_body_source());
}

#[test]
fn every_error_has_its_text_and_code() {
    let cases: Vec<(SenditError, &str, i32)> = vec![
        (SenditError::NotARepo, "not inside a git repository", 2),
        (SenditError::NotAuthenticated, "GitHub CLI not authenticated; run `gh auth login`", 2),
        (SenditError::GhNotInstalled, "`gh` not found on PATH; install the GitHub CLI (https://cli.github.com)", 2),
        (SenditError::GitNotInstalled, "`git` not found on PATH", 2),
        (SenditError::OnTrunk("main".to_string()), "refusing to open a PR from trunk branch `main`; check out a feature branch first", 2),
        (SenditError::DetachedHead, "detached HEAD; check out a branch first", 2),
        (SenditError::NoTrunk, "could not determine the trunk/default branch; pass --base <ref>", 2),
        (SenditError::NothingToSend { trunk: "main".to_string() }, "no commits ahead of `main`; nothing to send", 2),
        (SenditError::GitFailed("x".to_string()), "git command failed: x", 3),
        (SenditError::GhFailed("x".to_string()), "gh command failed: x", 3),
        (SenditError::GhParse("x".to_string()), "failed to parse gh JSON output: x", 3),
        (SenditError::EditorFailed("vim".to_string()), "editor `vim` exited with an error", 3),
        (SenditError::EmptyTitle, "empty PR title; aborting (nothing was pushed or created)", 1),
        (SenditError::TitleRequired, "a PR title is required: pass --title, or run interactively to use the editor", 2),
        (SenditError::Aborted, "aborted by user", 130),
        (SenditError::Io("disk".to_string()), "I/O error: disk", 3),
    ];
    for (e, text, code) in cases {
        assert_eq!(e.message(), text);
        assert_eq!(e.exit_code(), code);
    }
}

#[test]
fn failing_gh_repo_view_falls_back_to_local_branches() {
    let (mut state, mut action) = preflight_start(None);
    let mut trunk_asked = None;
    let ctx = loop {
        let event = match action {
            PreflightAction::Run(i) => {
                let a = args(&i);
                if i.tool == Tool::Gh && a.first() == Some(&"repo") {
                    PreflightEvent::Ran(done(1, ""))
                } else if i.tool == Tool::Git && a.get(2) == Some(&"symbolic-ref") && a.get(3) == Some(&"--short") {
                    PreflightEvent::Ran(done(1, ""))
                } else {
                    if a.get(2) == Some(&"merge-base") {
                        trunk_asked = Some(a[4].to_string());
                    }
                    PreflightEvent::Ran(answer(&i))
                }
            }
            PreflightAction::DecodeDefaultBranch(_) => panic!("nothing to decode"),
            PreflightAction::DecodeOpenPrs(_) => PreflightEvent::OpenPrs(Ok(vec![])),
            PreflightAction::Done(r) => break r.unwrap(),
        };
        let (s, a) = preflight(state, event);
        state = s;
        action = a;
    };
    assert_eq!(trunk_asked.as_deref(), Some("main"));
    assert_eq!(ctx.trunk, "main");
}

#[test]
fn failed_push_creates_no_pr() {
    let cli = Cli {
        title: Some("T".to_string()),
        body: Some("B".to_string()),
        yes: true,
        ..Cli::default()
    };
    let (r, log) = drive(cli, false, |a| match a {
        SessionAction::Run(i) if i.args.iter().any(|x| x == "push") => SessionEvent::Ran(
            CommandOutcome::Finished(CommandOutput {
                code: Some(1),
                stdout: vec![],
                stderr: b" rejected \n".to_vec(),
            }),
        ),
        other => world(other),
    });
    match r {
        Err(SenditError::GitFailed(m)) => assert_eq!(m, "rejected"),
        other => panic!("unexpected: {other:?}"),
    }
    assert!(log.iter().all(|l| !l.starts_with("pr create") && !l.starts_with("pr edit")));
}
