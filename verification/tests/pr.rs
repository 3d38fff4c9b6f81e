use sendit::{
    build_create_args, build_edit_args, parse_pr_number, parse_pr_url, resolve_action,
    ActionChoice, DiffStat, ExistingPr, PrContext, PrSpec,
};

fn ctx() -> PrContext {
    PrContext {
        branch: "feat".to_string(),
        trunk: "master".to_string(),
        merge_base: "abc".to_string(),
        has_upstream: true,
        commits_ahead: 1,
        commit_log: vec![],
        diffstat: DiffStat {
            files: 0,
            insertions: 0,
            deletions: 0,
            raw: String::new(),
        },
        existing_pr: None,
    }
}

#[test]
fn create_args_ready() {
    let spec = PrSpec {
        title: "T".to_string(),
        body: "B".to_string(),
        draft: false,
    };
    assert_eq!(
        build_create_args(&ctx(), &spec),
        vec!["pr", "create", "--base", "master", "--head", "feat", "--title", "T", "--body", "B"]
    );
}

#[test]
fn create_args_draft() {
    let spec = PrSpec {
        title: "T".to_string(),
        body: "B".to_string(),
        draft: true,
    };
    let args = build_create_args(&ctx(), &spec);
    assert_eq!(args.last().unwrap(), "--draft");
}

#[test]
fn create_args_empty_body_still_emitted() {
    let spec = PrSpec {
        title: "T".to_string(),
        body: String::new(),
        draft: false,
    };
    let args = build_create_args(&ctx(), &spec);
    let i = args.iter().position(|a| a == "--body").unwrap();
    assert_eq!(args[i + 1], "");
}

#[test]
fn edit_args_basic() {
    let spec = PrSpec {
        title: "T".to_string(),
        body: "B".to_string(),
        draft: false,
    };
    assert_eq!(
        build_edit_args(7, &spec),
        vec!["pr", "edit", "7", "--title", "T", "--body", "B"]
    );
}

#[test]
fn url_parsing() {
    let out = "Creating pull request for feat into master\nhttps://github.com/o/r/pull/12\n";
    assert_eq!(parse_pr_url(out), "https://github.com/o/r/pull/12");
    assert_eq!(parse_pr_number("https://github.com/o/r/pull/12"), Some(12));
}

#[test]
fn url_parsing_none() {
    assert_eq!(parse_pr_url("nothing here\n"), "");
    assert_eq!(parse_pr_number(""), None);
}

fn existing() -> ExistingPr {
    ExistingPr {
        number: 42,
        url: "https://github.com/o/r/pull/42".to_string(),
        state: "OPEN".to_string(),
        is_draft: false,
    }
}

#[test]
fn resolve_action_no_existing_is_create() {
    assert_eq!(
        resolve_action(None, false, false, false),
        ActionChoice::Create
    );
    // Flags are irrelevant with no existing PR.
    assert_eq!(
        resolve_action(None, true, false, true),
        ActionChoice::Create
    );
}

#[test]
fn resolve_action_update_flag_wins() {
    assert_eq!(
        resolve_action(Some(&existing()), true, false, false),
        ActionChoice::Update(42)
    );
}

#[test]
fn resolve_action_new_flag_forces_create() {
    assert_eq!(
        resolve_action(Some(&existing()), false, true, false),
        ActionChoice::Create
    );
    // `--new` also wins over the idempotent `--yes` default.
    assert_eq!(
        resolve_action(Some(&existing()), false, true, true),
        ActionChoice::Create
    );
}

#[test]
fn resolve_action_yes_is_idempotent_update() {
    assert_eq!(
        resolve_action(Some(&existing()), false, false, true),
        ActionChoice::Update(42)
    );
}

#[test]
fn resolve_action_conflict_when_unforced() {
    assert_eq!(
        resolve_action(Some(&existing()), false, false, false),
        ActionChoice::Conflict(existing())
    );
}
