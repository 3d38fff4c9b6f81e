pub use crate::command::git_cmd;
use crate::command::{
    git_invocation, git_prefix, invocation_args, lossy_text, stderr_text, stdout_text, succeeded,
    CommandOutcome, CommandOutput, Invocation, Tool,
};
use crate::error::{text_result, ErrorView, SenditError};
use crate::text::{
    chars_of, contains_chars, decimal, has_substr, int_error_message, int_error_text, is_char,
    lines, lines_chars, parse_error_kind, parse_unsigned, parse_unsigned_chars, seg_len, slice_chars,
    split, split_chars, starts_with, starts_with_chars, string_of, strings_of, strings_view, trim,
    trim_chars, trim_end, trim_end_chars, words, words_chars, find_char, chars_eq, opt_text,
    is_digit, is_ws, lacks, lemma_decimal_digits, lemma_first_word, lemma_lacks, lemma_no_substr,
    lemma_parse_decimal, lemma_split_concat, lemma_split_no_sep, lemma_substr_at, trim_start,
    lemma_seg_len_at, strip_cr, is_blank,
};
use vstd::prelude::*;

verus! {

/// A single commit between the merge-base and HEAD.
#[derive(Debug, Clone, PartialEq, Eq)]
pub struct CommitEntry {
    pub hash: String,
    pub subject: String,
}

/// A commit entry, taken by its characters.
pub struct CommitView {
    pub hash: Seq<char>,
    pub subject: Seq<char>,
}

impl View for CommitEntry {
    type V = CommitView;

    open spec fn view(&self) -> CommitView {
        CommitView { hash: self.hash@, subject: self.subject@ }
    }
}

/// Aggregate diff statistics for the branch versus its merge-base.
#[derive(Debug, Clone, PartialEq, Eq)]
pub struct DiffStat {
    pub files: u32,
    pub insertions: u32,
    pub deletions: u32,
    /// The `git diff --stat` display block (per-file bars + summary line).
    pub raw: String,
}

/// Diff statistics, the display block taken by its characters.
pub struct DiffStatView {
    pub files: u32,
    pub insertions: u32,
    pub deletions: u32,
    pub raw: Seq<char>,
}

impl View for DiffStat {
    type V = DiffStatView;

    open spec fn view(&self) -> DiffStatView {
        DiffStatView {
            files: self.files,
            insertions: self.insertions,
            deletions: self.deletions,
            raw: self.raw@,
        }
    }
}

impl CommitEntry {
    /// A copy with the same fields.
    pub fn duplicate(&self) -> (r: CommitEntry)
        ensures
            r@ == self@,
    {
        CommitEntry { hash: self.hash.clone(), subject: self.subject.clone() }
    }
}

/// A copy of a commit log.
pub fn copy_log(log: &Vec<CommitEntry>) -> (r: Vec<CommitEntry>)
    ensures
        commits_view(r@) == commits_view(log@),
{
    let mut r: Vec<CommitEntry> = Vec::new();
    let mut i: usize = 0;
    while i < log.len()
        invariant
            i <= log.len(),
            commits_view(r@) == commits_view(log@.take(i as int)),
        decreases log.len() - i,
    {
        let ghost before = r@;
        r.push(log[i].duplicate());
        assert(commits_view(r@) =~= commits_view(before).push(log@[i as int]@));
        assert(commits_view(log@.take(i + 1)) =~= commits_view(log@.take(i as int)).push(
            log@[i as int]@,
        ));
        i += 1;
    }
    assert(log@.take(log.len() as int) =~= log@);
    r
}

/// Commit entries, each taken by its view.
pub open spec fn commits_view(v: Seq<CommitEntry>) -> Seq<CommitView> {
    v.map_values(|c: CommitEntry| c@)
}

// ---------------------------------------------------------------------------
// Parsing git's output.

/// A line split at its first space, if it has one (`str::split_once(' ')`).
pub open spec fn split_once_space(l: Seq<char>) -> Option<(Seq<char>, Seq<char>)> {
    let k = seg_len(l, is_char(' '));
    if k < l.len() {
        Some((l.take(k as int), l.skip(k + 1int)))
    } else {
        None
    }
}

/// The commit entry a `%h %s` line describes: the hash up to the first space,
/// the subject after it (empty when there is no space).
pub open spec fn entry_of_line(l: Seq<char>) -> CommitView {
    match split_once_space(l) {
        Some((h, s)) => CommitView { hash: h, subject: s },
        None => CommitView { hash: l, subject: Seq::empty() },
    }
}

/// The lines that hold something besides whitespace.
pub open spec fn non_blank(ls: Seq<Seq<char>>) -> Seq<Seq<char>>
    decreases ls.len(),
{
    if ls.len() == 0 {
        ls
    } else if trim(ls.last()).len() == 0 {
        non_blank(ls.drop_last())
    } else {
        non_blank(ls.drop_last()).push(ls.last())
    }
}

/// The commit log that `git log --format=%h %s` output describes.
pub open spec fn commit_log_of(raw: Seq<char>) -> Seq<CommitView> {
    non_blank(lines(raw)).map_values(|l: Seq<char>| entry_of_line(l))
}

fn entry_from_line(l: &Vec<char>) -> (e: CommitEntry)
    ensures
        e@ == entry_of_line(l@),
{
    let k = find_char(l, ' ');
    if k < l.len() {
        let h = slice_chars(l, 0, k);
        let s = slice_chars(l, k + 1, l.len());
        assert(h@ =~= l@.take(k as int));
        assert(s@ =~= l@.skip(k + 1));
        CommitEntry { hash: string_of(&h), subject: string_of(&s) }
    } else {
        let empty: Vec<char> = Vec::new();
        assert(empty@ =~= Seq::<char>::empty());
        CommitEntry { hash: string_of(l), subject: string_of(&empty) }
    }
}

/// Parse `git log --format=%h %s` output into commit entries.
pub fn parse_commit_log(raw: &str) -> (log: Vec<CommitEntry>)
    ensures
        commits_view(log@) == commit_log_of(raw@),
{
    let ls = lines_chars(&chars_of(raw));
    let ghost lv = lines(raw@);
    let mut log: Vec<CommitEntry> = Vec::new();
    let mut i: usize = 0;
    while i < ls.len()
        invariant
            i <= ls.len(),
            ls@.len() == lv.len(),
            forall|k: int| 0 <= k < ls@.len() ==> #[trigger] ls@[k]@ == lv[k],
            commits_view(log@) == non_blank(lv.take(i as int)).map_values(
                |l: Seq<char>| entry_of_line(l),
            ),
        decreases ls.len() - i,
    {
        let t = trim_chars(&ls[i]);
        let ghost before = log@;
        assert(lv.take(i + 1).drop_last() =~= lv.take(i as int));
        assert(lv.take(i + 1).last() == ls@[i as int]@);
        if t.len() > 0 {
            let e = entry_from_line(&ls[i]);
            log.push(e);
            assert(commits_view(log@) =~= commits_view(before).push(e@));
        }
        i += 1;
    }
    assert(lv.take(ls.len() as int) =~= lv);
    log
}

/// What one comma-separated part of a `--shortstat` line contributes: its first
/// word read as a count, filed under files, insertions or deletions by the word
/// that the part contains.
pub open spec fn shortstat_apply(part: Seq<char>, acc: (u32, u32, u32)) -> (u32, u32, u32) {
    let p = trim(part);
    let w = words(p);
    if w.len() > 0 && parse_unsigned(w[0], u32::MAX as nat) is Some {
        let n = parse_unsigned(w[0], u32::MAX as nat)->0 as u32;
        if has_substr(p, "file"@) {
            (n, acc.1, acc.2)
        } else if has_substr(p, "insertion"@) {
            (acc.0, n, acc.2)
        } else if has_substr(p, "deletion"@) {
            (acc.0, acc.1, n)
        } else {
            acc
        }
    } else {
        acc
    }
}

/// The counts read from the parts, in order, starting from zero.
pub open spec fn shortstat_of_parts(ps: Seq<Seq<char>>) -> (u32, u32, u32)
    decreases ps.len(),
{
    if ps.len() == 0 {
        (0, 0, 0)
    } else {
        shortstat_apply(ps.last(), shortstat_of_parts(ps.drop_last()))
    }
}

/// The `(files, insertions, deletions)` that a `--shortstat` line states.
pub open spec fn shortstat_of(line: Seq<char>) -> (u32, u32, u32) {
    shortstat_of_parts(split(line, ','))
}

/// Parse a `git diff --shortstat` line into `(files, insertions, deletions)`.
///
/// Handles all the partial forms git emits, e.g.
/// ` 3 files changed, 42 insertions(+), 7 deletions(-)`,
/// ` 1 file changed, 5 insertions(+)`, ` 2 files changed, 3 deletions(-)`.
pub fn parse_shortstat(line: &str) -> (r: (u32, u32, u32))
    ensures
        r == shortstat_of(line@),
{
    let parts = split_chars(&chars_of(line), ',');
    let ghost pv = split(line@, ',');
    let file_w = chars_of("file");
    let ins_w = chars_of("insertion");
    let del_w = chars_of("deletion");
    let mut files: u32 = 0;
    let mut insertions: u32 = 0;
    let mut deletions: u32 = 0;
    let mut i: usize = 0;
    while i < parts.len()
        invariant
            i <= parts.len(),
            parts@.len() == pv.len(),
            forall|k: int| 0 <= k < parts@.len() ==> #[trigger] parts@[k]@ == pv[k],
            file_w@ == "file"@,
            ins_w@ == "insertion"@,
            del_w@ == "deletion"@,
            (files, insertions, deletions) == shortstat_of_parts(pv.take(i as int)),
        decreases parts.len() - i,
    {
        assert(pv.take(i + 1).drop_last() =~= pv.take(i as int));
        assert(pv.take(i + 1).last() == parts@[i as int]@);
        let p = trim_chars(&parts[i]);
        let w = words_chars(&p);
        if w.len() > 0 {
            match parse_unsigned_chars(&w[0], 0xffff_ffff) {
                Ok(n) => {
                    let n = n as u32;
                    if contains_chars(&p, &file_w) {
                        files = n;
                    } else if contains_chars(&p, &ins_w) {
                        insertions = n;
                    } else if contains_chars(&p, &del_w) {
                        deletions = n;
                    }
                },
                Err(_) => {},
            }
        }
        i += 1;
    }
    assert(pv.take(parts.len() as int) =~= pv);
    (files, insertions, deletions)
}

// ---------------------------------------------------------------------------
// The git commands and what their output means.

/// How running `git` went, as the library sees it: the output, or the error
/// that starting it gave (`GitNotInstalled` when it is missing).
pub open spec fn git_spawn(oc: CommandOutcome) -> Result<CommandOutput, ErrorView> {
    match oc {
        CommandOutcome::Finished(o) => Ok(o),
        CommandOutcome::NotFound => Err(ErrorView::GitNotInstalled),
        CommandOutcome::SpawnFailed(m) => Err(ErrorView::Io(m@)),
    }
}

fn git_output(oc: &CommandOutcome) -> (r: Result<&CommandOutput, SenditError>)
    ensures
        match git_spawn(*oc) {
            Ok(o) => r matches Ok(x) && *x == o,
            Err(e) => r matches Err(x) && x@ == e,
        },
{
    match oc {
        CommandOutcome::Finished(o) => Ok(o),
        CommandOutcome::NotFound => Err(SenditError::GitNotInstalled),
        CommandOutcome::SpawnFailed(m) => Err(SenditError::Io(m.clone())),
    }
}

/// What a `git` command that must succeed gave: its stdout, `NotARepo` when git
/// exited 128 saying the directory is not a repository, otherwise `GitFailed`
/// with the trimmed stderr.
pub open spec fn git_stdout(oc: CommandOutcome) -> Result<Seq<char>, ErrorView> {
    match git_spawn(oc) {
        Err(e) => Err(e),
        Ok(o) => if o.code == Some(128i32) {
            if has_substr(stderr_text(o), "not a git repository"@) {
                Err(ErrorView::NotARepo)
            } else {
                Err(ErrorView::GitFailed(trim(stderr_text(o))))
            }
        } else if !succeeded(o) {
            Err(ErrorView::GitFailed(trim(stderr_text(o))))
        } else {
            Ok(stdout_text(o))
        },
    }
}

/// The trimmed stderr of a failed command.
fn trimmed_stderr(o: &CommandOutput) -> (s: String)
    ensures
        s@ == trim(stderr_text(*o)),
{
    let e = lossy_text(&o.stderr);
    string_of(&trim_chars(&chars_of(e.as_str())))
}

/// Run-result of a `git` command: its stdout, requiring success.
///
/// Maps "not a git repository" (exit 128) to `NotARepo` and any other failure
/// to `GitFailed` with the trimmed stderr.
pub fn run_git(oc: &CommandOutcome) -> (r: Result<String, SenditError>)
    ensures
        text_result(r) == git_stdout(*oc),
{
    let o = git_output(oc)?;
    if o.code == Some(128i32) {
        let err = lossy_text(&o.stderr);
        let pat = chars_of("not a git repository");
        if contains_chars(&chars_of(err.as_str()), &pat) {
            return Err(SenditError::NotARepo);
        }
        return Err(SenditError::GitFailed(trimmed_stderr(o)));
    }
    if !o.success() {
        return Err(SenditError::GitFailed(trimmed_stderr(o)));
    }
    Ok(lossy_text(&o.stdout))
}

/// The arguments of `git rev-parse --is-inside-work-tree`.
pub open spec fn inside_repo_args() -> Seq<Seq<char>> {
    git_prefix() + seq!["rev-parse"@, "--is-inside-work-tree"@]
}

pub fn is_inside_repo_command() -> (i: Invocation)
    ensures
        i.tool == Tool::Git,
        invocation_args(i) == inside_repo_args(),
{
    let a = strings_of(&["rev-parse", "--is-inside-work-tree"]);
    let i = git_invocation(a);
    assert(invocation_args(i) =~= inside_repo_args());
    i
}

/// Whether the current directory is inside a git work tree: git succeeded and
/// printed `true`.
pub open spec fn inside_repo_result(oc: CommandOutcome) -> Result<bool, ErrorView> {
    match git_spawn(oc) {
        Err(e) => Err(e),
        Ok(o) => Ok(succeeded(o) && trim(stdout_text(o)) == "true"@),
    }
}

/// Whether the current directory is inside a git work tree.
pub fn is_inside_repo(oc: &CommandOutcome) -> (r: Result<bool, SenditError>)
    ensures
        match inside_repo_result(*oc) {
            Ok(b) => r == Ok::<bool, SenditError>(b),
            Err(e) => r matches Err(x) && x@ == e,
        },
{
    let o = git_output(oc)?;
    if !o.success() {
        return Ok(false);
    }
    let out = lossy_text(&o.stdout);
    let t = trim_chars(&chars_of(out.as_str()));
    Ok(chars_eq(&t, &chars_of("true")))
}

/// The arguments of `git symbolic-ref --quiet --short HEAD`.
pub open spec fn current_branch_args() -> Seq<Seq<char>> {
    git_prefix() + seq!["symbolic-ref"@, "--quiet"@, "--short"@, "HEAD"@]
}

pub fn current_branch_command() -> (i: Invocation)
    ensures
        i.tool == Tool::Git,
        invocation_args(i) == current_branch_args(),
{
    let i = git_invocation(strings_of(&["symbolic-ref", "--quiet", "--short", "HEAD"]));
    assert(invocation_args(i) =~= current_branch_args());
    i
}

/// The current branch: the trimmed output of a successful `symbolic-ref` when
/// it is not empty, otherwise `DetachedHead`.
pub open spec fn current_branch_result(oc: CommandOutcome) -> Result<Seq<char>, ErrorView> {
    match git_spawn(oc) {
        Err(e) => Err(e),
        Ok(o) => if succeeded(o) && trim(stdout_text(o)).len() > 0 {
            Ok(trim(stdout_text(o)))
        } else {
            Err(ErrorView::DetachedHead)
        },
    }
}

/// The current branch name, or `DetachedHead` when HEAD isn't on a branch.
pub fn current_branch(oc: &CommandOutcome) -> (r: Result<String, SenditError>)
    ensures
        text_result(r) == current_branch_result(*oc),
{
    let o = git_output(oc)?;
    if o.success() {
        let out = lossy_text(&o.stdout);
        let t = trim_chars(&chars_of(out.as_str()));
        if t.len() > 0 {
            return Ok(string_of(&t));
        }
    }
    Err(SenditError::DetachedHead)
}

/// The arguments of `git symbolic-ref --short refs/remotes/origin/HEAD`.
pub open spec fn origin_head_args() -> Seq<Seq<char>> {
    git_prefix() + seq!["symbolic-ref"@, "--short"@, "refs/remotes/origin/HEAD"@]
}

pub fn origin_head_command() -> (i: Invocation)
    ensures
        i.tool == Tool::Git,
        invocation_args(i) == origin_head_args(),
{
    let i = git_invocation(strings_of(&["symbolic-ref", "--short", "refs/remotes/origin/HEAD"]));
    assert(invocation_args(i) =~= origin_head_args());
    i
}

/// The branch `origin/HEAD` names: the trimmed output without its `origin/`,
/// or the whole trimmed output when that leaves nothing or there is no such
/// prefix; nothing when git failed or printed only whitespace.
pub open spec fn origin_head_result(oc: CommandOutcome) -> Option<Seq<char>> {
    match oc {
        CommandOutcome::Finished(o) => if !succeeded(o) {
            None
        } else {
            let full = trim(stdout_text(o));
            if starts_with(full, "origin/"@) && full.len() > "origin/"@.len() {
                Some(full.skip("origin/"@.len() as int))
            } else if full.len() > 0 {
                Some(full)
            } else {
                None
            }
        },
        _ => None,
    }
}

/// The short name behind `refs/remotes/origin/HEAD` (e.g. `main`), if set.
pub fn origin_head(oc: &CommandOutcome) -> (r: Option<String>)
    ensures
        opt_text(r) == origin_head_result(*oc),
{
    let o = match oc {
        CommandOutcome::Finished(o) => o,
        _ => return None,
    };
    if !o.success() {
        return None;
    }
    let out = lossy_text(&o.stdout);
    let full = trim_chars(&chars_of(out.as_str()));
    let prefix = chars_of("origin/");
    if starts_with_chars(&full, &prefix) && full.len() > prefix.len() {
        let rest = slice_chars(&full, prefix.len(), full.len());
        assert(rest@ =~= full@.skip("origin/"@.len() as int));
        return Some(string_of(&rest));
    }
    if full.len() > 0 {
        Some(string_of(&full))
    } else {
        None
    }
}

/// The arguments that ask whether the local branch `name` exists.
pub open spec fn branch_exists_args(name: Seq<char>) -> Seq<Seq<char>> {
    git_prefix() + seq!["rev-parse"@, "--verify"@, "--quiet"@, "refs/heads/"@ + name]
}

pub fn local_branch_exists_command(name: &str) -> (i: Invocation)
    ensures
        i.tool == Tool::Git,
        invocation_args(i) == branch_exists_args(name@),
{
    let mut r = String::from_str("refs/heads/");
    r.append(name);
    let mut a = strings_of(&["rev-parse", "--verify", "--quiet"]);
    let ghost before = a@;
    a.push(r);
    assert(strings_view(a@) =~= strings_view(before).push(("refs/heads/"@ + name@)));
    let i = git_invocation(a);
    assert(invocation_args(i) =~= branch_exists_args(name@));
    i
}

/// Whether a command that only reports by its status succeeded; a command that
/// could not be started counts as a failure.
pub open spec fn status_ok(oc: CommandOutcome) -> bool {
    match oc {
        CommandOutcome::Finished(o) => succeeded(o),
        _ => false,
    }
}

fn outcome_ok(oc: &CommandOutcome) -> (b: bool)
    ensures
        b == status_ok(*oc),
{
    match oc {
        CommandOutcome::Finished(o) => o.success(),
        _ => false,
    }
}

/// Whether a local branch with the given name exists.
pub fn local_branch_exists(oc: &CommandOutcome) -> (b: bool)
    ensures
        b == status_ok(*oc),
{
    outcome_ok(oc)
}

/// `base..HEAD`.
pub open spec fn range_of(base: Seq<char>) -> Seq<char> {
    base + "..HEAD"@
}

fn range(base: &str) -> (r: String)
    ensures
        r@ == range_of(base@),
{
    let mut r = String::from_str(base);
    r.append("..HEAD");
    r
}

fn with_last(parts: &[&str], last: String) -> (r: Vec<String>)
    ensures
        strings_view(r@) == parts@.map_values(|p: &str| p@).push(last@),
{
    let mut a = strings_of(parts);
    let ghost before = a@;
    a.push(last);
    assert(strings_view(a@) =~= strings_view(before).push(last@));
    a
}

/// The arguments of `git merge-base HEAD <trunk>`.
pub open spec fn merge_base_args(trunk: Seq<char>) -> Seq<Seq<char>> {
    git_prefix() + seq!["merge-base"@, "HEAD"@, trunk]
}

pub fn merge_base_command(trunk: &str) -> (i: Invocation)
    ensures
        i.tool == Tool::Git,
        invocation_args(i) == merge_base_args(trunk@),
{
    let i = git_invocation(with_last(&["merge-base", "HEAD"], String::from_str(trunk)));
    assert(invocation_args(i) =~= merge_base_args(trunk@));
    i
}

/// The merge-base: the trimmed stdout of a successful `git merge-base`.
pub open spec fn merge_base_result(oc: CommandOutcome) -> Result<Seq<char>, ErrorView> {
    match git_stdout(oc) {
        Ok(s) => Ok(trim(s)),
        Err(e) => Err(e),
    }
}

/// The merge-base commit between HEAD and the trunk.
pub fn merge_base(oc: &CommandOutcome) -> (r: Result<String, SenditError>)
    ensures
        text_result(r) == merge_base_result(*oc),
{
    let out = run_git(oc)?;
    Ok(string_of(&trim_chars(&chars_of(out.as_str()))))
}

/// The arguments of `git rev-list --count <base>..HEAD`.
pub open spec fn commits_ahead_args(base: Seq<char>) -> Seq<Seq<char>> {
    git_prefix() + seq!["rev-list"@, "--count"@, range_of(base)]
}

pub fn commits_ahead_command(base: &str) -> (i: Invocation)
    ensures
        i.tool == Tool::Git,
        invocation_args(i) == commits_ahead_args(base@),
{
    let i = git_invocation(with_last(&["rev-list", "--count"], range(base)));
    assert(invocation_args(i) =~= commits_ahead_args(base@));
    i
}

/// The count `rev-list --count` printed, or `GitFailed` naming why it could not
/// be read as a `u32`.
pub open spec fn commits_ahead_result(oc: CommandOutcome) -> Result<u32, ErrorView> {
    match git_stdout(oc) {
        Err(e) => Err(e),
        Ok(s) => match parse_unsigned(trim(s), u32::MAX as nat) {
            Some(n) => Ok(n as u32),
            None => Err(
                ErrorView::GitFailed(
                    "unexpected rev-list output: "@ + int_error_text(
                        parse_error_kind(trim(s), u32::MAX as nat),
                    ),
                ),
            ),
        },
    }
}

/// Number of commits on HEAD that are not reachable from the base.
pub fn commits_ahead(oc: &CommandOutcome) -> (r: Result<u32, SenditError>)
    ensures
        match commits_ahead_result(*oc) {
            Ok(n) => r == Ok::<u32, SenditError>(n),
            Err(e) => r matches Err(x) && x@ == e,
        },
{
    let out = run_git(oc)?;
    let t = trim_chars(&chars_of(out.as_str()));
    match parse_unsigned_chars(&t, 0xffff_ffff) {
        Ok(n) => Ok(n as u32),
        Err(k) => {
            let mut m = String::from_str("unexpected rev-list output: ");
            m.append(int_error_message(k).as_str());
            Err(SenditError::GitFailed(m))
        },
    }
}

/// The arguments that ask for the current branch's upstream.
pub open spec fn upstream_args() -> Seq<Seq<char>> {
    git_prefix() + seq!["rev-parse"@, "--abbrev-ref"@, "--symbolic-full-name"@, "@{u}"@]
}

pub fn has_upstream_command() -> (i: Invocation)
    ensures
        i.tool == Tool::Git,
        invocation_args(i) == upstream_args(),
{
    let i = git_invocation(
        strings_of(&["rev-parse", "--abbrev-ref", "--symbolic-full-name", "@{u}"]),
    );
    assert(invocation_args(i) =~= upstream_args());
    i
}

/// Whether the current branch has a configured upstream tracking branch.
pub fn has_upstream(oc: &CommandOutcome) -> (b: bool)
    ensures
        b == status_ok(*oc),
{
    outcome_ok(oc)
}

/// The arguments of `git log --format=%h %s <base>..HEAD`.
pub open spec fn commit_log_args(base: Seq<char>) -> Seq<Seq<char>> {
    git_prefix() + seq!["log"@, "--format=%h %s"@, range_of(base)]
}

pub fn commit_log_command(base: &str) -> (i: Invocation)
    ensures
        i.tool == Tool::Git,
        invocation_args(i) == commit_log_args(base@),
{
    let i = git_invocation(with_last(&["log", "--format=%h %s"], range(base)));
    assert(invocation_args(i) =~= commit_log_args(base@));
    i
}

/// Commit log (hash + subject) for `base..HEAD`, newest first.
pub fn commit_log(oc: &CommandOutcome) -> (r: Result<Vec<CommitEntry>, SenditError>)
    ensures
        match git_stdout(*oc) {
            Ok(s) => r matches Ok(log) && commits_view(log@) == commit_log_of(s),
            Err(e) => r matches Err(x) && x@ == e,
        },
{
    let out = run_git(oc)?;
    Ok(parse_commit_log(out.as_str()))
}

/// The arguments of `git diff --stat <base>..HEAD`.
pub open spec fn diff_stat_args(base: Seq<char>) -> Seq<Seq<char>> {
    git_prefix() + seq!["diff"@, "--stat"@, range_of(base)]
}

/// The arguments of `git diff --shortstat <base>..HEAD`.
pub open spec fn diff_shortstat_args(base: Seq<char>) -> Seq<Seq<char>> {
    git_prefix() + seq!["diff"@, "--shortstat"@, range_of(base)]
}

pub fn diff_stat_command(base: &str) -> (i: Invocation)
    ensures
        i.tool == Tool::Git,
        invocation_args(i) == diff_stat_args(base@),
{
    let i = git_invocation(with_last(&["diff", "--stat"], range(base)));
    assert(invocation_args(i) =~= diff_stat_args(base@));
    i
}

pub fn diff_shortstat_command(base: &str) -> (i: Invocation)
    ensures
        i.tool == Tool::Git,
        invocation_args(i) == diff_shortstat_args(base@),
{
    let i = git_invocation(with_last(&["diff", "--shortstat"], range(base)));
    assert(invocation_args(i) =~= diff_shortstat_args(base@));
    i
}

/// The diff statistics that the `--stat` and `--shortstat` outputs describe.
pub open spec fn diffstat_of(raw: Seq<char>, short: Seq<char>) -> DiffStatView {
    let (f, i, d) = shortstat_of(short);
    DiffStatView { files: f, insertions: i, deletions: d, raw: trim_end(raw) }
}

/// Diff statistics from the `--stat` display block and the `--shortstat` line.
pub fn diffstat(raw: &str, short: &str) -> (d: DiffStat)
    ensures
        d@ == diffstat_of(raw@, short@),
{
    let (files, insertions, deletions) = parse_shortstat(short);
    DiffStat { files, insertions, deletions, raw: string_of(&trim_end_chars(&chars_of(raw))) }
}

/// The arguments that push the current branch: `push -u origin <branch>` when
/// it has no upstream yet, plain `push` otherwise. Never a force push, never
/// another branch.
pub open spec fn push_args(branch: Seq<char>, set_upstream: bool) -> Seq<Seq<char>> {
    if set_upstream {
        git_prefix() + seq!["push"@, "-u"@, "origin"@, branch]
    } else {
        git_prefix() + seq!["push"@]
    }
}

pub fn push_command(branch: &str, set_upstream: bool) -> (i: Invocation)
    ensures
        i.tool == Tool::Git,
        invocation_args(i) == push_args(branch@, set_upstream),
{
    let i = if set_upstream {
        git_invocation(with_last(&["push", "-u", "origin"], String::from_str(branch)))
    } else {
        git_invocation(strings_of(&["push"]))
    };
    assert(invocation_args(i) =~= push_args(branch@, set_upstream));
    i
}

/// How a push went: `GitFailed` with the trimmed stderr unless git succeeded.
pub open spec fn push_result(oc: CommandOutcome) -> Result<(), ErrorView> {
    match git_spawn(oc) {
        Err(e) => Err(e),
        Ok(o) => if succeeded(o) {
            Ok(())
        } else {
            Err(ErrorView::GitFailed(trim(stderr_text(o))))
        },
    }
}

/// Push the current branch, setting upstream when none is configured.
///
/// Never force-pushes and never targets a branch other than the current one.
pub fn push(oc: &CommandOutcome) -> (r: Result<(), SenditError>)
    ensures
        match push_result(*oc) {
            Ok(()) => r is Ok,
            Err(e) => r matches Err(x) && x@ == e,
        },
{
    let o = git_output(oc)?;
    if !o.success() {
        return Err(SenditError::GitFailed(trimmed_stderr(o)));
    }
    Ok(())
}

// ---------------------------------------------------------------------------
// What parsing a `--shortstat` line gives back.

/// A count's part of a `--shortstat` line: a space, the count and its words.
pub open spec fn stat_part(n: u32, words_after: Seq<char>) -> Seq<char> {
    seq![' '] + decimal(n as nat) + words_after
}

/// The words after a count in a `--shortstat` line, singular for one.
pub open spec fn files_words(n: u32) -> Seq<char> {
    if n == 1 {
        " file changed"@
    } else {
        " files changed"@
    }
}

pub open spec fn insertions_words(n: u32) -> Seq<char> {
    if n == 1 {
        " insertion(+)"@
    } else {
        " insertions(+)"@
    }
}

pub open spec fn deletions_words(n: u32) -> Seq<char> {
    if n == 1 {
        " deletion(-)"@
    } else {
        " deletions(-)"@
    }
}

/// A `--shortstat` line: the files part, then the insertions part when
/// `with_ins`, then the deletions part when `with_del` (each after a comma),
/// then `end`.
pub open spec fn stat_line(
    files: u32,
    ins: u32,
    del: u32,
    with_ins: bool,
    with_del: bool,
    end: Seq<char>,
) -> Seq<char> {
    stat_part(files, files_words(files)) + (if with_ins {
        seq![','] + stat_part(ins, insertions_words(ins))
    } else {
        Seq::empty()
    }) + (if with_del {
        seq![','] + stat_part(del, deletions_words(del))
    } else {
        Seq::empty()
    }) + end
}

/// The line `git diff --shortstat` prints (git's `print_stat_summary`):
/// ` 0 files changed` when no file changed; otherwise the files, then the
/// insertions unless only deletions happened, then the deletions unless only
/// insertions happened, each word singular for one; and a newline.
pub open spec fn shortstat_line(files: u32, ins: u32, del: u32) -> Seq<char> {
    if files == 0 {
        stat_line(0, 0, 0, false, false, "\n"@)
    } else {
        stat_line(files, ins, del, ins > 0 || del == 0, del > 0 || ins == 0, "\n"@)
    }
}

/// What a part of the line says, once trimmed and read.
proof fn lemma_stat_part(n: u32, w: Seq<char>, tail: Seq<char>)
    requires
        w.len() > 0,
        w[0] == ' ',
        !is_ws(w.last()),
        tail == Seq::<char>::empty() || tail == seq!['\n'],
    ensures
        trim(stat_part(n, w) + tail) == decimal(n as nat) + w,
        words(decimal(n as nat) + w).len() > 0,
        words(decimal(n as nat) + w)[0] == decimal(n as nat),
        parse_unsigned(decimal(n as nat), u32::MAX as nat) == Some(n as nat),
{
    let d = decimal(n as nat);
    lemma_decimal_digits(n as nat);
    lemma_parse_decimal(n as nat, u32::MAX as nat);
    assert(is_ws(' '));
    assert forall|i: int| 0 <= i < d.len() implies !is_ws(#[trigger] d[i]) by {
        assert(is_digit(d[i]));
    }
    let part = stat_part(n, w) + tail;
    let inner = d + w + tail;
    assert(part[0] == ' ');
    assert(part.drop_first() =~= inner);
    assert(inner[0] == d[0]);
    assert(!is_ws(inner[0]));
    assert(trim_start(inner) == inner);
    assert(trim_start(part) == inner);
    assert((d + w).last() == w.last());
    if tail.len() > 0 {
        assert(inner.drop_last() =~= d + w);
        assert(inner.last() == '\n');
        assert(is_ws('\n'));
        assert(trim_end(inner) == trim_end(d + w));
    } else {
        assert(inner =~= d + w);
    }
    assert(trim_end(d + w) == d + w);
    lemma_first_word(d, w);
}

/// Digits followed by `w` do not hold `pat`, when `w` lacks `pat[q]`, not a digit.
proof fn lemma_digits_then_lacks(n: u32, w: Seq<char>, pat: Seq<char>, q: int)
    requires
        0 <= q < pat.len(),
        !is_digit(pat[q]),
        lacks(w, pat[q]),
    ensures
        !has_substr(decimal(n as nat) + w, pat),
{
    let d = decimal(n as nat);
    lemma_decimal_digits(n as nat);
    lemma_lacks(w, pat[q]);
    let s = d + w;
    let k = d.len() as int;
    assert forall|i: int| 0 <= i < s.len() implies #[trigger] s[i] != pat[q] by {
        if i < k {
            assert(is_digit(d[i]));
        } else {
            assert(s[i] == w[i - k]);
        }
    }
    lemma_no_substr(s, pat, q);
}

/// Digits followed by `w` hold `pat` when `w` holds it right after its first character.
proof fn lemma_digits_then_has(n: u32, w: Seq<char>, pat: Seq<char>)
    requires
        1 + pat.len() <= w.len(),
        w.subrange(1, 1 + pat.len() as int) == pat,
    ensures
        has_substr(decimal(n as nat) + w, pat),
{
    let d = decimal(n as nat);
    let s = d + w;
    let k = d.len() as int;
    assert(s.subrange(k + 1, k + 1 + pat.len()) =~= w.subrange(1, 1 + pat.len() as int));
    lemma_substr_at(s, pat, k + 1);
}

/// The files part holds "file".
proof fn lemma_kind_files(n: u32, w: Seq<char>)
    requires
        w == " file changed"@ || w == " files changed"@,
    ensures
        has_substr(decimal(n as nat) + w, "file"@),
{
    reveal_strlit(" file changed");
    reveal_strlit(" files changed");
    reveal_strlit("file");
    if w == " file changed"@ {
        assert(w.subrange(1, 5) =~= "file"@);
    } else {
        assert(w.subrange(1, 5) =~= "file"@);
    }
    lemma_digits_then_has(n, w, "file"@);
}

/// The insertions part holds "insertion" and not "file".
proof fn lemma_kind_insertions(n: u32, w: Seq<char>)
    requires
        w == " insertion(+)"@ || w == " insertions(+)"@,
    ensures
        !has_substr(decimal(n as nat) + w, "file"@),
        has_substr(decimal(n as nat) + w, "insertion"@),
{
    reveal_strlit(" insertion(+)");
    reveal_strlit(" insertions(+)");
    reveal_strlit("file");
    reveal_strlit("insertion");
    reveal_with_fuel(lacks, 16);
    assert(!is_digit('f'));
    if w == " insertion(+)"@ {
        assert(lacks(w, 'f'));
        assert(w.subrange(1, 10) =~= "insertion"@);
    } else {
        assert(lacks(w, 'f'));
        assert(w.subrange(1, 10) =~= "insertion"@);
    }
    lemma_digits_then_lacks(n, w, "file"@, 0);
    lemma_digits_then_has(n, w, "insertion"@);
}

/// The deletions part holds "deletion" and neither "file" nor "insertion".
proof fn lemma_kind_deletions(n: u32, w: Seq<char>)
    requires
        w == " deletion(-)"@ || w == " deletions(-)"@,
    ensures
        !has_substr(decimal(n as nat) + w, "file"@),
        !has_substr(decimal(n as nat) + w, "insertion"@),
        has_substr(decimal(n as nat) + w, "deletion"@),
{
    reveal_strlit(" deletion(-)");
    reveal_strlit(" deletions(-)");
    reveal_strlit("file");
    reveal_strlit("insertion");
    reveal_strlit("deletion");
    reveal_with_fuel(lacks, 16);
    assert(!is_digit('f'));
    assert(!is_digit('r'));
    assert("insertion"@[4] == 'r');
    if w == " deletion(-)"@ {
        assert(lacks(w, 'f'));
        assert(lacks(w, 'r'));
        assert(w.subrange(1, 9) =~= "deletion"@);
    } else {
        assert(lacks(w, 'f'));
        assert(lacks(w, 'r'));
        assert(w.subrange(1, 9) =~= "deletion"@);
    }
    lemma_digits_then_lacks(n, w, "file"@, 0);
    lemma_digits_then_lacks(n, w, "insertion"@, 4);
    lemma_digits_then_has(n, w, "deletion"@);
}

/// A part has no comma.
proof fn lemma_part_no_comma(n: u32, w: Seq<char>, tail: Seq<char>)
    requires
        lacks(w, ','),
        tail == Seq::<char>::empty() || tail == seq!['\n'],
    ensures
        split(stat_part(n, w) + tail, ',') == seq![stat_part(n, w) + tail],
{
    let d = decimal(n as nat);
    lemma_decimal_digits(n as nat);
    lemma_lacks(w, ',');
    let part = stat_part(n, w) + tail;
    assert forall|j: int| 0 <= j < part.len() implies #[trigger] part[j] != ',' by {
        if 1 <= j < 1 + d.len() {
            assert(part[j] == d[j - 1]);
            assert(is_digit(d[j - 1]));
        } else if 1 + d.len() <= j < 1 + d.len() + w.len() {
            assert(part[j] == w[j - 1 - d.len()]);
        }
    }
    lemma_split_no_sep(part, ',');
}

/// The files part read into the counts.
proof fn lemma_apply_files(n: u32, w: Seq<char>, tail: Seq<char>, acc: (u32, u32, u32))
    requires
        w == " file changed"@ || w == " files changed"@,
        tail == Seq::<char>::empty() || tail == seq!['\n'],
    ensures
        shortstat_apply(stat_part(n, w) + tail, acc) == (n, acc.1, acc.2),
        split(stat_part(n, w) + tail, ',') == seq![stat_part(n, w) + tail],
{
    reveal_strlit(" file changed");
    reveal_strlit(" files changed");
    reveal_with_fuel(lacks, 16);
    assert(lacks(w, ','));
    lemma_part_no_comma(n, w, tail);
    lemma_stat_part(n, w, tail);
    lemma_kind_files(n, w);
}

/// The insertions part read into the counts.
proof fn lemma_apply_insertions(n: u32, w: Seq<char>, tail: Seq<char>, acc: (u32, u32, u32))
    requires
        w == " insertion(+)"@ || w == " insertions(+)"@,
        tail == Seq::<char>::empty() || tail == seq!['\n'],
    ensures
        shortstat_apply(stat_part(n, w) + tail, acc) == (acc.0, n, acc.2),
        split(stat_part(n, w) + tail, ',') == seq![stat_part(n, w) + tail],
{
    reveal_strlit(" insertion(+)");
    reveal_strlit(" insertions(+)");
    reveal_with_fuel(lacks, 16);
    assert(lacks(w, ','));
    lemma_part_no_comma(n, w, tail);
    lemma_stat_part(n, w, tail);
    lemma_kind_insertions(n, w);
}

/// The deletions part read into the counts.
proof fn lemma_apply_deletions(n: u32, w: Seq<char>, tail: Seq<char>, acc: (u32, u32, u32))
    requires
        w == " deletion(-)"@ || w == " deletions(-)"@,
        tail == Seq::<char>::empty() || tail == seq!['\n'],
    ensures
        shortstat_apply(stat_part(n, w) + tail, acc) == (acc.0, acc.1, n),
        split(stat_part(n, w) + tail, ',') == seq![stat_part(n, w) + tail],
{
    reveal_strlit(" deletion(-)");
    reveal_strlit(" deletions(-)");
    reveal_with_fuel(lacks, 16);
    assert(lacks(w, ','));
    lemma_part_no_comma(n, w, tail);
    lemma_stat_part(n, w, tail);
    lemma_kind_deletions(n, w);
}

/// A `--shortstat` line in any of its forms (any parts left out have a zero
/// count), with or without its final newline, reads back as its counts.
pub proof fn lemma_stat_line_round_trip(
    files: u32,
    ins: u32,
    del: u32,
    with_ins: bool,
    with_del: bool,
    end: Seq<char>,
)
    requires
        !with_ins ==> ins == 0,
        !with_del ==> del == 0,
        end == Seq::<char>::empty() || end == seq!['\n'],
    ensures
        shortstat_of(stat_line(files, ins, del, with_ins, with_del, end)) == (files, ins, del),
{
    let e = Seq::<char>::empty();
    let wf = files_words(files);
    let wi = insertions_words(ins);
    let wd = deletions_words(del);
    let pf = stat_part(files, wf);
    let pi = stat_part(ins, wi);
    let pd = stat_part(del, wd);
    let z = (0u32, 0u32, 0u32);
    let text = stat_line(files, ins, del, with_ins, with_del, end);
    assert(pf + e =~= pf);
    assert(pi + e =~= pi);
    assert(shortstat_of_parts(Seq::<Seq<char>>::empty()) == z);
    assert(seq![pf].drop_last() =~= Seq::<Seq<char>>::empty());
    assert(seq![pf].last() == pf);
    if with_ins && with_del {
        let line = pf + seq![','] + pi + seq![','] + (pd + end);
        assert(text =~= line);
        lemma_apply_files(files, wf, e, z);
        lemma_apply_insertions(ins, wi, e, (files, 0u32, 0u32));
        lemma_apply_deletions(del, wd, end, (files, ins, 0u32));
        lemma_split_concat(pf + seq![','] + pi, pd + end, ',');
        lemma_split_concat(pf, pi, ',');
        let ps = seq![pf, pi, pd + end];
        assert(split(line, ',') =~= ps);
        assert(ps.drop_last() =~= seq![pf, pi]);
        assert(ps.drop_last().drop_last() =~= seq![pf]);
        assert(shortstat_apply(pf, z) == (files, 0u32, 0u32));
        assert(shortstat_of_parts(seq![pf]) == (files, 0u32, 0u32));
        assert(shortstat_of_parts(seq![pf, pi]) == (files, ins, 0u32));
    } else if with_ins {
        let line = pf + seq![','] + (pi + end);
        assert(text =~= line);
        lemma_apply_files(files, wf, e, z);
        lemma_apply_insertions(ins, wi, end, (files, 0u32, 0u32));
        lemma_split_concat(pf, pi + end, ',');
        let ps = seq![pf, pi + end];
        assert(split(line, ',') =~= ps);
        assert(ps.drop_last() =~= seq![pf]);
        assert(shortstat_apply(pf, z) == (files, 0u32, 0u32));
        assert(shortstat_of_parts(seq![pf]) == (files, 0u32, 0u32));
    } else if with_del {
        let line = pf + seq![','] + (pd + end);
        assert(text =~= line);
        lemma_apply_files(files, wf, e, z);
        lemma_apply_deletions(del, wd, end, (files, 0u32, 0u32));
        lemma_split_concat(pf, pd + end, ',');
        let ps = seq![pf, pd + end];
        assert(split(line, ',') =~= ps);
        assert(ps.drop_last() =~= seq![pf]);
        assert(shortstat_apply(pf, z) == (files, 0u32, 0u32));
        assert(shortstat_of_parts(seq![pf]) == (files, 0u32, 0u32));
    } else {
        let line = pf + end;
        assert(text =~= line);
        lemma_apply_files(files, wf, end, z);
        let ps = seq![pf + end];
        assert(ps.drop_last() =~= Seq::<Seq<char>>::empty());
        assert(ps.last() == pf + end);
    }
}

/// Every line `git diff --shortstat` prints reads back as the counts it
/// was printed from, in all its forms (one or several files, insertions only,
/// deletions only, both, neither), with or without its final newline.
pub proof fn lemma_shortstat_round_trip(files: u32, ins: u32, del: u32)
    requires
        files > 0 || (ins == 0 && del == 0),
    ensures
        shortstat_of(shortstat_line(files, ins, del)) == (files, ins, del),
        shortstat_of(shortstat_line(files, ins, del).drop_last()) == (files, ins, del),
{
    reveal_strlit("\n");
    let nl = seq!['\n'];
    assert("\n"@ =~= nl);
    let (wi, wd) = if files == 0 {
        (false, false)
    } else {
        (ins > 0 || del == 0, del > 0 || ins == 0)
    };
    lemma_stat_line_round_trip(files, ins, del, wi, wd, nl);
    lemma_stat_line_round_trip(files, ins, del, wi, wd, Seq::<char>::empty());
    let with_nl = stat_line(files, ins, del, wi, wd, nl);
    let bare = stat_line(files, ins, del, wi, wd, Seq::<char>::empty());
    assert(shortstat_line(files, ins, del) == with_nl);
    assert(with_nl.drop_last() =~= bare);
}

// ---------------------------------------------------------------------------
// What parsing `git log --format=%h %s` output gives back.

/// The line `--format=%h %s` prints for a commit.
pub open spec fn log_line(e: CommitView) -> Seq<char> {
    e.hash + seq![' '] + e.subject
}

/// What `git log --format=%h %s` prints for the commits, one line each.
pub open spec fn log_text(es: Seq<CommitView>) -> Seq<char>
    decreases es.len(),
{
    if es.len() == 0 {
        Seq::empty()
    } else {
        log_line(es[0]) + seq!['\n'] + log_text(es.drop_first())
    }
}

/// A commit as git prints it: an abbreviated hash without whitespace, and a
/// subject on one line (git folds a subject onto one line), not ending in `\r`.
pub open spec fn printable_commit(e: CommitView) -> bool {
    &&& e.hash.len() > 0
    &&& forall|i: int| 0 <= i < e.hash.len() ==> !is_ws(#[trigger] e.hash[i])
    &&& forall|i: int| 0 <= i < e.subject.len() ==> #[trigger] e.subject[i] != '\n'
    &&& (e.subject.len() == 0 || e.subject.last() != '\r')
}

proof fn lemma_log_split(es: Seq<CommitView>)
    requires
        forall|k: int| 0 <= k < es.len() ==> printable_commit(#[trigger] es[k]),
    ensures
        split(log_text(es), '\n') == es.map_values(|e: CommitView| log_line(e)) + seq![
            Seq::<char>::empty(),
        ],
    decreases es.len(),
{
    let e = Seq::<char>::empty();
    if es.len() == 0 {
        lemma_split_no_sep(e, '\n');
        assert(es.map_values(|c: CommitView| log_line(c)) =~= Seq::<Seq<char>>::empty());
    } else {
        let l = log_line(es[0]);
        assert(printable_commit(es[0]));
        assert(is_ws('\n'));
        assert forall|j: int| 0 <= j < l.len() implies #[trigger] l[j] != '\n' by {
            if j < es[0].hash.len() {
                assert(l[j] == es[0].hash[j]);
            } else if j > es[0].hash.len() {
                assert(l[j] == es[0].subject[j - es[0].hash.len() - 1]);
            }
        }
        lemma_split_no_sep(l, '\n');
        lemma_split_concat(l, log_text(es.drop_first()), '\n');
        assert forall|k: int| 0 <= k < es.drop_first().len() implies printable_commit(
            #[trigger] es.drop_first()[k],
        ) by {
            assert(es.drop_first()[k] == es[k + 1]);
        }
        lemma_log_split(es.drop_first());
        assert(es.map_values(|c: CommitView| log_line(c)) =~= seq![l] + es.drop_first().map_values(
            |c: CommitView| log_line(c),
        ));
    }
}

proof fn lemma_non_blank_all(ls: Seq<Seq<char>>)
    requires
        forall|k: int| 0 <= k < ls.len() ==> trim(#[trigger] ls[k]).len() > 0,
    ensures
        non_blank(ls) == ls,
    decreases ls.len(),
{
    if ls.len() > 0 {
        lemma_non_blank_all(ls.drop_last());
        assert(ls.drop_last().push(ls.last()) =~= ls);
    }
}

/// The line of a printable commit reads back as that commit.
proof fn lemma_entry_of_log_line(e: CommitView)
    requires
        printable_commit(e),
    ensures
        entry_of_line(log_line(e)) == e,
        strip_cr(log_line(e)) == log_line(e),
        trim(log_line(e)).len() > 0,
{
    let l = log_line(e);
    let h = e.hash.len() as int;
    assert(is_ws(' '));
    assert forall|j: int| 0 <= j < h implies !is_char(' ')(#[trigger] l[j]) by {
        assert(l[j] == e.hash[j]);
    }
    assert(l[h] == ' ');
    lemma_seg_len_at(l, is_char(' '), h);
    assert(l.take(h) =~= e.hash);
    assert(l.skip(h + 1) =~= e.subject);
    if e.subject.len() > 0 {
        assert(l.last() == e.subject.last());
    }
    assert(!is_ws(l[0]));
    assert(trim_start(l) == l);
    assert(!is_blank(l));
    if trim(l).len() == 0 {
        assert(trim_end(l).len() == 0);
        lemma_trim_end_nonblank(l);
    }
}

proof fn lemma_trim_end_nonblank(l: Seq<char>)
    requires
        !is_blank(l),
    ensures
        trim_end(l).len() > 0,
    decreases l.len(),
{
    let j = choose|j: int| 0 <= j < l.len() && !is_ws(#[trigger] l[j]);
    if is_ws(l.last()) {
        assert(j < l.len() - 1);
        assert(l.drop_last()[j] == l[j]);
        lemma_trim_end_nonblank(l.drop_last());
    }
}

/// The log that `git log --format=%h %s` prints for commits reads back as
/// exactly those commits, in the same order.
pub proof fn lemma_commit_log_round_trip(es: Seq<CommitView>)
    requires
        forall|k: int| 0 <= k < es.len() ==> printable_commit(#[trigger] es[k]),
    ensures
        commit_log_of(log_text(es)) == es,
{
    lemma_log_split(es);
    let t = log_text(es);
    let ls = lines(t);
    let parts = split(t, '\n');
    let mapped = es.map_values(|e: CommitView| log_line(e));
    assert(parts.drop_last() =~= mapped);
    assert(parts.last().len() == 0);
    assert forall|k: int| 0 <= k < es.len() implies #[trigger] ls[k] == log_line(es[k]) by {
        lemma_entry_of_log_line(es[k]);
    }
    assert(ls.len() == es.len());
    assert forall|k: int| 0 <= k < ls.len() implies trim(#[trigger] ls[k]).len() > 0 by {
        lemma_entry_of_log_line(es[k]);
    }
    lemma_non_blank_all(ls);
    assert forall|k: int| 0 <= k < es.len() implies #[trigger] commit_log_of(t)[k] == es[k] by {
        lemma_entry_of_log_line(es[k]);
    }
    assert(commit_log_of(t) =~= es);
}

} // verus!
