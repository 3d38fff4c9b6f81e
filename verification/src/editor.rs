use crate::context::{PrContext, PrContextView};
use crate::error::{ErrorView, SenditError};
use crate::git::CommitView;
use crate::text::{
    lemma_join_concat, lemma_join_split, lemma_lines_index, lemma_split_concat, lemma_split_no_sep,
    lemma_split_nonempty, lemma_trim_end_strip_cr, lemma_trim_strip_cr,
    split, strip_cr, is_ws,
    chars_of, decimal, decimal_chars, join, join_chars, lines, lines_chars, push_chars, string_of,
    strings_view, trim, trim_chars, trim_end, trim_end_chars, words,
    words_chars, chars_eq,
};
use vstd::prelude::*;

verus! {

/// Marker separating the editable region from the ignored context block.
/// Mirrors git's `commit --verbose` scissors line.
pub const SCISSORS: &'static str = "# ------------------------ >8 ------------------------";

/// A PR title and body extracted from editor output.
#[derive(Debug, Clone, PartialEq, Eq)]
pub struct ParsedPr {
    pub title: String,
    pub body: String,
}

/// A parsed PR, taken by the characters of its title and body.
pub struct ParsedView {
    pub title: Seq<char>,
    pub body: Seq<char>,
}

impl View for ParsedPr {
    type V = ParsedView;

    open spec fn view(&self) -> ParsedView {
        ParsedView { title: self.title@, body: self.body@ }
    }
}

// ---------------------------------------------------------------------------
// The template.

/// One `#   <hash> <subject>` line per commit.
pub open spec fn commit_block(log: Seq<CommitView>) -> Seq<char>
    decreases log.len(),
{
    if log.len() == 0 {
        Seq::empty()
    } else {
        commit_block(log.drop_last()) + "#   "@ + log.last().hash + " "@ + log.last().subject
            + "\n"@
    }
}

/// Each line commented out with `#   `.
pub open spec fn comment_block(ls: Seq<Seq<char>>) -> Seq<char>
    decreases ls.len(),
{
    if ls.len() == 0 {
        Seq::empty()
    } else {
        comment_block(ls.drop_last()) + "#   "@ + ls.last() + "\n"@
    }
}

/// The scissors line, the instructions and the branch line.
pub open spec fn notes_header(ctx: PrContextView) -> Seq<char> {
    SCISSORS@ + "\n"@ + "# Do not modify or remove the line above. Everything below it is ignored.\n"@
        + "# The first non-blank line above is the PR title; the rest is the body.\n"@
        + "# An empty title aborts (nothing is pushed or created).\n"@ + "#\n"@
        + "# Branch: "@ + ctx.branch + " -> "@ + ctx.trunk + "   |   Commits ahead: "@
        + decimal(ctx.commits_ahead as nat) + "\n"@
}

/// The commits, as comments, when there are any.
pub open spec fn commits_section(ctx: PrContextView) -> Seq<char> {
    if ctx.commit_log.len() > 0 {
        "#\n# Commits:\n"@ + commit_block(ctx.commit_log)
    } else {
        Seq::empty()
    }
}

/// The diff statistics, as comments, when there are any.
pub open spec fn stat_section(ctx: PrContextView) -> Seq<char> {
    if ctx.diffstat.raw.len() > 0 {
        "#\n# Diff stat:\n"@ + comment_block(lines(ctx.diffstat.raw))
    } else {
        Seq::empty()
    }
}

/// The part of the template from the scissors line on: instructions, then the
/// branch, the commits and the diff statistics as comments.
pub open spec fn template_notes(ctx: PrContextView) -> Seq<char> {
    notes_header(ctx) + commits_section(ctx) + stat_section(ctx)
}

/// The editor template: the seeded title, a blank line, the seeded body and a
/// blank line when there is one, then the notes.
pub open spec fn render_text(ctx: PrContextView, title: Seq<char>, body: Seq<char>) -> Seq<char> {
    title + "\n\n"@ + (if body.len() > 0 {
        body + "\n\n"@
    } else {
        Seq::empty()
    }) + template_notes(ctx)
}

fn push_str(s: &mut String, t: &str)
    ensures
        final(s)@ == old(s)@ + t@,
{
    s.append(t);
}

/// Render the editor template for a context, with no seeded title or body.
pub fn render_template(ctx: &PrContext) -> (s: String)
    ensures
        s@ == render_text(ctx@, Seq::empty(), Seq::empty()),
{
    proof {
        reveal_strlit("");
    }
    render(ctx, "", "")
}

fn push_header(s: &mut String, ctx: &PrContext)
    ensures
        final(s)@ == old(s)@ + notes_header(ctx@),
{
    push_str(s, SCISSORS);
    push_str(s, "\n");
    push_str(s, "# Do not modify or remove the line above. Everything below it is ignored.\n");
    push_str(s, "# The first non-blank line above is the PR title; the rest is the body.\n");
    push_str(s, "# An empty title aborts (nothing is pushed or created).\n");
    push_str(s, "#\n");
    push_str(s, "# Branch: ");
    push_str(s, ctx.branch.as_str());
    push_str(s, " -> ");
    push_str(s, ctx.trunk.as_str());
    push_str(s, "   |   Commits ahead: ");
    push_chars(s, &decimal_chars(ctx.commits_ahead as u64));
    push_str(s, "\n");
    assert(s@ =~= old(s)@ + notes_header(ctx@));
}

fn push_commits(s: &mut String, ctx: &PrContext)
    ensures
        final(s)@ == old(s)@ + commits_section(ctx@),
{
    if ctx.commit_log.len() > 0 {
        push_str(s, "#\n# Commits:\n");
        let ghost start = s@;
        let mut i: usize = 0;
        while i < ctx.commit_log.len()
            invariant
                i <= ctx.commit_log.len(),
                s@ == start + commit_block(ctx@.commit_log.take(i as int)),
                ctx@.commit_log == crate::git::commits_view(ctx.commit_log@),
            decreases ctx.commit_log.len() - i,
        {
            let c = &ctx.commit_log[i];
            push_str(s, "#   ");
            push_str(s, c.hash.as_str());
            push_str(s, " ");
            push_str(s, c.subject.as_str());
            push_str(s, "\n");
            assert(ctx@.commit_log.take(i + 1).drop_last() =~= ctx@.commit_log.take(i as int));
            assert(ctx@.commit_log.take(i + 1).last() == c@);
            assert(s@ =~= start + commit_block(ctx@.commit_log.take(i + 1)));
            i += 1;
        }
        assert(ctx@.commit_log.take(ctx.commit_log.len() as int) =~= ctx@.commit_log);
    }
    assert(s@ =~= old(s)@ + commits_section(ctx@));
}

fn push_stat(s: &mut String, ctx: &PrContext)
    ensures
        final(s)@ == old(s)@ + stat_section(ctx@),
{
    let raw = chars_of(ctx.diffstat.raw.as_str());
    if raw.len() > 0 {
        push_str(s, "#\n# Diff stat:\n");
        let ls = lines_chars(&raw);
        let ghost lv = lines(raw@);
        let ghost start = s@;
        let mut i: usize = 0;
        while i < ls.len()
            invariant
                i <= ls.len(),
                ls@.len() == lv.len(),
                forall|k: int| 0 <= k < ls@.len() ==> #[trigger] ls@[k]@ == lv[k],
                s@ == start + comment_block(lv.take(i as int)),
            decreases ls.len() - i,
        {
            push_str(s, "#   ");
            push_chars(s, &ls[i]);
            push_str(s, "\n");
            assert(lv.take(i + 1).drop_last() =~= lv.take(i as int));
            assert(lv.take(i + 1).last() == ls@[i as int]@);
            assert(s@ =~= start + comment_block(lv.take(i + 1)));
            i += 1;
        }
        assert(lv.take(ls.len() as int) =~= lv);
    }
    assert(s@ =~= old(s)@ + stat_section(ctx@));
}

/// Render the editor template for a context, seeded with a title and a body.
pub fn render(ctx: &PrContext, title_seed: &str, body_seed: &str) -> (s: String)
    ensures
        s@ == render_text(ctx@, title_seed@, body_seed@),
{
    let mut s = String::new();
    push_str(&mut s, title_seed);
    push_str(&mut s, "\n\n");
    let b = chars_of(body_seed);
    if b.len() > 0 {
        push_str(&mut s, body_seed);
        push_str(&mut s, "\n\n");
    }
    push_header(&mut s, ctx);
    push_commits(&mut s, ctx);
    push_stat(&mut s, ctx);
    assert(s@ =~= render_text(ctx@, title_seed@, body_seed@));
    s
}

// ---------------------------------------------------------------------------
// Reading the edited file back.

/// The index of the first scissors line, or the number of lines.
pub open spec fn scissors_index(ls: Seq<Seq<char>>) -> nat
    decreases ls.len(),
{
    if ls.len() == 0 || trim_end(ls[0]) == SCISSORS@ {
        0
    } else {
        1 + scissors_index(ls.drop_first())
    }
}

/// The index of the first line that is not blank, or the number of lines.
pub open spec fn first_nonblank(ls: Seq<Seq<char>>) -> nat
    decreases ls.len(),
{
    if ls.len() == 0 || trim(ls[0]).len() > 0 {
        0
    } else {
        1 + first_nonblank(ls.drop_first())
    }
}

/// The lines before the scissors line.
pub open spec fn editor_content(raw: Seq<char>) -> Seq<Seq<char>> {
    lines(raw).take(scissors_index(lines(raw)) as int)
}

/// The body made of the lines after the title: blank lines dropped at the
/// start, the rest joined with newlines, and trailing whitespace (which takes
/// the blank lines at the end with it) removed.
pub open spec fn body_of(rest: Seq<Seq<char>>) -> Seq<char> {
    trim_end(join(rest.skip(first_nonblank(rest) as int), "\n"@))
}

/// What the edited text says: the first non-blank line before the scissors,
/// trimmed, is the title; the lines after it, with the blank lines around them
/// trimmed, are the body (`body_of`); `EmptyTitle` when there is no such line.
pub open spec fn parsed_of(raw: Seq<char>) -> Result<ParsedView, ErrorView> {
    let c = editor_content(raw);
    let i = first_nonblank(c);
    if i >= c.len() {
        Err(ErrorView::EmptyTitle)
    } else {
        Ok(ParsedView { title: trim(c[i as int]), body: body_of(c.skip(i + 1int)) })
    }
}

proof fn lemma_index_at(ls: Seq<Seq<char>>, k: int, scissors: bool)
    requires
        0 <= k <= ls.len(),
        scissors ==> forall|j: int| 0 <= j < k ==> trim_end(#[trigger] ls[j]) != SCISSORS@,
        scissors ==> (k < ls.len() ==> trim_end(ls[k]) == SCISSORS@),
        !scissors ==> forall|j: int| 0 <= j < k ==> trim(#[trigger] ls[j]).len() == 0,
        !scissors ==> (k < ls.len() ==> trim(ls[k]).len() > 0),
    ensures
        scissors ==> scissors_index(ls) == k,
        !scissors ==> first_nonblank(ls) == k,
    decreases k,
{
    if k > 0 {
        lemma_index_at(ls.drop_first(), k - 1, scissors);
    }
}

/// Parse raw editor output into a title and body.
///
/// Everything from the scissors line onward is discarded. The first non-blank
/// remaining line is the title; the rest (with surrounding blank lines trimmed)
/// is the body. Returns `EmptyTitle` when no title line is present.
pub fn parse_editor_output(raw: &str) -> (r: Result<ParsedPr, SenditError>)
    ensures
        match parsed_of(raw@) {
            Ok(p) => r matches Ok(x) && x@ == p,
            Err(e) => r matches Err(x) && x@ == e,
        },
{
    let ls = lines_chars(&chars_of(raw));
    let ghost lv = lines(raw@);
    let sc = chars_of(SCISSORS);
    let mut k: usize = 0;
    while k < ls.len() && !chars_eq(&trim_end_chars(&ls[k]), &sc)
        invariant
            k <= ls.len(),
            ls@.len() == lv.len(),
            forall|j: int| 0 <= j < ls@.len() ==> #[trigger] ls@[j]@ == lv[j],
            sc@ == SCISSORS@,
            forall|j: int| 0 <= j < k ==> trim_end(#[trigger] lv[j]) != SCISSORS@,
        decreases ls.len() - k,
    {
        k += 1;
    }
    proof {
        lemma_index_at(lv, k as int, true);
    }
    let ghost c = lv.take(k as int);
    let mut i: usize = 0;
    while i < k && trim_chars(&ls[i]).len() == 0
        invariant
            i <= k <= ls.len(),
            ls@.len() == lv.len(),
            forall|j: int| 0 <= j < ls@.len() ==> #[trigger] ls@[j]@ == lv[j],
            c == lv.take(k as int),
            forall|j: int| 0 <= j < i ==> trim(#[trigger] c[j]).len() == 0,
        decreases k - i,
    {
        i += 1;
    }
    proof {
        lemma_index_at(c, i as int, false);
    }
    if i >= k {
        return Err(SenditError::EmptyTitle);
    }
    let title = string_of(&trim_chars(&ls[i]));
    let ghost after = c.skip(i + 1);
    let mut m: usize = i + 1;
    while m < k && trim_chars(&ls[m]).len() == 0
        invariant
            i + 1 <= m <= k <= ls.len(),
            ls@.len() == lv.len(),
            forall|q: int| 0 <= q < ls@.len() ==> #[trigger] ls@[q]@ == lv[q],
            c == lv.take(k as int),
            after == c.skip(i + 1),
            forall|q: int| 0 <= q < m - (i + 1) ==> trim(#[trigger] after[q]).len() == 0,
        decreases k - m,
    {
        assert(after[m - (i + 1)] == lv[m as int]);
        m += 1;
    }
    proof {
        if m < k {
            assert(after[m - (i + 1)] == lv[m as int]);
        }
        lemma_index_at(after, m - (i + 1), false);
        assert(after.skip(m - (i + 1)) =~= c.subrange(m as int, k as int));
    }
    let mut rest: Vec<Vec<char>> = Vec::new();
    let mut j: usize = m;
    while j < k
        invariant
            m <= j <= k <= ls.len(),
            ls@.len() == lv.len(),
            forall|q: int| 0 <= q < ls@.len() ==> #[trigger] ls@[q]@ == lv[q],
            c == lv.take(k as int),
            rest@.map_values(|p: Vec<char>| p@) == c.subrange(m as int, j as int),
        decreases k - j,
    {
        let ghost before = rest@;
        rest.push(ls[j].clone());
        assert(rest@.map_values(|p: Vec<char>| p@) =~= before.map_values(|p: Vec<char>| p@).push(
            lv[j as int],
        ));
        assert(c.subrange(m as int, j + 1) =~= c.subrange(m as int, j as int).push(lv[j as int]));
        j += 1;
    }
    let nl = chars_of("\n");
    let joined = join_chars(&rest, &nl);
    let body = trim_end_chars(&joined);
    Ok(ParsedPr { title, body: string_of(&body) })
}

/// `str::split_whitespace` on an `$EDITOR` value: the program (`vi` when there
/// is none) and its arguments.
pub open spec fn editor_command_of(editor: Seq<char>) -> (Seq<char>, Seq<Seq<char>>) {
    let w = words(editor);
    if w.len() > 0 {
        (w[0], w.skip(1))
    } else {
        ("vi"@, Seq::empty())
    }
}

/// Split a `$EDITOR` value into a program and its arguments.
///
/// `"code --wait"` becomes `("code", ["--wait"])`. An empty value falls back to `vi`.
pub fn split_editor_command(editor: &str) -> (r: (String, Vec<String>))
    ensures
        (r.0@, strings_view(r.1@)) == editor_command_of(editor@),
{
    let w = words_chars(&chars_of(editor));
    let ghost wv = words(editor@);
    if w.len() == 0 {
        let args: Vec<String> = Vec::new();
        assert(strings_view(args@) =~= Seq::<Seq<char>>::empty());
        return (String::from_str("vi"), args);
    }
    let program = string_of(&w[0]);
    let mut args: Vec<String> = Vec::new();
    let mut i: usize = 1;
    while i < w.len()
        invariant
            1 <= i <= w.len(),
            w@.len() == wv.len(),
            forall|k: int| 0 <= k < w@.len() ==> #[trigger] w@[k]@ == wv[k],
            strings_view(args@) == wv.subrange(1, i as int),
        decreases w.len() - i,
    {
        let ghost before = args@;
        args.push(string_of(&w[i]));
        assert(strings_view(args@) =~= strings_view(before).push(wv[i as int]));
        assert(wv.subrange(1, i + 1) =~= wv.subrange(1, i as int).push(wv[i as int]));
        i += 1;
    }
    assert(wv.subrange(1, w.len() as int) =~= wv.skip(1));
    (program, args)
}

/// The program and arguments that open the editor `editor` on the file at
/// `path`: the command split as `editor_command_of` says, the path last.
pub open spec fn editor_argv_of(editor: Seq<char>, path: Seq<char>) -> (Seq<char>, Seq<Seq<char>>) {
    (editor_command_of(editor).0, editor_command_of(editor).1.push(path))
}

/// The program to run and its arguments to open the editor on `path`.
pub fn editor_argv(editor: &str, path: &str) -> (r: (String, Vec<String>))
    ensures
        (r.0@, strings_view(r.1@)) == editor_argv_of(editor@, path@),
{
    let (program, mut args) = split_editor_command(editor);
    let ghost before = args@;
    args.push(String::from_str(path));
    assert(strings_view(args@) =~= strings_view(before).push(path@));
    (program, args)
}

/// How the editor's exit decides the edit: on success the edited file is read
/// back; otherwise the run fails with `EditorFailed`, naming the editor command.
pub open spec fn editor_exit(success: bool, editor: Seq<char>) -> Result<(), ErrorView> {
    if success {
        Ok(())
    } else {
        Err(ErrorView::EditorFailed(editor))
    }
}

/// What the editor's exit status means for the edit.
pub fn editor_status(success: bool, editor: &str) -> (r: Result<(), SenditError>)
    ensures
        match editor_exit(success, editor@) {
            Ok(()) => r is Ok,
            Err(e) => r matches Err(x) && x@ == e,
        },
{
    if success {
        Ok(())
    } else {
        Err(SenditError::EditorFailed(String::from_str(editor)))
    }
}

// ---------------------------------------------------------------------------
// What reading the template back gives.

/// A body line that comes back from the editor unchanged: it does not end in
/// `\r` (which reading would take as part of a `\r\n` line break) and it is not
/// the scissors line.
pub open spec fn body_piece_ok(p: Seq<char>) -> bool {
    strip_cr(p) == p && trim_end(p) != SCISSORS@
}

proof fn lemma_scissors_facts()
    ensures
        SCISSORS@.len() > 0,
        forall|j: int| 0 <= j < SCISSORS@.len() ==> #[trigger] SCISSORS@[j] != '\n',
        strip_cr(SCISSORS@) == SCISSORS@,
        trim_end(SCISSORS@) == SCISSORS@,
        trim_end(Seq::<char>::empty()) != SCISSORS@,
{
    reveal_strlit("# ------------------------ >8 ------------------------");
    assert(!is_ws(SCISSORS@.last()));
}

/// The notes start with the scissors line.
proof fn lemma_notes_start(ctx: PrContextView)
    ensures
        template_notes(ctx) == SCISSORS@ + seq!['\n'] + template_notes(ctx).skip(
            SCISSORS@.len() + 1int,
        ),
{
    reveal_strlit("\n");
    let n = template_notes(ctx);
    let k = SCISSORS@.len() as int;
    assert(n.take(k + 1) =~= SCISSORS@ + seq!['\n']);
    assert(n =~= n.take(k + 1) + n.skip(k + 1));
}

/// The pieces of a template before its scissors line, split at newlines.
pub open spec fn template_front(title: Seq<char>, body: Seq<char>) -> Seq<Seq<char>> {
    seq![title, Seq::<char>::empty()] + (if body.len() > 0 {
        split(body, '\n') + seq![Seq::<char>::empty()]
    } else {
        Seq::<Seq<char>>::empty()
    })
}

/// What is left of the notes after the scissors line and its newline.
spec fn notes_rest(ctx: PrContextView) -> Seq<char> {
    template_notes(ctx).skip(SCISSORS@.len() + 1int)
}

proof fn lemma_split_template_with_body(ctx: PrContextView, title: Seq<char>, body: Seq<char>)
    requires
        forall|j: int| 0 <= j < title.len() ==> #[trigger] title[j] != '\n',
        body.len() > 0,
    ensures
        split(render_text(ctx, title, body), '\n') == template_front(title, body) + (seq![SCISSORS@]
            + split(notes_rest(ctx), '\n')),
{
    reveal_strlit("\n\n");
    lemma_scissors_facts();
    lemma_notes_start(ctx);
    let nl = seq!['\n'];
    let e = Seq::<char>::empty();
    let rest = notes_rest(ctx);
    let text = render_text(ctx, title, body);
    lemma_split_no_sep(title, '\n');
    lemma_split_no_sep(e, '\n');
    lemma_split_no_sep(SCISSORS@, '\n');
    lemma_split_concat(SCISSORS@, rest, '\n');
    let a4 = SCISSORS@ + nl + rest;
    let a3 = e + nl + a4;
    let a2 = body + nl + a3;
    let a1 = e + nl + a2;
    assert(text =~= title + nl + a1);
    lemma_split_concat(title, a1, '\n');
    lemma_split_concat(e, a2, '\n');
    lemma_split_concat(body, a3, '\n');
    lemma_split_concat(e, a4, '\n');
    assert(split(text, '\n') =~= template_front(title, body) + (seq![SCISSORS@] + split(
        rest,
        '\n',
    )));
}

proof fn lemma_split_template_no_body(ctx: PrContextView, title: Seq<char>)
    requires
        forall|j: int| 0 <= j < title.len() ==> #[trigger] title[j] != '\n',
    ensures
        split(render_text(ctx, title, Seq::empty()), '\n') == template_front(title, Seq::empty()) + (
        seq![SCISSORS@] + split(notes_rest(ctx), '\n')),
{
    reveal_strlit("\n\n");
    lemma_scissors_facts();
    lemma_notes_start(ctx);
    let nl = seq!['\n'];
    let e = Seq::<char>::empty();
    let rest = notes_rest(ctx);
    let text = render_text(ctx, title, e);
    lemma_split_no_sep(title, '\n');
    lemma_split_no_sep(e, '\n');
    lemma_split_no_sep(SCISSORS@, '\n');
    lemma_split_concat(SCISSORS@, rest, '\n');
    let a2 = SCISSORS@ + nl + rest;
    let a1 = e + nl + a2;
    assert(text =~= title + nl + a1);
    lemma_split_concat(title, a1, '\n');
    lemma_split_concat(e, a2, '\n');
    assert(split(text, '\n') =~= template_front(title, e) + (seq![SCISSORS@] + split(rest, '\n')));
}

/// What reading back a template gives, up to the lines before the scissors.
proof fn lemma_template_content(ctx: PrContextView, title: Seq<char>, body: Seq<char>)
    requires
        forall|j: int| 0 <= j < title.len() ==> #[trigger] title[j] != '\n',
        trim_end(title) != SCISSORS@,
        forall|i: int|
            0 <= i < split(body, '\n').len() ==> body_piece_ok(#[trigger] split(body, '\n')[i]),
    ensures
        editor_content(render_text(ctx, title, body)) == template_front(title, body).update(
            0,
            strip_cr(title),
        ),
{
    lemma_scissors_facts();
    let e = Seq::<char>::empty();
    let text = render_text(ctx, title, body);
    if body.len() > 0 {
        lemma_split_template_with_body(ctx, title, body);
    } else {
        assert(body =~= e);
        lemma_split_template_no_body(ctx, title);
    }
    let front = template_front(title, body);
    let parts = split(text, '\n');
    lemma_split_nonempty(notes_rest(ctx), '\n');
    let m = front.len() as int;
    let ls = lines(text);
    assert(parts[m] == SCISSORS@);
    assert forall|i: int| 0 <= i <= m implies i < ls.len() && #[trigger] ls[i] == strip_cr(
        parts[i],
    ) by {
        lemma_lines_index(text, i);
    }
    assert forall|j: int| 0 <= j < m implies trim_end(#[trigger] ls[j]) != SCISSORS@ by {
        lemma_trim_end_strip_cr(parts[j]);
        if 2 <= j < m - 1 {
            assert(parts[j] == split(body, '\n')[j - 2]);
        }
    }
    assert(trim_end(ls[m]) == SCISSORS@);
    proof_scissors_index(ls, m);
    assert forall|j: int| 0 <= j < m implies #[trigger] ls.take(m)[j] == front.update(
        0,
        strip_cr(title),
    )[j] by {
        if 2 <= j < m - 1 {
            assert(parts[j] == split(body, '\n')[j - 2]);
        }
    }
    assert(ls.take(m) =~= front.update(0, strip_cr(title)));
}

proof fn proof_scissors_index(ls: Seq<Seq<char>>, m: int)
    requires
        0 <= m < ls.len(),
        forall|j: int| 0 <= j < m ==> trim_end(#[trigger] ls[j]) != SCISSORS@,
        trim_end(ls[m]) == SCISSORS@,
    ensures
        scissors_index(ls) == m,
{
    lemma_index_at(ls, m, true);
}

/// A blank line before others adds one to the index of the first non-blank line.
proof fn lemma_first_nonblank_after_blank(b: Seq<char>, x: Seq<Seq<char>>)
    requires
        trim(b).len() == 0,
    ensures
        first_nonblank(seq![b] + x) == 1 + first_nonblank(x),
{
    assert((seq![b] + x).drop_first() =~= x);
}

proof fn lemma_first_nonblank_le(x: Seq<Seq<char>>)
    ensures
        first_nonblank(x) <= x.len(),
    decreases x.len(),
{
    if x.len() > 0 && trim(x[0]).len() == 0 {
        lemma_first_nonblank_le(x.drop_first());
    }
}

/// The first non-blank line of `x + y`: that of `x` when `x` has one,
/// otherwise after all of `x`.
proof fn lemma_first_nonblank_append(x: Seq<Seq<char>>, y: Seq<Seq<char>>)
    ensures
        first_nonblank(x) < x.len() ==> first_nonblank(x + y) == first_nonblank(x),
        first_nonblank(x) >= x.len() ==> first_nonblank(x + y) == x.len() + first_nonblank(y),
    decreases x.len(),
{
    if x.len() == 0 {
        assert(x + y =~= y);
    } else {
        assert((x + y)[0] == x[0]);
        if trim(x[0]).len() > 0 {
        } else {
            assert((x + y).drop_first() =~= x.drop_first() + y);
            lemma_first_nonblank_append(x.drop_first(), y);
        }
    }
}

proof fn lemma_trim_end_newline(x: Seq<char>)
    ensures
        trim_end(x + seq!['\n']) == trim_end(x),
{
    let y = x + seq!['\n'];
    assert(is_ws(y.last()));
    assert(y.drop_last() =~= x);
}

/// Blank lines at the end of a body are dropped with the final newline.
proof fn lemma_body_of_with_blank_ends(pieces: Seq<Seq<char>>)
    requires
        pieces.len() > 0,
    ensures
        body_of(seq![Seq::<char>::empty()] + pieces + seq![Seq::<char>::empty()]) == body_of(pieces),
{
    reveal_strlit("\n");
    let e = Seq::<char>::empty();
    let nl = seq!['\n'];
    assert("\n"@ =~= nl);
    assert(trim(e) =~= e);
    let tail = pieces + seq![e];
    let after = seq![e] + pieces + seq![e];
    assert(after =~= seq![e] + tail);
    lemma_first_nonblank_after_blank(e, tail);
    lemma_first_nonblank_append(pieces, seq![e]);
    lemma_first_nonblank_le(pieces);
    let f = first_nonblank(pieces) as int;
    if f < pieces.len() {
        let kept = pieces.skip(f);
        assert(after.skip(1 + f) =~= kept + seq![e]);
        lemma_join_concat(kept, seq![e], nl);
        assert(join(seq![e], nl) == e);
        assert(join(kept + seq![e], nl) =~= join(kept, nl) + nl);
        lemma_trim_end_newline(join(kept, nl));
    } else {
        lemma_first_nonblank_after_blank(e, Seq::<Seq<char>>::empty());
        assert(seq![e] + Seq::<Seq<char>>::empty() =~= seq![e]);
        assert(first_nonblank(Seq::<Seq<char>>::empty()) == 0);
        assert(first_nonblank(seq![e]) == 1);
        assert(after.skip(1 + f + 1) =~= Seq::<Seq<char>>::empty());
        assert(pieces.skip(f) =~= Seq::<Seq<char>>::empty());
    }
}

/// A template seeded with a one-line title that is not blank, and a body,
/// reads back, when the editor leaves it as it was, as that title (trimmed) and
/// that body with the blank lines around it trimmed (`body_of` its lines); so
/// a body that starts with a non-blank line and ends without trailing
/// whitespace comes back exactly. Left out are the bodies the round trip cannot
/// hold: a line that ends in `\r` (read as a `\r\n` break) or that is the
/// scissors line.
pub proof fn lemma_template_round_trip(ctx: PrContextView, title: Seq<char>, body: Seq<char>)
    requires
        forall|j: int| 0 <= j < title.len() ==> #[trigger] title[j] != '\n',
        trim(title).len() > 0,
        trim_end(title) != SCISSORS@,
        forall|i: int|
            0 <= i < split(body, '\n').len() ==> body_piece_ok(#[trigger] split(body, '\n')[i]),
    ensures
        parsed_of(render_text(ctx, title, body)) == Ok::<ParsedView, ErrorView>(
            ParsedView { title: trim(title), body: body_of(split(body, '\n')) },
        ),
        body.len() == 0 || (trim(split(body, '\n')[0]).len() > 0 && trim_end(body) == body)
            ==> body_of(split(body, '\n')) == body,
{
    reveal_strlit("\n");
    lemma_template_content(ctx, title, body);
    let e = Seq::<char>::empty();
    let c = editor_content(render_text(ctx, title, body));
    lemma_trim_strip_cr(title);
    assert(c[0] == strip_cr(title));
    assert(first_nonblank(c) == 0);
    let after = c.skip(1);
    let nl = seq!['\n'];
    assert("\n"@ =~= nl);
    let pieces = split(body, '\n');
    lemma_split_nonempty(body, '\n');
    assert(trim(c[0]) == trim(title));
    if body.len() > 0 {
        assert(after =~= seq![e] + pieces + seq![e]);
        lemma_body_of_with_blank_ends(pieces);
    } else {
        assert(after =~= seq![e]);
        assert(body =~= e);
        lemma_split_no_sep(e, '\n');
        assert(pieces =~= seq![e]);
    }
    assert(c.len() > 0);
    assert(parsed_of(render_text(ctx, title, body)) == Ok::<ParsedView, ErrorView>(
        ParsedView { title: trim(c[0]), body: body_of(after) },
    ));
    if body.len() == 0 {
        assert(trim(e) =~= e);
        lemma_first_nonblank_after_blank(e, Seq::<Seq<char>>::empty());
        assert(seq![e] + Seq::<Seq<char>>::empty() =~= seq![e]);
        assert(first_nonblank(Seq::<Seq<char>>::empty()) == 0);
        assert(first_nonblank(seq![e]) == 1);
        assert(seq![e].skip(1) =~= Seq::<Seq<char>>::empty());
    } else if trim(pieces[0]).len() > 0 && trim_end(body) == body {
        assert(first_nonblank(pieces) == 0);
        assert(pieces.skip(0) =~= pieces);
        lemma_join_split(body, '\n');
    }
}

/// A template that the user leaves as it was has no title, so reading it
/// back gives `EmptyTitle` (and nothing is pushed or created).
pub proof fn lemma_untouched_template_is_empty(ctx: PrContextView)
    ensures
        parsed_of(render_text(ctx, Seq::empty(), Seq::empty())) == Err::<ParsedView, ErrorView>(
            ErrorView::EmptyTitle,
        ),
{
    let e = Seq::<char>::empty();
    lemma_split_no_sep(e, '\n');
    lemma_scissors_facts();
    lemma_template_content(ctx, e, e);
    let c = editor_content(render_text(ctx, e, e));
    assert(c =~= seq![e, e]);
    assert(trim(e) =~= e);
    assert(c.drop_first() =~= seq![e]);
    assert(c.drop_first().drop_first() =~= Seq::<Seq<char>>::empty());
    assert(first_nonblank(c.drop_first().drop_first()) == 0);
    assert(first_nonblank(c.drop_first()) == 1);
    assert(first_nonblank(c) == 2);
}

/// The lines of a text up to a scissors piece depend only on its pieces so far.
proof fn lemma_content_from_pieces(t1: Seq<char>, t2: Seq<char>, m: int)
    requires
        0 <= m,
        m + 1 < split(t1, '\n').len(),
        m + 1 < split(t2, '\n').len(),
        split(t1, '\n').take(m + 1) == split(t2, '\n').take(m + 1),
        trim_end(split(t1, '\n')[m]) == SCISSORS@,
    ensures
        editor_content(t1) == editor_content(t2),
{
    let p1 = split(t1, '\n');
    let p2 = split(t2, '\n');
    let l1 = lines(t1);
    let l2 = lines(t2);
    assert forall|i: int| 0 <= i <= m implies i < l1.len() && i < l2.len() && #[trigger] l1[i]
        == l2[i] by {
        lemma_lines_index(t1, i);
        lemma_lines_index(t2, i);
        assert(p1[i] == p1.take(m + 1)[i]);
        assert(p2[i] == p2.take(m + 1)[i]);
    }
    lemma_trim_end_strip_cr(p1[m]);
    lemma_lines_index(t1, m);
    assert(trim_end(l1[m]) == SCISSORS@);
    lemma_scissors_index_le(l1, m);
    lemma_scissors_index_le(l2, m);
    lemma_scissors_index_prefix(l1, l2, m);
    let k = scissors_index(l1) as int;
    assert(l1.take(k) =~= l2.take(k));
}

proof fn lemma_scissors_index_le(ls: Seq<Seq<char>>, m: int)
    requires
        0 <= m < ls.len(),
        trim_end(ls[m]) == SCISSORS@,
    ensures
        scissors_index(ls) <= m,
    decreases m,
{
    if m > 0 && trim_end(ls[0]) != SCISSORS@ {
        assert(ls.drop_first()[m - 1] == ls[m]);
        lemma_scissors_index_le(ls.drop_first(), m - 1);
    }
}

proof fn lemma_scissors_index_prefix(a: Seq<Seq<char>>, b: Seq<Seq<char>>, m: int)
    requires
        0 <= m < a.len(),
        m < b.len(),
        forall|i: int| 0 <= i <= m ==> #[trigger] a[i] == b[i],
        scissors_index(a) <= m,
    ensures
        scissors_index(a) == scissors_index(b),
    decreases m,
{
    if trim_end(a[0]) != SCISSORS@ {
        assert forall|i: int| 0 <= i <= m - 1 implies #[trigger] a.drop_first()[i]
            == b.drop_first()[i] by {
            assert(a.drop_first()[i] == a[i + 1]);
            assert(b.drop_first()[i] == b[i + 1]);
        }
        lemma_scissors_index_prefix(a.drop_first(), b.drop_first(), m - 1);
    }
}

/// Everything from the scissors line on is discarded: whatever follows
/// it, the edited text reads the same.
pub proof fn lemma_scissors_discards_rest(before: Seq<char>, after1: Seq<char>, after2: Seq<char>)
    requires
        before.len() == 0 || before.last() == '\n',
    ensures
        parsed_of(before + SCISSORS@ + seq!['\n'] + after1) == parsed_of(
            before + SCISSORS@ + seq!['\n'] + after2,
        ),
{
    lemma_scissors_facts();
    lemma_split_no_sep(SCISSORS@, '\n');
    let nl = seq!['\n'];
    let t1 = before + SCISSORS@ + nl + after1;
    let t2 = before + SCISSORS@ + nl + after2;
    lemma_split_concat(SCISSORS@, after1, '\n');
    lemma_split_concat(SCISSORS@, after2, '\n');
    lemma_split_nonempty(after1, '\n');
    lemma_split_nonempty(after2, '\n');
    let head = if before.len() == 0 {
        assert(t1 =~= SCISSORS@ + nl + after1);
        assert(t2 =~= SCISSORS@ + nl + after2);
        Seq::<Seq<char>>::empty()
    } else {
        let b0 = before.drop_last();
        assert(t1 =~= b0 + nl + (SCISSORS@ + nl + after1));
        assert(t2 =~= b0 + nl + (SCISSORS@ + nl + after2));
        lemma_split_concat(b0, SCISSORS@ + nl + after1, '\n');
        lemma_split_concat(b0, SCISSORS@ + nl + after2, '\n');
        split(b0, '\n')
    };
    let m = head.len() as int;
    assert(split(t1, '\n') =~= head + (seq![SCISSORS@] + split(after1, '\n')));
    assert(split(t2, '\n') =~= head + (seq![SCISSORS@] + split(after2, '\n')));
    assert(split(t1, '\n').take(m + 1) =~= split(t2, '\n').take(m + 1));
    lemma_content_from_pieces(t1, t2, m);
}

/// The line of a commit in the editor template.
pub open spec fn commit_line(e: CommitView) -> Seq<char> {
    "#   "@ + e.hash + " "@ + e.subject + "\n"@
}

/// Each commit's block is the one before it with its line added, and the lines
/// are at least one character long.
proof fn lemma_block_grows(log: Seq<CommitView>, i: int, k: int)
    requires
        0 <= i <= k <= log.len(),
    ensures
        commit_block(log.take(k)).len() >= commit_block(log.take(i)).len() + (k - i),
        commit_block(log.take(k)).take(commit_block(log.take(i)).len() as int) == commit_block(
            log.take(i),
        ),
    decreases k - i,
{
    if k == i {
        assert(commit_block(log.take(k)).take(commit_block(log.take(k)).len() as int)
            =~= commit_block(log.take(k)));
    } else {
        lemma_block_grows(log, i, k - 1);
        let t = log.take(k);
        assert(t.drop_last() =~= log.take(k - 1));
        assert(t.last() == log[k - 1]);
        assert(t.len() > 0);
        assert(commit_block(t) == commit_block(log.take(k - 1)) + commit_line(log[k - 1]));
        let a = commit_block(log.take(k - 1));
        let n = commit_block(log.take(i)).len() as int;
        assert((a + commit_line(log[k - 1])).take(n) =~= a.take(n));
        reveal_strlit("\n");
        assert(commit_line(log[k - 1]).len() > 0);
    }
}

/// The template lists every commit of the context, in the log's order: the
/// line `#   <hash> <subject>` of each commit occurs in it, and each after the
/// line of the commit listed before it.
pub proof fn lemma_template_lists_commits(ctx: PrContextView, title: Seq<char>, body: Seq<char>)
    ensures
        exists|pos: Seq<int>|
            #![trigger pos.len()]
            pos.len() == ctx.commit_log.len() && (forall|i: int|
                0 <= i < pos.len() ==> 0 <= #[trigger] pos[i] && pos[i] + commit_line(
                    ctx.commit_log[i],
                ).len() <= render_text(ctx, title, body).len() && render_text(
                    ctx,
                    title,
                    body,
                ).subrange(pos[i], pos[i] + commit_line(ctx.commit_log[i]).len()) == commit_line(
                    ctx.commit_log[i],
                )) && (forall|i: int, j: int|
                0 <= i < j < pos.len() ==> #[trigger] pos[i] < #[trigger] pos[j]),
{
    let log = ctx.commit_log;
    let n = log.len() as int;
    let t = render_text(ctx, title, body);
    let block = commit_block(log);
    let front = title + "\n\n"@ + (if body.len() > 0 {
        body + "\n\n"@
    } else {
        Seq::empty()
    }) + notes_header(ctx) + "#\n# Commits:\n"@;
    let back = stat_section(ctx);
    let base = front.len() as int;
    assert(log.take(n) =~= log);
    if n > 0 {
        assert(t =~= front + block + back);
    }
    let pos = Seq::new(n as nat, |i: int| base + commit_block(log.take(i)).len());
    assert forall|i: int| 0 <= i < pos.len() implies 0 <= #[trigger] pos[i] && pos[i]
        + commit_line(log[i]).len() <= t.len() && t.subrange(
        pos[i],
        pos[i] + commit_line(log[i]).len(),
    ) == commit_line(log[i]) by {
        let a = commit_block(log.take(i));
        let l = commit_line(log[i]);
        assert(log.take(i + 1).drop_last() =~= log.take(i));
        assert(log.take(i + 1).last() == log[i]);
        assert(commit_block(log.take(i + 1)) == a + l);
        lemma_block_grows(log, i + 1, n);
        let ab = commit_block(log.take(i + 1));
        assert(block.take(ab.len() as int) == ab);
        assert(t =~= front + block + back);
        assert(t.subrange(base + a.len(), base + a.len() + l.len()) =~= ab.subrange(
            a.len() as int,
            ab.len() as int,
        ));
        assert(ab.subrange(a.len() as int, ab.len() as int) =~= l);
    }
    assert forall|i: int, j: int| 0 <= i < j < pos.len() implies #[trigger] pos[i]
        < #[trigger] pos[j] by {
        lemma_block_grows(log, i, j);
    }
    assert(pos.len() == ctx.commit_log.len());
}

} // verus!
