use crate::text::strings_view;
use vstd::prelude::*;
use vstd::utf8::{decode_utf8, valid_utf8};

verus! {

/// The external programs the library drives.
#[derive(Debug, Clone, Copy, PartialEq, Eq)]
pub enum Tool {
    Git,
    Gh,
}

/// A program to run and the arguments to run it with.
#[derive(Debug, Clone, PartialEq, Eq)]
pub struct Invocation {
    pub tool: Tool,
    pub args: Vec<String>,
}

/// What a finished program left behind: its exit code (`None` when a signal
/// ended it) and the bytes it wrote.
#[derive(Debug, Clone, PartialEq, Eq)]
pub struct CommandOutput {
    pub code: Option<i32>,
    pub stdout: Vec<u8>,
    pub stderr: Vec<u8>,
}

/// How an attempt to run a program ended.
#[derive(Debug, Clone, PartialEq, Eq)]
pub enum CommandOutcome {
    /// The program ran to completion.
    Finished(CommandOutput),
    /// The program was not found on `PATH`.
    NotFound,
    /// Starting the program failed for another reason; the error's text.
    SpawnFailed(String),
}

/// The characters that `String::from_utf8_lossy` decodes from `bytes`.
pub uninterp spec fn utf8_lossy(bytes: Seq<u8>) -> Seq<char>;

/// Decodes bytes as UTF-8, replacing each invalid sequence with U+FFFD, by
/// calling `String::from_utf8_lossy`. The contract claims that the result is a
/// function of the bytes (`utf8_lossy`) and, as that function's documentation
/// says, that valid UTF-8 decodes to the characters it encodes; how invalid
/// sequences are replaced is left unsaid.
#[verifier::external_body]
pub(crate) fn lossy_text(bytes: &Vec<u8>) -> (s: String)
    ensures
        s@ == utf8_lossy(bytes@),
        valid_utf8(bytes@) ==> s@ == decode_utf8(bytes@),
{
    String::from_utf8_lossy(bytes.as_slice()).into_owned()
}

/// The characters that bytes encode, when they are valid UTF-8, by calling
/// `std::str::from_utf8`, which accepts exactly the valid UTF-8 byte strings;
/// `None` otherwise.
#[verifier::external_body]
pub(crate) fn utf8_text(bytes: &Vec<u8>) -> (r: Option<String>)
    ensures
        r is Some <==> valid_utf8(bytes@),
        r is Some ==> r->0@ == decode_utf8(bytes@),
{
    match std::str::from_utf8(bytes.as_slice()) {
        Ok(s) => Some(s.to_string()),
        Err(_) => None,
    }
}

/// Whether the program exited with status zero (`ExitStatus::success`).
pub open spec fn succeeded(o: CommandOutput) -> bool {
    o.code == Some(0i32)
}

pub open spec fn stdout_text(o: CommandOutput) -> Seq<char> {
    utf8_lossy(o.stdout@)
}

pub open spec fn stderr_text(o: CommandOutput) -> Seq<char> {
    utf8_lossy(o.stderr@)
}

impl CommandOutput {
    pub fn success(&self) -> (b: bool)
        ensures
            b == succeeded(*self),
    {
        match self.code {
            Some(c) => c == 0,
            None => false,
        }
    }
}

/// A program's arguments, each taken by its characters.
pub open spec fn invocation_args(i: Invocation) -> Seq<Seq<char>> {
    strings_view(i.args@)
}

/// The arguments `git` is always run with first, so that non-ASCII paths come
/// out as raw UTF-8 rather than octal escapes.
pub open spec fn git_prefix() -> Seq<Seq<char>> {
    seq!["-c"@, "core.quotepath=false"@]
}

/// A `git` invocation preconfigured with `-c core.quotepath=false`, so that
/// non-ASCII path bytes come out as raw UTF-8 instead of octal escapes.
pub fn git_cmd() -> (i: Invocation)
    ensures
        i.tool == Tool::Git,
        invocation_args(i) == git_prefix(),
{
    let mut all: Vec<String> = Vec::new();
    all.push(String::from_str("-c"));
    all.push(String::from_str("core.quotepath=false"));
    let i = Invocation { tool: Tool::Git, args: all };
    assert(invocation_args(i) =~= git_prefix());
    i
}

/// Runs `git` with `-c core.quotepath=false` and then `args`.
pub fn git_invocation(args: Vec<String>) -> (i: Invocation)
    ensures
        i.tool == Tool::Git,
        invocation_args(i) == git_prefix() + strings_view(args@),
{
    let mut all = git_cmd().args;
    let mut k: usize = 0;
    while k < args.len()
        invariant
            k <= args.len(),
            strings_view(all@) == git_prefix() + strings_view(args@.take(k as int)),
        decreases args.len() - k,
    {
        let ghost before = all@;
        all.push(args[k].clone());
        assert(strings_view(all@) =~= strings_view(before).push(args@[k as int]@));
        assert(strings_view(args@.take(k + 1)) =~= strings_view(args@.take(k as int)).push(args@[k as int]@));
        assert(strings_view(all@) =~= git_prefix() + strings_view(args@.take(k + 1)));
        k += 1;
    }
    assert(args@.take(args.len() as int) =~= args@);
    Invocation { tool: Tool::Git, args: all }
}

/// Runs `gh` with `args`.
pub fn gh_invocation(args: Vec<String>) -> (i: Invocation)
    ensures
        i.tool == Tool::Gh,
        invocation_args(i) == strings_view(args@),
{
    Invocation { tool: Tool::Gh, args }
}

} // verus!
