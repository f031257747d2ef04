//! The command lines of the version-control tool: what each action of the
//! synchronisation means as arguments of `git`, how a repository is set up,
//! and how a failed command is reported.

use crate::sync::{Action, ActionView, MergeMode};
use crate::text::{from_chars, is_blank, push_all, string_views, to_chars, trimmed};
use vstd::prelude::*;

verus! {

/// The arguments that an action stands for, with `notebook` as the path of
/// the notebook in its directory; none for an action that is no command.
pub open spec fn command_of(action: ActionView, notebook: Seq<char>) -> Option<Seq<Seq<char>>> {
    match action {
        ActionView::StageAll => Some(seq!["add"@, "."@]),
        ActionView::ListChangedPaths => Some(seq!["status"@, "--porcelain"@]),
        ActionView::Commit(m) => Some(seq!["commit"@, "-m"@, m.spec_text()]),
        ActionView::Fetch => Some(seq!["fetch"@, "origin"@]),
        ActionView::VerifyRemoteBranch => Some(seq!["rev-parse"@, "--verify"@, "origin/main"@]),
        ActionView::VerifyHead => Some(seq!["rev-parse"@, "--verify"@, "HEAD"@]),
        ActionView::FindMergeBase => Some(seq!["merge-base"@, "HEAD"@, "origin/main"@]),
        ActionView::CountUnpushed => Some(seq!["rev-list"@, "--count"@, "origin/main..HEAD"@]),
        ActionView::CountIncoming => Some(seq!["rev-list"@, "--count"@, "HEAD..origin/main"@]),
        ActionView::Merge(MergeMode::NoCommit) => Some(
            seq!["merge"@, "--no-commit"@, "--no-ff"@, "origin/main"@],
        ),
        ActionView::Merge(MergeMode::PreferTheirs) => Some(
            seq!["merge"@, "--allow-unrelated-histories"@, "-X"@, "theirs"@, "origin/main"@],
        ),
        ActionView::AbortMerge => Some(seq!["merge"@, "--abort"@]),
        ActionView::DiffLocal(base) => Some(seq!["diff"@, base, "HEAD"@, "--"@, notebook]),
        ActionView::DiffRemote(base) => Some(seq!["diff"@, base, "origin/main"@, "--"@, notebook]),
        ActionView::ShowRemoteNotebook => Some(seq!["show"@, "origin/main:"@ + notebook]),
        ActionView::Push => Some(seq!["push"@, "-u"@, "origin"@, "main"@]),
        ActionView::ReadNotebook => None,
        ActionView::WriteNotebook(_) => None,
        ActionView::Finish(_) => None,
        ActionView::Fail(_) => None,
    }
}

/// The view of an optional command line.
pub open spec fn command_view(o: Option<Vec<String>>) -> Option<Seq<Seq<char>>> {
    match o {
        Some(v) => Some(string_views(v@)),
        None => None,
    }
}

fn words2(a: &str, b: &str) -> (out: Vec<String>)
    ensures
        string_views(out@) == seq![a@, b@],
{
    let mut out: Vec<String> = Vec::new();
    out.push(String::from_str(a));
    out.push(String::from_str(b));
    assert(string_views(out@) =~= seq![a@, b@]);
    out
}

fn words3(a: &str, b: &str, c: &str) -> (out: Vec<String>)
    ensures
        string_views(out@) == seq![a@, b@, c@],
{
    let mut out = words2(a, b);
    let ghost before = string_views(out@);
    out.push(String::from_str(c));
    assert(string_views(out@) =~= before.push(c@));
    assert(string_views(out@) =~= seq![a@, b@, c@]);
    out
}

fn words4(a: &str, b: &str, c: &str, d: &str) -> (out: Vec<String>)
    ensures
        string_views(out@) == seq![a@, b@, c@, d@],
{
    let mut out = words3(a, b, c);
    let ghost before = string_views(out@);
    out.push(String::from_str(d));
    assert(string_views(out@) =~= before.push(d@));
    assert(string_views(out@) =~= seq![a@, b@, c@, d@]);
    out
}

fn words5(a: &str, b: &str, c: &str, d: &str, e: &str) -> (out: Vec<String>)
    ensures
        string_views(out@) == seq![a@, b@, c@, d@, e@],
{
    let mut out = words4(a, b, c, d);
    let ghost before = string_views(out@);
    out.push(String::from_str(e));
    assert(string_views(out@) =~= before.push(e@));
    assert(string_views(out@) =~= seq![a@, b@, c@, d@, e@]);
    out
}

fn glued(a: &str, b: &str) -> (out: String)
    ensures
        out@ == a@ + b@,
{
    let mut chars = to_chars(a);
    let tail = to_chars(b);
    push_all(&mut chars, &tail);
    from_chars(&chars)
}

impl Action {
    /// The arguments of `git` that the action stands for, with `notebook`
    /// as the path of the notebook in its directory.
    pub fn git_args(&self, notebook: &str) -> (r: Option<Vec<String>>)
        ensures
            command_view(r) == command_of(self@, notebook@),
    {
        match self {
            Action::StageAll => Some(words2("add", ".")),
            Action::ListChangedPaths => Some(words2("status", "--porcelain")),
            Action::Commit(m) => {
                let text = m.text();
                Some(words3("commit", "-m", text.as_str()))
            },
            Action::Fetch => Some(words2("fetch", "origin")),
            Action::VerifyRemoteBranch => Some(words3("rev-parse", "--verify", "origin/main")),
            Action::VerifyHead => Some(words3("rev-parse", "--verify", "HEAD")),
            Action::FindMergeBase => Some(words3("merge-base", "HEAD", "origin/main")),
            Action::CountUnpushed => Some(words3("rev-list", "--count", "origin/main..HEAD")),
            Action::CountIncoming => Some(words3("rev-list", "--count", "HEAD..origin/main")),
            Action::Merge(MergeMode::NoCommit) => Some(
                words4("merge", "--no-commit", "--no-ff", "origin/main"),
            ),
            Action::Merge(MergeMode::PreferTheirs) => Some(
                words5("merge", "--allow-unrelated-histories", "-X", "theirs", "origin/main"),
            ),
            Action::AbortMerge => Some(words2("merge", "--abort")),
            Action::DiffLocal(base) => Some(words5("diff", base.as_str(), "HEAD", "--", notebook)),
            Action::DiffRemote(base) => Some(
                words5("diff", base.as_str(), "origin/main", "--", notebook),
            ),
            Action::ShowRemoteNotebook => {
                let place = glued("origin/main:", notebook);
                Some(words2("show", place.as_str()))
            },
            Action::Push => Some(words4("push", "-u", "origin", "main")),
            Action::ReadNotebook => None,
            Action::WriteNotebook(_) => None,
            Action::Finish(_) => None,
            Action::Fail(_) => None,
        }
    }
}

/// The views of command lines, one by one.
pub open spec fn command_views(v: Seq<Vec<String>>) -> Seq<Seq<Seq<char>>> {
    Seq::new(v.len(), |i: int| string_views(v[i]@))
}

/// The commands that make a directory a repository: none where it is one.
pub open spec fn init_commands(is_repository: bool) -> Seq<Seq<Seq<char>>> {
    if is_repository {
        Seq::empty()
    } else {
        seq![
            seq!["init"@],
            seq!["config"@, "init.defaultBranch"@, "main"@],
            seq!["config"@, "user.name"@, "word4you"@],
            seq!["config"@, "user.email"@, "word4you@example.com"@],
        ]
    }
}

/// The commands that tie the repository to its remote: the remote is added
/// unless the repository knows one, and the branch is set to follow it.
pub open spec fn remote_commands(url: Seq<char>, has_origin: bool) -> Seq<Seq<Seq<char>>> {
    let follow = seq!["branch"@, "--set-upstream-to=origin/main"@, "main"@];
    if has_origin {
        seq![follow]
    } else {
        seq![seq!["remote"@, "add"@, "origin"@, url], follow]
    }
}

/// The commands that make a directory a repository.
pub fn init_plan(is_repository: bool) -> (out: Vec<Vec<String>>)
    ensures
        command_views(out@) == init_commands(is_repository),
{
    let mut out: Vec<Vec<String>> = Vec::new();
    if !is_repository {
        let mut first: Vec<String> = Vec::new();
        first.push(String::from_str("init"));
        assert(string_views(first@) =~= seq!["init"@]);
        out.push(first);
        out.push(words3("config", "init.defaultBranch", "main"));
        out.push(words3("config", "user.name", "word4you"));
        out.push(words3("config", "user.email", "word4you@example.com"));
    }
    assert(command_views(out@) =~= init_commands(is_repository));
    out
}

/// The command that asks the repository for its remote.
pub fn remote_probe() -> (out: Vec<String>)
    ensures
        string_views(out@) == seq!["remote"@, "get-url"@, "origin"@],
{
    words3("remote", "get-url", "origin")
}

/// The commands that tie the repository to its remote.
pub fn remote_plan(url: &str, has_origin: bool) -> (out: Vec<Vec<String>>)
    ensures
        command_views(out@) == remote_commands(url@, has_origin),
{
    let mut out: Vec<Vec<String>> = Vec::new();
    if !has_origin {
        out.push(words4("remote", "add", "origin", url));
    }
    out.push(words3("branch", "--set-upstream-to=origin/main", "main"));
    assert(command_views(out@) =~= remote_commands(url@, has_origin));
    out
}

/// The report of a command that failed: the command, its exit code and its
/// directory, and then what it printed, or a likely cause where it printed
/// nothing.
pub open spec fn failure_text(
    command: Seq<char>,
    exit_code: Seq<char>,
    work_dir: Seq<char>,
    stderr: Seq<char>,
    stdout: Seq<char>,
) -> Seq<char> {
    let head = "Git command failed: "@ + command + "\nExit code: "@ + exit_code
        + "\nWorking directory: "@ + work_dir;
    if is_blank(stderr) && is_blank(stdout) {
        head + "\nLikely cause: Nothing to commit or repository state issue"@
    } else {
        head + "\nStderr: "@ + stderr + "\nStdout: "@ + stdout
    }
}

/// The character of a decimal digit.
pub open spec fn digit_char(d: nat) -> char {
    if d == 0 {
        '0'
    } else if d == 1 {
        '1'
    } else if d == 2 {
        '2'
    } else if d == 3 {
        '3'
    } else if d == 4 {
        '4'
    } else if d == 5 {
        '5'
    } else if d == 6 {
        '6'
    } else if d == 7 {
        '7'
    } else if d == 8 {
        '8'
    } else {
        '9'
    }
}

/// A natural number in decimal digits.
pub open spec fn digits(n: nat) -> Seq<char>
    decreases n,
{
    if n < 10 {
        seq![digit_char(n)]
    } else {
        digits(n / 10).push(digit_char(n % 10))
    }
}

/// A number in decimal digits, with a minus sign where it is below zero.
pub open spec fn decimal(n: int) -> Seq<char> {
    if n < 0 {
        seq!['-'] + digits((-n) as nat)
    } else {
        digits(n as nat)
    }
}

fn digit(d: u64) -> (c: char)
    requires
        d < 10,
    ensures
        c == digit_char(d as nat),
{
    if d == 0 {
        '0'
    } else if d == 1 {
        '1'
    } else if d == 2 {
        '2'
    } else if d == 3 {
        '3'
    } else if d == 4 {
        '4'
    } else if d == 5 {
        '5'
    } else if d == 6 {
        '6'
    } else if d == 7 {
        '7'
    } else if d == 8 {
        '8'
    } else {
        '9'
    }
}

fn push_digits(out: &mut Vec<char>, n: u64)
    ensures
        final(out)@ == old(out)@ + digits(n as nat),
    decreases n,
{
    if n >= 10 {
        push_digits(out, n / 10);
    }
    out.push(digit(n % 10));
}

/// Writes a number in decimal digits.
pub fn decimal_text(n: i32) -> (out: String)
    ensures
        out@ == decimal(n as int),
{
    let mut chars: Vec<char> = Vec::new();
    if n < 0 {
        chars.push('-');
        let size: u64 = (-(n as i64)) as u64;
        push_digits(&mut chars, size);
    } else {
        push_digits(&mut chars, n as u64);
    }
    from_chars(&chars)
}

/// What a command that ran gives: what it printed where it went well, else
/// the report of its failure. An exit code that is not known is written as
/// `-1`.
pub open spec fn outcome_text(
    success: bool,
    command: Seq<char>,
    exit_code: Option<i32>,
    work_dir: Seq<char>,
    stdout: Seq<char>,
    stderr: Seq<char>,
) -> Result<Seq<char>, Seq<char>> {
    if success {
        Ok(stdout)
    } else {
        Err(
            failure_text(
                command,
                decimal(
                    match exit_code {
                        Some(code) => code as int,
                        None => -1,
                    },
                ),
                work_dir,
                stderr,
                stdout,
            ),
        )
    }
}

/// The view of what a command gave.
pub open spec fn outcome_view(r: Result<String, String>) -> Result<Seq<char>, Seq<char>> {
    match r {
        Ok(s) => Ok(s@),
        Err(e) => Err(e@),
    }
}

/// Tells what a command that ran gives: its output, or the report of its
/// failure.
pub fn command_outcome(
    success: bool,
    command: &str,
    exit_code: Option<i32>,
    work_dir: &str,
    stdout: String,
    stderr: &str,
) -> (r: Result<String, String>)
    ensures
        outcome_view(r) == outcome_text(
            success,
            command@,
            exit_code,
            work_dir@,
            stdout@,
            stderr@,
        ),
{
    if success {
        Ok(stdout)
    } else {
        let code = decimal_text(
            match exit_code {
                Some(code) => code,
                None => -1,
            },
        );
        Err(failure_message(command, code.as_str(), work_dir, stderr, stdout.as_str()))
    }
}

/// Writes the report of a command that failed.
pub fn failure_message(command: &str, exit_code: &str, work_dir: &str, stderr: &str, stdout: &str) -> (out:
    String)
    ensures
        out@ == failure_text(command@, exit_code@, work_dir@, stderr@, stdout@),
{
    let mut msg = to_chars("Git command failed: ");
    push_all(&mut msg, &to_chars(command));
    push_all(&mut msg, &to_chars("\nExit code: "));
    push_all(&mut msg, &to_chars(exit_code));
    push_all(&mut msg, &to_chars("\nWorking directory: "));
    push_all(&mut msg, &to_chars(work_dir));
    let err = to_chars(stderr);
    let out = to_chars(stdout);
    if trimmed(&err).len() == 0 && trimmed(&out).len() == 0 {
        push_all(
            &mut msg,
            &to_chars("\nLikely cause: Nothing to commit or repository state issue"),
        );
    } else {
        push_all(&mut msg, &to_chars("\nStderr: "));
        push_all(&mut msg, &err);
        push_all(&mut msg, &to_chars("\nStdout: "));
        push_all(&mut msg, &out);
    }
    from_chars(&msg)
}

/// The message of the commit that records an operation on an entry: the
/// operation, the entry, and when it was done.
pub open spec fn operation_text(operation: Seq<char>, subject: Seq<char>, stamp: Seq<char>) -> Seq<
    char,
> {
    operation + " text: "@ + subject + " - "@ + stamp
}

/// Writes the message of the commit that records an operation on an entry.
pub fn operation_message(operation: &str, subject: &str, stamp: &str) -> (out: String)
    ensures
        out@ == operation_text(operation@, subject@, stamp@),
{
    let mut msg = to_chars(operation);
    push_all(&mut msg, &to_chars(" text: "));
    push_all(&mut msg, &to_chars(subject));
    push_all(&mut msg, &to_chars(" - "));
    push_all(&mut msg, &to_chars(stamp));
    from_chars(&msg)
}

/// Writes the message of the commit that records an operation on an entry
/// now.
pub fn operation_message_now(operation: &str, subject: &str) -> (out: String)
    ensures
        exists|stamp: Seq<char>| out@ == operation_text(operation@, subject@, stamp),
{
    let stamp = crate::instant::utc_timestamp();
    operation_message(operation, subject, stamp.as_str())
}

/// The message of the commit that adds a word.
pub open spec fn added_word_text(word: Seq<char>, stamp: Seq<char>) -> Seq<char> {
    "Add word: "@ + word + " - "@ + stamp
}

/// Writes the message of the commit that adds a word.
pub fn added_word_message(word: &str, stamp: &str) -> (out: String)
    ensures
        out@ == added_word_text(word@, stamp@),
{
    let mut msg = to_chars("Add word: ");
    push_all(&mut msg, &to_chars(word));
    push_all(&mut msg, &to_chars(" - "));
    push_all(&mut msg, &to_chars(stamp));
    from_chars(&msg)
}

/// Writes the message of the commit that adds a word now.
pub fn format_commit_message(word: &str) -> (out: String)
    ensures
        exists|stamp: Seq<char>| out@ == added_word_text(word@, stamp),
{
    let stamp = crate::instant::utc_timestamp();
    added_word_message(word, stamp.as_str())
}

} // verus!
