//! Shell commands.

use crate::text;
use crate::text_facts;
use crate::tools::error;
use crate::tools::error::{ToolError, ToolErrorView};
use vstd::prelude::*;

verus! {

/// Runs a shell command.
pub struct RunCommandTool;

/// A program that only reads and never needs confirmation.
pub open spec fn safe_bin(b: Seq<char>) -> bool {
    ||| b == "ls"@
    ||| b == "ll"@
    ||| b == "la"@
    ||| b == "find"@
    ||| b == "tree"@
    ||| b == "cat"@
    ||| b == "head"@
    ||| b == "tail"@
    ||| b == "wc"@
    ||| b == "less"@
    ||| b == "more"@
    ||| b == "file"@
    ||| b == "stat"@
    ||| b == "grep"@
    ||| b == "rg"@
    ||| b == "ag"@
    ||| b == "awk"@
    ||| b == "sed"@
    ||| b == "pwd"@
    ||| b == "whoami"@
    ||| b == "date"@
    ||| b == "uname"@
    ||| b == "hostname"@
    ||| b == "id"@
    ||| b == "ps"@
    ||| b == "df"@
    ||| b == "du"@
    ||| b == "free"@
    ||| b == "vmstat"@
    ||| b == "uptime"@
    ||| b == "echo"@
    ||| b == "printf"@
    ||| b == "which"@
    ||| b == "type"@
    ||| b == "lsof"@
    ||| b == "cargo"@
}

/// A `git` subcommand that only reads.
pub open spec fn safe_git(sub: Seq<char>) -> bool {
    ||| sub == "status"@
    ||| sub == "log"@
    ||| sub == "diff"@
    ||| sub == "branch"@
    ||| sub == "show"@
    ||| sub == "blame"@
    ||| sub == "describe"@
    ||| sub == "shortlog"@
    ||| sub == "reflog"@
    ||| sub == "ls-files"@
    ||| sub == "ls-tree"@
    ||| sub == "rev-parse"@
}

/// A command that only reads, by its first word without directories, and for
/// `git` by the second.
pub open spec fn safe_command(cmd: Seq<char>) -> bool {
    let words = text::words_of(cmd);
    words.len() > 0 && {
        let bin = text::after_last(words[0], '/');
        if bin == "git"@ {
            words.len() > 1 && safe_git(words[1])
        } else {
            safe_bin(bin)
        }
    }
}

fn is_safe_bin(b: &str) -> (r: bool)
    ensures
        r == safe_bin(b@),
{
    text::same(b, "ls") || text::same(b, "ll") || text::same(b, "la") || text::same(b, "find")
        || text::same(b, "tree") || text::same(b, "cat") || text::same(b, "head") || text::same(
        b,
        "tail",
    ) || text::same(b, "wc") || text::same(b, "less") || text::same(b, "more") || text::same(
        b,
        "file",
    ) || text::same(b, "stat") || text::same(b, "grep") || text::same(b, "rg") || text::same(
        b,
        "ag",
    ) || text::same(b, "awk") || text::same(b, "sed") || text::same(b, "pwd") || text::same(
        b,
        "whoami",
    ) || text::same(b, "date") || text::same(b, "uname") || text::same(b, "hostname")
        || text::same(b, "id") || text::same(b, "ps") || text::same(b, "df") || text::same(b, "du")
        || text::same(b, "free") || text::same(b, "vmstat") || text::same(b, "uptime")
        || text::same(b, "echo") || text::same(b, "printf") || text::same(b, "which")
        || text::same(b, "type") || text::same(b, "lsof") || text::same(b, "cargo")
}

fn is_safe_git(sub: &str) -> (r: bool)
    ensures
        r == safe_git(sub@),
{
    text::same(sub, "status") || text::same(sub, "log") || text::same(sub, "diff") || text::same(
        sub,
        "branch",
    ) || text::same(sub, "show") || text::same(sub, "blame") || text::same(sub, "describe")
        || text::same(sub, "shortlog") || text::same(sub, "reflog") || text::same(sub, "ls-files")
        || text::same(sub, "ls-tree") || text::same(sub, "rev-parse")
}

/// Whether a command only reads, so that it needs no confirmation.
pub fn is_safe_command(cmd: &str) -> (r: bool)
    ensures
        r == safe_command(cmd@),
{
    let words = text::split_whitespace(cmd);
    if words.len() == 0 {
        return false;
    }
    let bin = text::cut_after(words[0].as_str(), '/');
    if text::same(bin, "git") {
        words.len() > 1 && is_safe_git(words[1].as_str())
    } else {
        is_safe_bin(bin)
    }
}

/// What a finished command printed: its output, then its errors with a mark.
pub open spec fn command_output(stdout: Seq<char>, stderr: Seq<char>) -> Seq<char> {
    let out = text::rtrim(stdout);
    if stderr.len() == 0 {
        out
    } else {
        (if out.len() > 0 {
            out.push('\n')
        } else {
            out
        }) + "[stderr] "@ + text::rtrim(stderr)
    }
}

/// What a finished command answers: what it printed, and the exit code if it
/// failed. A command that failed without printing anything is an error. A command
/// that was ended by a signal has the code -1.
pub open spec fn command_answer(
    stdout: Seq<char>,
    stderr: Seq<char>,
    success: bool,
    code: Option<i32>,
) -> Result<Seq<char>, ToolErrorView> {
    let out = command_output(stdout, stderr);
    let number = text::signed_decimal(
        match code {
            Some(c) => c as int,
            None => -1,
        },
    );
    if success {
        Ok(out)
    } else if out.len() == 0 {
        Err(ToolErrorView::CommandFailed("exit code "@ + number))
    } else {
        Ok(out + "\n[exit code "@ + number + "]"@)
    }
}

/// What a finished command answers.
pub fn command_report(stdout: &str, stderr: &str, success: bool, code: Option<i32>) -> (r: Result<
    String,
    ToolError,
>)
    ensures
        error::outcome(r) == command_answer(stdout@, stderr@, success, code),
{
    let mut result = text::trim_end(stdout).to_string();
    if !stderr.is_empty() {
        if !result.as_str().is_empty() {
            result.push('\n');
        }
        result.append("[stderr] ");
        result.append(text::trim_end(stderr));
    }
    assert(result@ == command_output(stdout@, stderr@));
    if !success {
        let c: i32 = match code {
            Some(c) => c,
            None => -1,
        };
        let number = text::to_signed_decimal(c);
        if result.as_str().is_empty() {
            return Err(ToolError::CommandFailed(text::cat("exit code ", number.as_str())));
        }
        result.append("\n[exit code ");
        result.append(number.as_str());
        result.append("]");
    }
    Ok(result)
}

/// The words of a command are its runs of characters that are not white space: what stands
/// before the first does not count, and what follows it is treated likewise.
pub proof fn law_first_word(gap: Seq<char>, word: Seq<char>, rest: Seq<char>)
    requires
        text::blank(gap),
        word.len() > 0,
        forall|i: int| 0 <= i < word.len() ==> !text::white(#[trigger] word[i]),
        rest.len() > 0 ==> text::white(rest[0]),
    ensures
        text::words_of(gap + (word + rest)) == seq![word] + text::words_of(rest),
        text::words_of(gap).len() == 0,
{
    let s = gap + (word + rest);
    let t = word + rest;
    text_facts::lemma_trim_lead(gap, t);
    assert(t[0] == word[0]);
    assert(text::ltrim(t) == t);
    assert(text::ltrim(s) == t);
    let n = word.len() as int;
    text::lemma_word_end(t, 0);
    let e = text::word_end(t, 0);
    assert(e == n) by {
        if e < n {
            assert(text::white(t[e]));
            assert(t[e] == word[e]);
        } else if e > n {
            assert(!text::white(t[n]));
            assert(t[n] == rest[0]);
        }
    }
    assert(t.take(n) =~= word);
    assert(t.skip(n) =~= rest);
    let none = Seq::<char>::empty();
    text_facts::lemma_trim_lead(gap, none);
    assert(gap + none =~= gap);
    assert(text::ltrim(none) == none);
}

/// A command is judged by its first word alone, the directories before it aside, whatever its
/// arguments are; only `git` is judged by the second word. Nothing at all is not safe.
pub proof fn law_judged_by_the_program(
    gap: Seq<char>,
    word: Seq<char>,
    rest: Seq<char>,
    bin: Seq<char>,
    dir: Seq<char>,
)
    requires
        text::blank(gap),
        word == bin || word == dir + seq!['/'] + bin,
        bin.len() > 0 && text_facts::free_of(bin, '/'),
        forall|i: int| 0 <= i < word.len() ==> !text::white(#[trigger] word[i]),
        rest.len() > 0 ==> text::white(rest[0]),
    ensures
        bin != "git"@ ==> safe_command(gap + (word + rest)) == safe_bin(bin),
        bin == "git"@ ==> safe_command(gap + (word + rest)) == (text::words_of(rest).len() > 0
            && safe_git(text::words_of(rest)[0])),
        !safe_command(gap),
{
    law_first_word(gap, word, rest);
    lemma_after_last(dir, bin);
    let words = text::words_of(gap + (word + rest));
    assert(words[0] == word);
    assert(words.len() == 1 + text::words_of(rest).len());
    if text::words_of(rest).len() > 0 {
        assert(words[1] == text::words_of(rest)[0]);
    }
}

proof fn lemma_after_last(dir: Seq<char>, bin: Seq<char>)
    requires
        text_facts::free_of(bin, '/'),
    ensures
        text::after_last(bin, '/') == bin,
        text::after_last(dir + seq!['/'] + bin, '/') == bin,
    decreases bin.len(),
{
    lemma_no_last(bin);
    let s = dir + seq!['/'] + bin;
    lemma_last_at(dir, bin);
    assert(s.skip(dir.len() as int + 1) =~= bin);
}

proof fn lemma_no_last(s: Seq<char>)
    requires
        text_facts::free_of(s, '/'),
    ensures
        text::last_char(s, '/') is None,
    decreases s.len(),
{
    if s.len() > 0 {
        assert(s[s.len() - 1] != '/');
        let t = s.drop_last();
        assert forall|i: int| 0 <= i < t.len() implies #[trigger] t[i] != '/' by {
            assert(t[i] == s[i]);
        }
        lemma_no_last(t);
    }
}

proof fn lemma_last_at(dir: Seq<char>, bin: Seq<char>)
    requires
        text_facts::free_of(bin, '/'),
    ensures
        text::last_char(dir + seq!['/'] + bin, '/') == Some(dir.len() as int),
    decreases bin.len(),
{
    let s = dir + seq!['/'] + bin;
    if bin.len() == 0 {
        assert(s.last() == '/');
    } else {
        assert(s.last() == bin[bin.len() - 1]);
        let b = bin.drop_last();
        assert forall|i: int| 0 <= i < b.len() implies #[trigger] b[i] != '/' by {
            assert(b[i] == bin[i]);
        }
        lemma_last_at(dir, b);
        assert(s.drop_last() =~= dir + seq!['/'] + b);
    }
}

/// Whatever their arguments are, programs that write, delete or run others need confirmation,
/// and those that only read need none.
pub proof fn law_programs(gap: Seq<char>, rest: Seq<char>)
    requires
        text::blank(gap),
        rest.len() > 0 ==> text::white(rest[0]),
    ensures
        !safe_command(gap + ("rm"@ + rest)),
        !safe_command(gap + ("mv"@ + rest)),
        !safe_command(gap + ("cp"@ + rest)),
        !safe_command(gap + ("mkdir"@ + rest)),
        !safe_command(gap + ("chmod"@ + rest)),
        !safe_command(gap + ("sudo"@ + rest)),
        !safe_command(gap + ("sh"@ + rest)),
        !safe_command(gap + ("bash"@ + rest)),
        !safe_command(gap + ("curl"@ + rest)),
        safe_command(gap + ("ls"@ + rest)),
        safe_command(gap + ("cat"@ + rest)),
        safe_command(gap + ("grep"@ + rest)),
        safe_command(gap + ("pwd"@ + rest)),
{
    reveal_strlit("rm");
    reveal_strlit("mv");
    reveal_strlit("cp");
    reveal_strlit("mkdir");
    reveal_strlit("chmod");
    reveal_strlit("sudo");
    reveal_strlit("sh");
    reveal_strlit("bash");
    reveal_strlit("curl");
    reveal_strlit("ls");
    reveal_strlit("cat");
    reveal_strlit("grep");
    reveal_strlit("pwd");
    reveal_strlit("git");
    lemma_safe_bins("rm"@);
    lemma_program(gap, "rm"@, rest);
    lemma_safe_bins("mv"@);
    lemma_program(gap, "mv"@, rest);
    lemma_safe_bins("cp"@);
    lemma_program(gap, "cp"@, rest);
    lemma_safe_bins("mkdir"@);
    lemma_program(gap, "mkdir"@, rest);
    lemma_safe_bins("chmod"@);
    lemma_program(gap, "chmod"@, rest);
    lemma_safe_bins("sudo"@);
    lemma_program(gap, "sudo"@, rest);
    lemma_safe_bins("sh"@);
    lemma_program(gap, "sh"@, rest);
    lemma_safe_bins("bash"@);
    lemma_program(gap, "bash"@, rest);
    lemma_safe_bins("curl"@);
    lemma_program(gap, "curl"@, rest);
    lemma_program(gap, "ls"@, rest);
    lemma_program(gap, "cat"@, rest);
    lemma_program(gap, "grep"@, rest);
    lemma_program(gap, "pwd"@, rest);
}

proof fn lemma_program(gap: Seq<char>, bin: Seq<char>, rest: Seq<char>)
    requires
        text::blank(gap),
        bin.len() > 0,
        forall|i: int| 0 <= i < bin.len() ==> 'a' <= #[trigger] bin[i] <= 'z',
        bin.len() == 3 ==> bin[0] != 'g',
        rest.len() > 0 ==> text::white(rest[0]),
    ensures
        safe_command(gap + (bin + rest)) == safe_bin(bin),
{
    reveal_strlit("git");
    assert("git"@.len() == 3 && "git"@[0] == 'g');
    law_judged_by_the_program(gap, bin, rest, bin, Seq::empty());
}

/// Whatever their arguments are, the subcommands of `git` that change something need
/// confirmation, and those that only read need none.
pub proof fn law_git(gap: Seq<char>, between: Seq<char>, rest: Seq<char>)
    requires
        text::blank(gap),
        text::blank(between) && between.len() > 0,
        rest.len() > 0 ==> text::white(rest[0]),
    ensures
        !safe_command(gap + ("git"@ + (between + ("push"@ + rest)))),
        !safe_command(gap + ("git"@ + (between + ("commit"@ + rest)))),
        !safe_command(gap + ("git"@ + (between + ("reset"@ + rest)))),
        !safe_command(gap + ("git"@ + (between + ("checkout"@ + rest)))),
        !safe_command(gap + ("git"@ + (between + ("clean"@ + rest)))),
        safe_command(gap + ("git"@ + (between + ("status"@ + rest)))),
        safe_command(gap + ("git"@ + (between + ("log"@ + rest)))),
        safe_command(gap + ("git"@ + (between + ("diff"@ + rest)))),
{
    reveal_strlit("push");
    reveal_strlit("commit");
    reveal_strlit("reset");
    reveal_strlit("checkout");
    reveal_strlit("clean");
    reveal_strlit("status");
    reveal_strlit("log");
    reveal_strlit("diff");
    reveal_strlit("git");
    lemma_safe_gits("push"@);
    lemma_git(gap, between, "push"@, rest);
    lemma_safe_gits("commit"@);
    lemma_git(gap, between, "commit"@, rest);
    lemma_safe_gits("reset"@);
    lemma_git(gap, between, "reset"@, rest);
    lemma_safe_gits("checkout"@);
    lemma_git(gap, between, "checkout"@, rest);
    lemma_safe_gits("clean"@);
    lemma_git(gap, between, "clean"@, rest);
    lemma_git(gap, between, "status"@, rest);
    lemma_git(gap, between, "log"@, rest);
    lemma_git(gap, between, "diff"@, rest);
}

proof fn lemma_git(gap: Seq<char>, between: Seq<char>, sub: Seq<char>, rest: Seq<char>)
    requires
        text::blank(gap),
        text::blank(between) && between.len() > 0,
        sub.len() > 0,
        forall|i: int| 0 <= i < sub.len() ==> 'a' <= #[trigger] sub[i] <= 'z',
        rest.len() > 0 ==> text::white(rest[0]),
    ensures
        safe_command(gap + ("git"@ + (between + (sub + rest)))) == safe_git(sub),
{
    reveal_strlit("git");
    let tail = between + (sub + rest);
    assert(tail[0] == between[0]);
    law_judged_by_the_program(gap, "git"@, tail, "git"@, Seq::empty());
    law_first_word(between, sub, rest);
}

/// What the programs that need no confirmation look like: enough to tell others from them.
proof fn lemma_safe_bins(b: Seq<char>)
    ensures
        safe_bin(b) && b.len() == 2 ==> b[0] == 'l' || b[0] == 'w' || b[0] == 'r' && b[1] == 'g'
            || b[0] == 'a' || b[0] == 'i' || b[0] == 'p' || b[0] == 'd',
        safe_bin(b) && b.len() == 3 ==> b[0] == 'c' || b[0] == 'a' || b[0] == 's' || b[0] == 'p',
        safe_bin(b) && b.len() == 4 ==> b[0] == 'f' || b[0] == 't' || b[0] == 'h' || b[0] == 'l'
            || b[0] == 'm' || b[0] == 's' && b[1] == 't' || b[0] == 'g' || b[0] == 'd' || b[0]
            == 'e',
        safe_bin(b) && b.len() == 5 ==> b[0] == 'u' || b[0] == 'w' || b[0] == 'c' && b[1] == 'a',
{
    reveal_strlit("ls");
    reveal_strlit("ll");
    reveal_strlit("la");
    reveal_strlit("find");
    reveal_strlit("tree");
    reveal_strlit("cat");
    reveal_strlit("head");
    reveal_strlit("tail");
    reveal_strlit("wc");
    reveal_strlit("less");
    reveal_strlit("more");
    reveal_strlit("file");
    reveal_strlit("stat");
    reveal_strlit("grep");
    reveal_strlit("rg");
    reveal_strlit("ag");
    reveal_strlit("awk");
    reveal_strlit("sed");
    reveal_strlit("pwd");
    reveal_strlit("whoami");
    reveal_strlit("date");
    reveal_strlit("uname");
    reveal_strlit("hostname");
    reveal_strlit("id");
    reveal_strlit("ps");
    reveal_strlit("df");
    reveal_strlit("du");
    reveal_strlit("free");
    reveal_strlit("vmstat");
    reveal_strlit("uptime");
    reveal_strlit("echo");
    reveal_strlit("printf");
    reveal_strlit("which");
    reveal_strlit("type");
    reveal_strlit("lsof");
    reveal_strlit("cargo");
}

/// What the harmless subcommands of `git` look like: enough to tell others from them.
proof fn lemma_safe_gits(b: Seq<char>)
    ensures
        safe_git(b) ==> b.len() > 0 && (b[0] == 's' || b[0] == 'l' || b[0] == 'd' || b[0] == 'b'
            || b[0] == 'r' && (b.len() == 6 || b.len() == 9)),
{
    reveal_strlit("status");
    reveal_strlit("log");
    reveal_strlit("diff");
    reveal_strlit("branch");
    reveal_strlit("show");
    reveal_strlit("blame");
    reveal_strlit("describe");
    reveal_strlit("shortlog");
    reveal_strlit("reflog");
    reveal_strlit("ls-files");
    reveal_strlit("ls-tree");
    reveal_strlit("rev-parse");
}

/// What a command printed is answered whole but for white space at the ends: what it wrote, and
/// behind a mark what it complained of; a failure is told with its code, and is an error where
/// nothing was printed.
pub proof fn law_command_answers(
    stdout: Seq<char>,
    stderr: Seq<char>,
    code: i32,
)
    ensures
        command_answer(stdout, Seq::empty(), true, Some(code)) == Ok::<_, ToolErrorView>(
            text::rtrim(stdout),
        ),
        stderr.len() > 0 && text::rtrim(stdout).len() > 0 ==> command_answer(
            stdout,
            stderr,
            true,
            Some(code),
        ) == Ok::<_, ToolErrorView>(
            text::rtrim(stdout) + seq!['\n'] + "[stderr] "@ + text::rtrim(stderr),
        ),
        stderr.len() > 0 && text::rtrim(stdout).len() == 0 ==> command_answer(
            stdout,
            stderr,
            true,
            Some(code),
        ) == Ok::<_, ToolErrorView>("[stderr] "@ + text::rtrim(stderr)),
        text::rtrim(stdout).len() > 0 ==> command_answer(stdout, Seq::empty(), false, Some(code))
            == Ok::<_, ToolErrorView>(
            text::rtrim(stdout) + "\n[exit code "@ + text::signed_decimal(code as int) + "]"@,
        ),
        text::rtrim(stdout).len() == 0 ==> command_answer(stdout, Seq::empty(), false, Some(code))
            == Err::<Seq<char>, _>(
            ToolErrorView::CommandFailed("exit code "@ + text::signed_decimal(code as int)),
        ),
        command_answer(stdout, stderr, true, Some(code)) is Ok,
{
    let out = text::rtrim(stdout);
    assert(out.push('\n') + "[stderr] "@ + text::rtrim(stderr) =~= out + seq!['\n'] + "[stderr] "@
        + text::rtrim(stderr));
    assert(Seq::<char>::empty() + "[stderr] "@ + text::rtrim(stderr) =~= "[stderr] "@
        + text::rtrim(stderr));
    if out.len() == 0 {
        assert(out =~= Seq::<char>::empty());
    }
}

} // verus!
