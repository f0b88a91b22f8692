//! What is asked of the `git` program, and what its answers say.
//!
//! Nothing here runs a program: a question is an [`Invocation`], argument by argument so that nothing needs quoting, and
//! an answer is what [`run`] makes of how the program ended.
use vstd::prelude::*;

use crate::seqs::{lemma_position, models};
use crate::text::{
    all_digits, concat3, decimal, decimal_reads_back, has_prefix, is_digit, is_white, join, join_spec, lemma_split_ahead,
    lemma_unsplit, lines, lines_spec, number_upto, parse_upto, split, split_once, split_once_spec, split_spec, starts_with,
    strip_prefix, strip_prefix_spec, trim_end, trim_end_spec, white_space_parts_words, words, words_spec, Text,
};

verus! {

broadcast use crate::seqs::group_models;

// ---- questions ------------------------------------------------------------------------------------------------------

/// One run of a program: where, and with which arguments. A silenced one may not prompt for anything.
#[derive(Debug, PartialEq, Eq)]
pub struct Invocation {
    pub program: String,
    pub dir: String,
    pub args: Vec<String>,
    pub silenced: bool,
}

pub struct InvocationModel {
    pub program: Text,
    pub dir: Text,
    pub args: Seq<Text>,
    pub silenced: bool,
}

impl View for Invocation {
    type V = InvocationModel;

    open spec fn view(&self) -> InvocationModel {
        InvocationModel {
            program: self.program@,
            dir: self.dir@,
            args: models(self.args@),
            silenced: self.silenced,
        }
    }
}

impl InvocationModel {
    /// One argument more.
    pub open spec fn arg(self, a: Text) -> InvocationModel {
        InvocationModel { args: self.args.push(a), ..self }
    }

    /// The same run, forbidden to prompt.
    pub open spec fn silently(self) -> InvocationModel {
        InvocationModel { silenced: true, ..self }
    }

    /// The whole command line.
    pub open spec fn line(self) -> Text {
        self.program + " "@ + join_spec(self.args, " "@)
    }
}

/// A run of `program` in `dir`, without arguments so far.
pub open spec fn invoking(program: Text, dir: Text) -> InvocationModel {
    InvocationModel { program, dir, args: Seq::empty(), silenced: false }
}

/// A run of git in `dir`, without arguments so far.
pub open spec fn git_in(dir: Text) -> InvocationModel {
    invoking("git"@, dir)
}

impl Invocation {
    pub fn new(program: &str, dir: &str) -> (r: Invocation)
        ensures
            r@ == invoking(program@, dir@),
    {
        Invocation { program: program.to_owned(), dir: dir.to_owned(), args: Vec::new(), silenced: false }
    }

    /// One argument more.
    pub fn arg(self, a: &str) -> (r: Invocation)
        ensures
            r@ == self@.arg(a@),
    {
        let mut args: Vec<String> = self.args;
        args.push(a.to_owned());
        Invocation { program: self.program, dir: self.dir, args, silenced: self.silenced }
    }

    /// The same run, forbidden to prompt.
    pub fn silently(self) -> (r: Invocation)
        ensures
            r@ == self@.silently(),
    {
        Invocation { program: self.program, dir: self.dir, args: self.args, silenced: true }
    }

    /// The environment the run needs: a silenced git may not ask on the terminal, a silenced gh may neither prompt nor
    /// look for updates.
    pub fn envs(&self) -> (r: Vec<(String, String)>)
        ensures
            if !self@.silenced {
                r@.len() == 0
            } else if self@.program == "gh"@ {
                r@.len() == 2 && r@[0].0@ == "GH_PROMPT_DISABLED"@ && r@[0].1@ == "1"@ && r@[1].0@
                    == "GH_NO_UPDATE_NOTIFIER"@ && r@[1].1@ == "1"@
            } else {
                r@.len() == 1 && r@[0].0@ == "GIT_TERMINAL_PROMPT"@ && r@[0].1@ == "0"@
            },
    {
        let mut out: Vec<(String, String)> = Vec::new();
        if self.silenced {
            if crate::text::same(&self.program, "gh") {
                out.push(("GH_PROMPT_DISABLED".to_owned(), "1".to_owned()));
                out.push(("GH_NO_UPDATE_NOTIFIER".to_owned(), "1".to_owned()));
            } else {
                out.push(("GIT_TERMINAL_PROMPT".to_owned(), "0".to_owned()));
            }
        }
        out
    }
}

/// A run of git in `dir`, without arguments so far.
pub fn git(dir: &str) -> (r: Invocation)
    ensures
        r@ == git_in(dir@),
{
    Invocation::new("git", dir)
}

// ---- answers --------------------------------------------------------------------------------------------------------

/// A failed run. `args` carries the whole command line, program included, so that the message names what actually ran.
#[derive(Debug, PartialEq, Eq)]
pub enum GitError {
    Failed { args: String, stderr: String },
    /// The program could not be started at all; `missing` when it is not installed.
    Spawn { missing: bool, source: String },
}

pub enum GitErrorModel {
    Failed { args: Text, stderr: Text },
    Spawn { missing: bool, source: Text },
}

impl View for GitError {
    type V = GitErrorModel;

    open spec fn view(&self) -> GitErrorModel {
        match self {
            GitError::Failed { args, stderr } => GitErrorModel::Failed { args: args@, stderr: stderr@ },
            GitError::Spawn { missing, source } => GitErrorModel::Spawn { missing: *missing, source: source@ },
        }
    }
}

impl GitErrorModel {
    pub open spec fn message(self) -> Text {
        match self {
            GitErrorModel::Failed { args, stderr } => "`"@ + args + "` failed: "@ + stderr,
            GitErrorModel::Spawn { source, .. } => "could not run: "@ + source,
        }
    }
}

impl GitError {
    pub fn to_string(&self) -> (r: String)
        ensures
            r@ == self@.message(),
    {
        match self {
            GitError::Failed { args, stderr } => crate::text::concat4("`", args, "` failed: ", stderr),
            GitError::Spawn { source, .. } => crate::text::concat2("could not run: ", source),
        }
    }
}

/// How a started program ended: whether it succeeded, and what it wrote.
#[derive(Debug)]
pub struct Ended {
    pub success: bool,
    pub stdout: String,
    pub stderr: String,
}

/// What a run came to: what it printed, trimmed at the end, or why it failed.
pub open spec fn answer(call: InvocationModel, ended: Ended) -> Result<Text, GitErrorModel> {
    if ended.success {
        Ok(trim_end_spec(ended.stdout@))
    } else {
        Err(GitErrorModel::Failed { args: call.line(), stderr: trim_end_spec(ended.stderr@) })
    }
}

/// What a run that could be started came to.
pub fn run(call: &Invocation, ended: &Ended) -> (r: Result<String, GitError>)
    ensures
        match r {
            Ok(out) => answer(call@, *ended) == Ok::<Text, GitErrorModel>(out@),
            Err(e) => answer(call@, *ended) == Err::<Text, GitErrorModel>(e@),
        },
{
    if ended.success {
        Ok(trim_end(&ended.stdout))
    } else {
        Err(
            GitError::Failed {
                args: concat3(&call.program, " ", &join(&call.args, " ")),
                stderr: trim_end(&ended.stderr),
            },
        )
    }
}

/// What the answer printed; `None` where the run failed.
pub open spec fn printed(answer: Result<String, GitError>) -> Option<Text> {
    match answer {
        Ok(out) => Some(out@),
        Err(_) => None,
    }
}

// ---- what answers say -----------------------------------------------------------------------------------------------

/// `git version`.
pub fn ask_version(dir: &str) -> (r: Invocation)
    ensures
        r@ == git_in(dir@).arg("version"@),
{
    git(dir).arg("version")
}

/// The first two dotted components of a version text, where both are numbers.
pub open spec fn major_minor(text: Text) -> Option<(u32, u32)> {
    let parts = split_spec(text, '.');
    if parts.len() < 2 {
        None
    } else {
        match (number_upto(parts[0], u32::MAX as nat), number_upto(parts[0int + 1], u32::MAX as nat)) {
            (Some(major), Some(minor)) => Some((major as u32, minor as u32)),
            _ => None,
        }
    }
}

/// What `git version` says: the third word of `git version 2.43.0`, its first two components.
pub open spec fn version_spec(out: Option<Text>) -> Option<(u32, u32)> {
    match out {
        Some(text) => if words_spec(text).len() < 3 {
            None
        } else {
            major_minor(words_spec(text)[0int + 2])
        },
        None => None,
    }
}

/// The installed git's `(major, minor)`, or `None` when git is missing or its version text is unreadable.
pub fn version(answer: &Result<String, GitError>) -> (r: Option<(u32, u32)>)
    ensures
        r == version_spec(printed(*answer)),
{
    let out: &String = match answer {
        Ok(out) => out,
        Err(_) => return None,
    };
    let all: Vec<String> = words(out);
    let ghost texts = models(all@);
    if all.len() < 3 {
        return None;
    }
    assert(texts[0int + 2] == all@[2]@);
    let parts: Vec<String> = split(&all[2], '.');
    let ghost pieces = models(parts@);
    if parts.len() < 2 {
        return None;
    }
    assert(pieces[0] == parts@[0]@ && pieces[0int + 1] == parts@[1]@);
    let major: Option<u64> = parse_upto(&parts[0], u32::MAX as u64);
    let minor: Option<u64> = parse_upto(&parts[1], u32::MAX as u64);
    match (major, minor) {
        (Some(major), Some(minor)) => Some((major as u32, minor as u32)),
        _ => None,
    }
}

/// `git worktree list --porcelain`.
pub fn ask_worktrees(dir: &str) -> (r: Invocation)
    ensures
        r@ == git_in(dir@).arg("worktree"@).arg("list"@).arg("--porcelain"@),
{
    git(dir).arg("worktree").arg("list").arg("--porcelain")
}

/// The rest of the first of `lines` that begins with `prefix`.
pub open spec fn first_behind(lines: Seq<Text>, prefix: Text) -> Option<Text>
    decreases lines.len(),
{
    if lines.len() == 0 {
        None
    } else {
        match first_behind(lines.drop_last(), prefix) {
            Some(rest) => Some(rest),
            None => strip_prefix_spec(lines.last(), prefix),
        }
    }
}

/// The main working tree's root, which is the first that `git worktree list --porcelain` names: a process deep inside a
/// ticket's worktree still finds the one board. `None` outside a repository.
pub fn main_worktree(answer: &Result<String, GitError>) -> (r: Option<String>)
    ensures
        crate::seqs::opt_model(r) == match printed(*answer) {
            Some(out) => first_behind(lines_spec(out), "worktree "@),
            None => None,
        },
{
    let out: &String = match answer {
        Ok(out) => out,
        Err(_) => return None,
    };
    let all: Vec<String> = lines(out);
    let ghost texts = models(all@);
    let mut i: usize = 0;
    while i < all.len()
        invariant
            i <= all@.len(),
            texts == models(all@),
            texts == lines_spec(out@),
            printed(*answer) == Some(out@),
            first_behind(texts.take(i as int), "worktree "@) is None,
        decreases all@.len() - i,
    {
        proof {
            assert(texts.take(i + 1).drop_last() =~= texts.take(i as int));
            assert(texts.take(i + 1).last() == all@[i as int]@);
        }
        match strip_prefix(&all[i], "worktree ") {
            Some(path) => {
                proof {
                    lemma_first_behind(texts, "worktree "@, i + 1);
                }
                return Some(path);
            },
            None => {},
        }
        i = i + 1;
    }
    assert(texts.take(texts.len() as int) =~= texts);
    None
}

proof fn lemma_first_behind(lines: Seq<Text>, prefix: Text, n: int)
    requires
        0 <= n <= lines.len(),
        first_behind(lines.take(n), prefix) is Some,
    ensures
        first_behind(lines, prefix) == first_behind(lines.take(n), prefix),
    decreases lines.len() - n,
{
    if n < lines.len() {
        assert(lines.take(n + 1).drop_last() =~= lines.take(n));
        lemma_first_behind(lines, prefix, n + 1);
    } else {
        assert(lines.take(n) =~= lines);
    }
}

/// `git merge-base --is-ancestor`.
pub fn ask_ancestor(repo: &str, rev: &str, of: &str) -> (r: Invocation)
    ensures
        r@ == git_in(repo@).arg("merge-base"@).arg("--is-ancestor"@).arg(rev@).arg(of@),
{
    git(repo).arg("merge-base").arg("--is-ancestor").arg(rev).arg(of)
}

/// Whether one revision is an ancestor of another, by the exit code of `git merge-base --is-ancestor`: `None` when git
/// cannot answer (no repository, an unknown revision), as distinct from a definite no.
pub fn is_ancestor(code: Option<i32>) -> (r: Option<bool>)
    ensures
        r == match code {
            Some(c) => if c == 0 {
                Some(true)
            } else if c == 1 {
                Some(false)
            } else {
                None
            },
            None => None,
        },
{
    match code {
        Some(c) => {
            if c == 0 {
                Some(true)
            } else if c == 1 {
                Some(false)
            } else {
                None
            }
        },
        None => None,
    }
}

/// `git symbolic-ref`: what the remote's `HEAD` points at.
pub fn ask_origin_head(repo: &str) -> (r: Invocation)
    ensures
        r@ == git_in(repo@).arg("symbolic-ref"@).arg("--short"@).arg("refs/remotes/origin/HEAD"@),
{
    git(repo).arg("symbolic-ref").arg("--short").arg("refs/remotes/origin/HEAD")
}

/// The integration branch: what the remote declares, else a local `main`, else a local `master`.
pub open spec fn main_branch_spec(origin_head: Option<Text>, has_main: bool, has_master: bool) -> Option<Text> {
    let local = if has_main {
        Some("main"@)
    } else if has_master {
        Some("master"@)
    } else {
        None
    };
    match origin_head {
        Some(sym) => match split_once_spec(sym, '/') {
            Some(parts) => Some(parts.1),
            None => local,
        },
        None => local,
    }
}

/// The repository's integration branch, best effort: what `origin/HEAD` points at when the remote has declared one, else
/// a local `main`, else a local `master`.
pub fn detect_main_branch(origin_head: &Result<String, GitError>, has_main: bool, has_master: bool) -> (r: Option<String>)
    ensures
        crate::seqs::opt_model(r) == main_branch_spec(printed(*origin_head), has_main, has_master),
{
    match origin_head {
        Ok(sym) => match split_once(sym, '/') {
            Some((_, name)) => return Some(name),
            None => {},
        },
        Err(_) => {},
    }
    if has_main {
        Some("main".to_owned())
    } else if has_master {
        Some("master".to_owned())
    } else {
        None
    }
}

/// `git branch --show-current`.
pub fn ask_current_branch(dir: &str) -> (r: Invocation)
    ensures
        r@ == git_in(dir@).arg("branch"@).arg("--show-current"@),
{
    git(dir).arg("branch").arg("--show-current")
}

/// The branch currently checked out; `None` on a detached `HEAD` or outside a repository.
pub fn current_branch(answer: &Result<String, GitError>) -> (r: Option<String>)
    ensures
        crate::seqs::opt_model(r) == match printed(*answer) {
            Some(out) => if out.len() == 0 {
                None
            } else {
                Some(out)
            },
            None => None,
        },
{
    match answer {
        Ok(out) => {
            if out.as_str().is_empty() {
                None
            } else {
                Some(out.clone())
            }
        },
        Err(_) => None,
    }
}

/// `git for-each-ref refs/heads`.
pub fn ask_local_heads(repo: &str) -> (r: Invocation)
    ensures
        r@ == git_in(repo@).arg("for-each-ref"@).arg("refs/heads"@).arg("--format=%(refname:short)"@),
{
    git(repo).arg("for-each-ref").arg("refs/heads").arg("--format=%(refname:short)")
}

/// Every local branch name. `None` when git cannot answer.
pub fn local_heads(answer: &Result<String, GitError>) -> (r: Option<Vec<String>>)
    ensures
        match printed(*answer) {
            Some(out) => r matches Some(heads) && models(heads@) == lines_spec(out),
            None => r is None,
        },
{
    match answer {
        Ok(out) => Some(lines(out)),
        Err(_) => None,
    }
}

/// `git rev-parse --verify` on a local branch.
pub fn ask_branch(repo: &str, branch: &str) -> (r: Invocation)
    ensures
        r@ == git_in(repo@).arg("rev-parse"@).arg("--quiet"@).arg("--verify"@).arg("refs/heads/"@ + branch@),
{
    git(repo).arg("rev-parse").arg("--quiet").arg("--verify").arg(&crate::text::concat2("refs/heads/", branch))
}

/// Whether the local branch exists: whether git could resolve it.
pub fn branch_exists(answer: &Result<String, GitError>) -> (r: bool)
    ensures
        r == (*answer is Ok),
{
    answer.is_ok()
}

/// `git cherry`.
pub fn ask_cherry(repo: &str, upstream: &str, tip: &str) -> (r: Invocation)
    ensures
        r@ == git_in(repo@).arg("cherry"@).arg(upstream@).arg(tip@),
{
    git(repo).arg("cherry").arg(upstream).arg(tip)
}

/// Every one of `lines` begins with `prefix`.
pub open spec fn all_begin(lines: Seq<Text>, prefix: Text) -> bool {
    forall|i: int| 0 <= i < lines.len() ==> has_prefix(#[trigger] lines[i], prefix)
}

/// Whether every commit that `git cherry` lists is patch-equivalent to one already upstream, each marked `-`. This is
/// what proves a rebase and fast-forward after the branch is gone. `None` when git cannot answer.
pub fn cherry_equivalent(answer: &Result<String, GitError>) -> (r: Option<bool>)
    ensures
        r == match printed(*answer) {
            Some(out) => Some(all_begin(lines_spec(out), "-"@)),
            None => None,
        },
{
    let out: &String = match answer {
        Ok(out) => out,
        Err(_) => return None,
    };
    let all: Vec<String> = lines(out);
    let ghost texts = models(all@);
    let mut i: usize = 0;
    while i < all.len()
        invariant
            i <= all@.len(),
            texts == models(all@),
            texts == lines_spec(out@),
            printed(*answer) == Some(out@),
            forall|j: int| 0 <= j < i ==> has_prefix(#[trigger] texts[j], "-"@),
        decreases all@.len() - i,
    {
        assert(texts[i as int] == all@[i as int]@);
        if !starts_with(&all[i], "-") {
            return Some(false);
        }
        i = i + 1;
    }
    Some(true)
}

/// `git diff <main>...<branch>`: what the branch itself changed.
pub fn ask_diff(repo: &str, main: &str, branch: &str) -> (r: Invocation)
    ensures
        r@ == git_in(repo@).arg("diff"@).arg(main@ + "..."@ + branch@),
{
    git(repo).arg("diff").arg(&concat3(main, "...", branch))
}

/// `git remote`.
pub fn ask_remotes(repo: &str) -> (r: Invocation)
    ensures
        r@ == git_in(repo@).arg("remote"@),
{
    git(repo).arg("remote")
}

/// `git status --porcelain`.
pub fn ask_status(dir: &str) -> (r: Invocation)
    ensures
        r@ == git_in(dir@).arg("status"@).arg("--porcelain"@),
{
    git(dir).arg("status").arg("--porcelain")
}

// ---- laws -----------------------------------------------------------------------------------------------------------

/// What a run printed is handed on without the white space at its end; a failed one is reported with its command line and
/// what it complained of.
pub proof fn a_run_answers_what_it_printed(call: InvocationModel, ended: Ended)
    ensures
        ended.success ==> answer(call, ended) == Ok::<Text, GitErrorModel>(trim_end_spec(ended.stdout@)),
        !ended.success ==> (answer(call, ended) matches Err(e) && e.message() == "`"@ + (call.program + " "@ + join_spec(
            call.args,
            " "@,
        )) + "` failed: "@ + trim_end_spec(ended.stderr@)),
{
}

/// The main branch is what stands behind the slash of what the remote declares; where it declares none, `main` when there is
/// one here, else `master` when there is one, else none.
pub proof fn the_main_branch_is_the_remotes_or_a_local_one(remote: Text, branch: Text, has_main: bool, has_master: bool)
    requires
        !remote.contains('/'),
    ensures
        main_branch_spec(Some(remote + "/"@ + branch), has_main, has_master) == Some(branch),
        has_main ==> main_branch_spec(None, has_main, has_master) == Some("main"@),
        !has_main && has_master ==> main_branch_spec(None, has_main, has_master) == Some("master"@),
        !has_main && !has_master ==> main_branch_spec(None, has_main, has_master) is None,
        main_branch_spec(Some(remote), has_main, has_master) == main_branch_spec(None, has_main, has_master),
{
    reveal_strlit("/");
    let s = remote + "/"@ + branch;
    let at = remote.len() as int;
    assert(s[at] == '/');
    assert forall|k: int| 0 <= k < at implies s[k] != '/' by {
        assert(s[k] == remote[k]);
        assert(remote.contains(remote[k]));
    }
    lemma_position(s, '/', at);
    assert(s.subrange(at + 1, s.len() as int) =~= branch);
}

/// The first line that begins with the prefix counts, and what stands behind the prefix is its value.
pub proof fn the_first_line_behind_a_prefix_counts(lines: Seq<Text>, prefix: Text, i: int)
    requires
        0 <= i < lines.len() && has_prefix(lines[i], prefix),
        forall|k: int| 0 <= k < i ==> !has_prefix(#[trigger] lines[k], prefix),
    ensures
        first_behind(lines, prefix) == strip_prefix_spec(lines[i], prefix),
        first_behind(lines, prefix) is Some,
    decreases lines.len(),
{
    let before = lines.drop_last();
    if i < before.len() {
        assert(before[i] == lines[i]);
        assert forall|k: int| 0 <= k < i implies !has_prefix(#[trigger] before[k], prefix) by {
            assert(before[k] == lines[k]);
        }
        the_first_line_behind_a_prefix_counts(before, prefix, i);
    } else {
        lemma_nothing_behind(before, prefix);
    }
}

proof fn lemma_nothing_behind(lines: Seq<Text>, prefix: Text)
    requires
        forall|k: int| 0 <= k < lines.len() ==> !has_prefix(#[trigger] lines[k], prefix),
    ensures
        first_behind(lines, prefix) is None,
    decreases lines.len(),
{
    if lines.len() > 0 {
        let before = lines.drop_last();
        assert forall|k: int| 0 <= k < before.len() implies !has_prefix(#[trigger] before[k], prefix) by {
            assert(before[k] == lines[k]);
        }
        lemma_nothing_behind(before, prefix);
        assert(!has_prefix(lines[lines.len() - 1], prefix));
    }
}

/// What `git version` prints gives the first two numbers of the version, whatever follows them behind a dot.
pub proof fn a_version_is_read_off_its_numbers(major: u32, minor: u32, rest: Text)
    requires
        forall|i: int| 0 <= i < rest.len() ==> !is_white(#[trigger] rest[i]),
    ensures
        version_spec(Some("git version "@ + decimal(major as nat) + "."@ + decimal(minor as nat))) == Some((major, minor)),
        version_spec(Some("git version "@ + decimal(major as nat) + "."@ + decimal(minor as nat) + "."@ + rest)) == Some(
            (major, minor),
        ),
        version_spec(None) is None,
{
    reveal_strlit(".");
    decimal_reads_back(major as nat);
    decimal_reads_back(minor as nat);
    let (a, b) = (decimal(major as nat), decimal(minor as nat));
    let short = a + "."@ + b;
    let long = short + "."@ + rest;
    lemma_version_word(short);
    lemma_version_word(long);
    assert("git version "@ + a + "."@ + b =~= "git version "@ + short);
    assert("git version "@ + a + "."@ + b + "."@ + rest =~= "git version "@ + long);
    lemma_dotless(a);
    lemma_dotless(b);
    lemma_unsplit(b, '.');
    lemma_split_ahead(a, '.', b);
    assert(a + seq!['.'] + b =~= short);
    assert(split_spec(short, '.') =~= seq![a, b]);
    lemma_split_ahead(b, '.', rest);
    lemma_split_ahead(a, '.', b + seq!['.'] + rest);
    assert(a + seq!['.'] + (b + seq!['.'] + rest) =~= long);
    assert(split_spec(long, '.')[0] == a && split_spec(long, '.')[1] == b);
}

proof fn lemma_dotless(d: Text)
    requires
        all_digits(d),
    ensures
        !d.contains('.'),
        forall|i: int| 0 <= i < d.len() ==> !is_white(#[trigger] d[i]),
{
    if d.contains('.') {
        let k = choose|k: int| 0 <= k < d.len() && d[k] == '.';
        assert(is_digit(d[k]));
    }
    assert forall|i: int| 0 <= i < d.len() implies !is_white(#[trigger] d[i]) by {
        assert(is_digit(d[i]));
    }
}

proof fn lemma_version_word(v: Text)
    requires
        v.len() > 0,
        forall|i: int| 0 <= i < v.len() ==> !is_white(#[trigger] v[i]),
    ensures
        words_spec("git version "@ + v).len() == 3,
        words_spec("git version "@ + v)[2] == v,
{
    reveal_strlit("git version ");
    reveal_strlit("git");
    reveal_strlit("version");
    white_space_parts_words("git"@, ' ', "version"@.push(' ') + v);
    white_space_parts_words("version"@, ' ', v);
    white_space_parts_words(v, ' ', "git"@);
    white_space_parts_words(v, ' ', "version"@);
    white_space_parts_words("git"@, ' ', v);
    assert("git version "@ + v =~= "git"@.push(' ') + ("version"@.push(' ') + v));
    assert(words_spec("git version "@ + v) =~= seq!["git"@] + (seq!["version"@] + seq![v]));
}

/// What a run printed is there exactly when it did not fail.
pub proof fn only_a_good_run_prints(answer: Result<String, GitError>)
    ensures
        printed(answer) is Some <==> answer is Ok,
        answer matches Ok(out) ==> printed(answer) == Some(out@),
{
}

/// A call is its program, where it runs, and its arguments in the order they were given; silencing it changes none of them.
pub proof fn arguments_are_appended(call: InvocationModel, a: Text)
    ensures
        call.arg(a).args == call.args.push(a),
        call.arg(a).program == call.program && call.arg(a).dir == call.dir && call.arg(a).silenced == call.silenced,
        call.silently().silenced && call.silently().args == call.args && call.silently().program == call.program
            && call.silently().dir == call.dir,
        git_in(a).program == "git"@ && git_in(a).dir == a && git_in(a).args.len() == 0 && !git_in(a).silenced,
{
}

} // verus!
