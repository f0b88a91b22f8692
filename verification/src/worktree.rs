//! One ticket, one checkout: what starting, finishing and listing a ticket's worktree comes to.
//!
//! Git is slow and runs elsewhere. [`start`] and [`finish`] are asked again and again with what is known so far: each time
//! they say what to find out next, or refuse, or hand over the plan.
use vstd::prelude::*;

use crate::git::{git, git_in, Invocation, InvocationModel};
use crate::ops::Op;
use crate::seqs::{models, opt_model};
use crate::store::claims::{find, found, Claim, ClaimModel};
use crate::store::model::{ColumnId, Ticket, TicketId, TicketModel};
use crate::text::{
    all_digits, alnum, ascii_lowered, chars, concat2, concat3, concat5, decimal, digit_char, has_prefix, is_alnum, join,
    join_spec, lines, lines_spec, lower, lower_ascii, lowered, only_digits, same, slice, split_once, split_once_spec,
    strip_prefix, strip_prefix_spec, to_decimal, trim_end_of, trim_end_of_spec, Text,
};

verus! {

broadcast use crate::seqs::group_models;

/// Sparse checkout from a worktree is only safe from this git version up.
pub const SPARSE_GIT_MAJOR: u32 = 2;

pub const SPARSE_GIT_MINOR: u32 = 36;

// ---- branch names ---------------------------------------------------------------------------------------------------

/// Words that carry no weight in a branch slug.
pub open spec fn stopword(w: Text) -> bool {
    w == "the"@ || w == "a"@ || w == "an"@ || w == "of"@ || w == "for"@ || w == "to"@ || w == "and"@ || w == "or"@ || w
        == "in"@ || w == "on"@ || w == "with"@ || w == "from"@ || w == "into"@ || w == "at"@ || w == "by"@ || w == "is"@
        || w == "be"@ || w == "based"@
}

fn is_stopword(w: &str) -> (r: bool)
    ensures
        r == stopword(w@),
{
    same(w, "the") || same(w, "a") || same(w, "an") || same(w, "of") || same(w, "for") || same(w, "to") || same(w, "and")
        || same(w, "or") || same(w, "in") || same(w, "on") || same(w, "with") || same(w, "from") || same(w, "into")
        || same(w, "at") || same(w, "by") || same(w, "is") || same(w, "be") || same(w, "based")
}

/// A word that says something: more than one character, and no stopword.
pub open spec fn weighty(w: Text) -> bool {
    w.len() > 1 && !stopword(ascii_lowered(w))
}

/// The weighty words completed so far, and the run of letters and digits still open.
pub open spec fn slug_words(s: Text) -> (Seq<Text>, Text)
    decreases s.len(),
{
    if s.len() == 0 {
        (Seq::empty(), Seq::empty())
    } else {
        let before = slug_words(s.drop_last());
        if is_alnum(s.last()) {
            (before.0, before.1.push(s.last()))
        } else {
            (with_weighty(before.0, before.1), Seq::empty())
        }
    }
}

/// A word joins the list when it is weighty.
pub open spec fn with_weighty(words: Seq<Text>, w: Text) -> Seq<Text> {
    if weighty(w) {
        words.push(w)
    } else {
        words
    }
}

/// The weighty words of a title: what stands between characters that are no ASCII letters or digits.
pub open spec fn weighty_words(title: Text) -> Seq<Text> {
    let split = slug_words(title);
    with_weighty(split.0, split.1)
}

/// The first `n` of a sequence, or all of it.
pub open spec fn at_most<A>(s: Seq<A>, n: int) -> Seq<A> {
    if s.len() <= n {
        s
    } else {
        s.take(n)
    }
}

/// The slug of a title: its first three weighty words in lower case, hyphenated, at most 24 characters and no hyphen at
/// the end; `work` when nothing is left.
pub open spec fn slug(title: Text) -> Text {
    let cut = trim_end_of_spec(at_most(ascii_lowered(join_spec(at_most(weighty_words(title), 3), "-"@)), 24), "-"@);
    if cut.len() == 0 {
        "work"@
    } else {
        cut
    }
}

fn push_weighty(words: &mut Vec<String>, w: &str)
    ensures
        models(final(words)@) == with_weighty(models(old(words)@), w@),
{
    let n: usize = chars(w).len();
    if n > 1 && !is_stopword(&lower_ascii(w)) {
        words.push(w.to_owned());
    }
}

/// "Rate-limit the login route" becomes `rate-limit-login`.
pub fn derive_slug(title: &str) -> (r: String)
    ensures
        r@ == slug(title@),
{
    let v: Vec<char> = chars(title);
    let mut words: Vec<String> = Vec::new();
    let mut run: String = String::new();
    let mut i: usize = 0;
    while i < v.len()
        invariant
            v@ == title@,
            i <= v@.len(),
            models(words@) == slug_words(title@.take(i as int)).0,
            run@ == slug_words(title@.take(i as int)).1,
        decreases v@.len() - i,
    {
        proof {
            assert(title@.take(i + 1).drop_last() =~= title@.take(i as int));
            assert(title@.take(i + 1).last() == v@[i as int]);
        }
        let c: char = v[i];
        if alnum(c) {
            run.push(c);
        } else {
            push_weighty(&mut words, &run);
            run = String::new();
        }
        i = i + 1;
    }
    assert(title@.take(title@.len() as int) =~= title@);
    push_weighty(&mut words, &run);
    let ghost all = models(words@);
    if words.len() > 3 {
        words.truncate(3);
        assert(models(words@) =~= all.take(3));
    }
    let long: String = lower_ascii(&join(&words, "-"));
    let cs: Vec<char> = chars(&long);
    let n: usize = if cs.len() <= 24 { cs.len() } else { 24 };
    let short: String = slice(&cs, 0, n);
    assert(short@ =~= at_most(long@, 24));
    let cut: String = trim_end_of(&short, "-");
    if cut.as_str().is_empty() {
        "work".to_owned()
    } else {
        cut
    }
}

/// The branch of a ticket under a slug: `k-7/rate-limit-login`.
pub open spec fn branch_name(id: Text, slug: Text) -> Text {
    lowered(id) + "/"@ + slug
}

/// The ticket a branch belongs to, when it follows the `k-<n>/…` scheme, `n` being one digit or more.
pub open spec fn ticket_of_branch(branch: Text) -> Option<Text> {
    match split_once_spec(branch, '/') {
        Some(parts) => match strip_prefix_spec(parts.0, "k-"@) {
            Some(n) => if n.len() > 0 && all_digits(n) {
                Some("K-"@ + n)
            } else {
                None
            },
            None => None,
        },
        None => None,
    }
}

/// `k-7/rate-limit-login` belongs to `K-7`.
pub fn ticket_for_branch(branch: &str) -> (r: Option<String>)
    ensures
        opt_model(r) == ticket_of_branch(branch@),
{
    match split_once(branch, '/') {
        Some((prefix, _)) => match strip_prefix(&prefix, "k-") {
            Some(n) => {
                if !n.as_str().is_empty() && only_digits(&n) {
                    Some(concat2("K-", &n))
                } else {
                    None
                }
            },
            None => None,
        },
        None => None,
    }
}

// ---- what git knows -------------------------------------------------------------------------------------------------

/// A registered worktree: where it is, and the branch checked out there.
#[derive(Debug, PartialEq, Eq)]
pub struct WorktreeEntry {
    pub path: String,
    pub branch: Option<String>,
}

pub struct WorktreeEntryModel {
    pub path: Text,
    pub branch: Option<Text>,
}

impl View for WorktreeEntry {
    type V = WorktreeEntryModel;

    open spec fn view(&self) -> WorktreeEntryModel {
        WorktreeEntryModel { path: self.path@, branch: opt_model(self.branch) }
    }
}

/// The stanzas of `git worktree list --porcelain`: a `worktree` line opens one, a `branch` line belongs to the last one
/// opened, and the last such line counts.
pub open spec fn entries(lines: Seq<Text>) -> Seq<WorktreeEntryModel>
    decreases lines.len(),
{
    if lines.len() == 0 {
        Seq::empty()
    } else {
        let before = entries(lines.drop_last());
        match strip_prefix_spec(lines.last(), "worktree "@) {
            Some(path) => before.push(WorktreeEntryModel { path, branch: None }),
            None => match strip_prefix_spec(lines.last(), "branch refs/heads/"@) {
                Some(branch) => if before.len() == 0 {
                    before
                } else {
                    before.update(
                        before.len() - 1,
                        WorktreeEntryModel { path: before.last().path, branch: Some(branch) },
                    )
                },
                None => before,
            },
        }
    }
}

/// Read the answer of `git worktree list --porcelain`.
pub fn worktree_entries(out: &str) -> (r: Vec<WorktreeEntry>)
    ensures
        models(r@) == entries(lines_spec(out@)),
{
    let all: Vec<String> = lines(out);
    let ghost texts = models(all@);
    let mut found: Vec<WorktreeEntry> = Vec::new();
    let mut i: usize = 0;
    while i < all.len()
        invariant
            texts == models(all@),
            i <= all@.len(),
            models(found@) == entries(texts.take(i as int)),
        decreases all@.len() - i,
    {
        proof {
            assert(texts.take(i + 1).drop_last() =~= texts.take(i as int));
            assert(texts.take(i + 1).last() == all@[i as int]@);
        }
        match strip_prefix(&all[i], "worktree ") {
            Some(path) => found.push(WorktreeEntry { path, branch: None }),
            None => match strip_prefix(&all[i], "branch refs/heads/") {
                Some(branch) => {
                    let n: usize = found.len();
                    if n > 0 {
                        let ghost before = found@;
                        found[n - 1].branch = Some(branch);
                        proof {
                            let e = found@[n - 1];
                            assert(found@ =~= before.update(n - 1, e));
                            assert(models(before).last() == before[n - 1]@);
                        }
                    }
                },
                None => {},
            },
        }
        i = i + 1;
    }
    assert(texts.take(texts.len() as int) =~= texts);
    found
}

/// The first worktree on `branch`, looking from `from` on.
pub open spec fn live_from(es: Seq<WorktreeEntryModel>, branch: Text, from: int) -> Option<Text>
    decreases es.len() - from,
{
    if from < 0 || from >= es.len() {
        None
    } else if es[from].branch == Some(branch) {
        Some(es[from].path)
    } else {
        live_from(es, branch, from + 1)
    }
}

/// The registered worktree currently on `branch`, if any. The first entry is the main checkout and does not count.
pub fn live_worktree_for(es: &Vec<WorktreeEntry>, branch: &str) -> (r: Option<String>)
    ensures
        opt_model(r) == live_from(models(es@), branch@, 1),
{
    let mut i: usize = 1;
    while i < es.len()
        invariant
            1 <= i,
            live_from(models(es@), branch@, 1) == live_from(models(es@), branch@, i as int),
        decreases es@.len() - i,
    {
        match &es[i].branch {
            Some(b) => {
                if same(b, branch) {
                    return Some(es[i].path.clone());
                }
            },
            None => {},
        }
        i = i + 1;
    }
    None
}

/// `git for-each-ref` over the branches of one ticket, by the naming scheme that makes branch to ticket unambiguous.
pub fn ask_existing_branch(repo: &str, id: &TicketId) -> (r: Invocation)
    ensures
        r@ == git_in(repo@).arg("for-each-ref"@).arg("--format=%(refname:short)"@).arg(
            "refs/heads/"@ + lowered(id@) + "/*"@,
        ),
{
    git(repo).arg("for-each-ref").arg("--format=%(refname:short)").arg(&concat3("refs/heads/", &lower(&id.0), "/*"))
}

/// The ticket's existing branch: the first that git lists.
pub fn existing_branch(out: &str) -> (r: Option<String>)
    ensures
        opt_model(r) == first_line(out@),
{
    let all: Vec<String> = lines(out);
    let ghost texts = models(all@);
    if all.len() == 0 {
        None
    } else {
        assert(texts[0] == all@[0]@);
        Some(all[0].clone())
    }
}

/// The first line of a text.
pub open spec fn first_line(out: Text) -> Option<Text> {
    if lines_spec(out).len() == 0 {
        None
    } else {
        Some(lines_spec(out)[0])
    }
}

/// The repository a store belongs to, asked of git in the directory `parent` that holds the store.
pub fn repo_root(parent: &str, answer: &Result<String, crate::git::GitError>) -> (r: Result<String, String>)
    ensures
        ({
            let root = match crate::git::printed(*answer) {
                Some(out) => crate::git::first_behind(lines_spec(out), "worktree "@),
                None => None,
            };
            match r {
                Ok(repo) => root == Some(repo@),
                Err(e) => root is None && e@ == parent@ + " is not inside a git repository — worktrees need one"@,
            }
        }),
{
    match crate::git::main_worktree(answer) {
        Some(repo) => Ok(repo),
        None => Err(concat2(parent, " is not inside a git repository — worktrees need one")),
    }
}

// ---- where a worktree lives -----------------------------------------------------------------------------------------

/// The last so many hexadecimal digits of a number.
pub open spec fn hex(n: nat, digits: nat) -> Text
    decreases digits,
{
    if digits == 0 {
        Seq::empty()
    } else {
        hex(n / 16, (digits - 1) as nat).push(hex_digit(n % 16))
    }
}

pub open spec fn hex_digit(d: nat) -> char {
    if d < 10 {
        digit_char(d)
    } else {
        (('a' as u32) + (d - 10)) as char
    }
}

fn to_hex(n: u32, digits: u32) -> (r: String)
    requires
        digits <= 8,
    ensures
        r@ == hex(n as nat, digits as nat),
    decreases digits,
{
    if digits == 0 {
        String::new()
    } else {
        let mut out: String = to_hex(n / 16, digits - 1);
        let d: u32 = n % 16;
        out.push(if d < 10 { (48u8 + d as u8) as char } else { (87u8 + d as u8) as char });
        out
    }
}

/// `<root>/<repo-name>-<hash>/<ticket>`: the hash, eight hexadecimal digits, keeps two repositories of one name apart.
pub open spec fn path_spec(root: Text, repo_name: Option<Text>, hash: u32, id: Text) -> Text {
    let name = match repo_name {
        Some(n) => n,
        None => "repo"@,
    };
    crate::store::joined(crate::store::joined(root, name + "-"@ + hex(hash as nat, 8)), id)
}

/// Where a ticket's worktree goes, given the low half of a hash of the repository's path.
pub fn worktree_path(root: &str, repo_name: Option<&str>, hash: u32, id: &TicketId) -> (r: String)
    ensures
        r@ == path_spec(
            root@,
            match repo_name {
                Some(n) => Some(n@),
                None => None,
            },
            hash,
            id@,
        ),
{
    let name: &str = match repo_name {
        Some(n) => n,
        None => "repo",
    };
    let dir: String = crate::store::join_path(root, &concat3(name, "-", &to_hex(hash, 8)));
    crate::store::join_path(&dir, &id.0)
}

// ---- starting -------------------------------------------------------------------------------------------------------

/// What a start was asked for.
#[derive(Debug)]
pub struct StartOpts {
    /// Base ref for a fresh branch. Defaults to the main checkout's current `HEAD`.
    pub base: Option<String>,
    /// Branch slug, for when a human can condense the title better.
    pub slug: Option<String>,
    /// Worktree root; beats the configured one.
    pub dir: Option<String>,
    /// Take a full worktree.
    pub no_sparse: bool,
}

impl Default for StartOpts {
    fn default() -> (r: StartOpts)
        ensures
            r.base is None && r.slug is None && r.dir is None && !r.no_sparse,
    {
        StartOpts { base: None, slug: None, dir: None, no_sparse: false }
    }
}

/// One run of a program, with what to say first when it fails.
#[derive(Debug)]
pub struct Task {
    pub call: Invocation,
    pub context: Option<String>,
}

pub struct TaskModel {
    pub call: InvocationModel,
    pub context: Option<Text>,
}

impl View for Task {
    type V = TaskModel;

    open spec fn view(&self) -> TaskModel {
        TaskModel { call: self.call@, context: opt_model(self.context) }
    }
}

/// A run that needs no introduction.
pub open spec fn plain(call: InvocationModel) -> TaskModel {
    TaskModel { call, context: None }
}

fn task(call: Invocation) -> (r: Task)
    ensures
        r@ == plain(call@),
{
    Task { call, context: None }
}

/// What a start does: run the tasks, in order, until one fails. None are left to run where the worktree is alive.
#[derive(Debug)]
pub struct StartPlan {
    pub branch: String,
    pub path: String,
    /// An existing branch of the ticket is taken up again.
    pub reattached: bool,
    /// The worktree excludes the board.
    pub sparse: bool,
    pub warnings: Vec<String>,
    pub tasks: Vec<Task>,
}

pub struct StartPlanModel {
    pub branch: Text,
    pub path: Text,
    pub reattached: bool,
    pub sparse: bool,
    pub warnings: Seq<Text>,
    pub tasks: Seq<TaskModel>,
}

impl View for StartPlan {
    type V = StartPlanModel;

    open spec fn view(&self) -> StartPlanModel {
        StartPlanModel {
            branch: self.branch@,
            path: self.path@,
            reattached: self.reattached,
            sparse: self.sparse,
            warnings: models(self.warnings@),
            tasks: models(self.tasks@),
        }
    }
}

/// What a start may need to find out, or to have done, before it can go on.
#[derive(Debug, Clone, Copy, PartialEq, Eq, Structural)]
pub enum StartQuestion {
    /// Forget worktrees whose directory is gone: a stale registration would block adding the same path again.
    Prune,
    /// The installed git's version.
    Version,
    /// The ticket's existing branch.
    Branch,
    /// The worktree on that branch.
    Worktree,
}

/// What is known so far.
#[derive(Debug)]
pub struct StartFacts {
    pub pruned: bool,
    pub version: Option<Option<(u32, u32)>>,
    pub branch: Option<Option<String>>,
    pub worktree: Option<Option<String>>,
}

impl Default for StartFacts {
    fn default() -> (r: StartFacts)
        ensures
            !r.pruned && r.version is None && r.branch is None && r.worktree is None,
    {
        StartFacts { pruned: false, version: None, branch: None, worktree: None }
    }
}

/// The next step of a start.
#[derive(Debug)]
pub enum StartStep {
    Ask(StartQuestion),
    Refuse(String),
    Go(StartPlan),
}

pub enum StartStepModel {
    Ask(StartQuestion),
    Refuse(Text),
    Go(StartPlanModel),
}

impl View for StartStep {
    type V = StartStepModel;

    open spec fn view(&self) -> StartStepModel {
        match self {
            StartStep::Ask(q) => StartStepModel::Ask(*q),
            StartStep::Refuse(why) => StartStepModel::Refuse(why@),
            StartStep::Go(plan) => StartStepModel::Go(plan@),
        }
    }
}

/// Git is recent enough for a sparse worktree.
pub open spec fn sparse_safe(version: Option<(u32, u32)>) -> bool {
    version matches Some(v) && (v.0 > SPARSE_GIT_MAJOR || (v.0 == SPARSE_GIT_MAJOR && v.1 >= SPARSE_GIT_MINOR))
}

/// Why a worktree is full after all.
pub open spec fn sparse_warning(version: Option<(u32, u32)>) -> Text {
    let shown = match version {
        Some(v) => decimal(v.0 as nat) + "."@ + decimal(v.1 as nat),
        None => "??"@,
    };
    "git "@ + shown + " is below "@ + (decimal(SPARSE_GIT_MAJOR as nat) + "."@ + decimal(SPARSE_GIT_MINOR as nat))
        + " — falling back to a full worktree (safe: the board is anchored to the main checkout anyway)"@
}

/// Whether the worktree can be sparse, and what to warn of when it was wanted and cannot.
pub fn sparse_available(no_sparse: bool, version: Option<(u32, u32)>, warnings: &mut Vec<String>) -> (r: bool)
    ensures
        r == (!no_sparse && sparse_safe(version)),
        models(final(warnings)@) == if no_sparse || sparse_safe(version) {
            models(old(warnings)@)
        } else {
            models(old(warnings)@).push(sparse_warning(version))
        },
{
    if no_sparse {
        return false;
    }
    match version {
        Some((major, minor)) => {
            if major > SPARSE_GIT_MAJOR || (major == SPARSE_GIT_MAJOR && minor >= SPARSE_GIT_MINOR) {
                return true;
            }
        },
        None => {},
    }
    let shown: String = match version {
        Some((major, minor)) => concat3(&to_decimal(major as u64), ".", &to_decimal(minor as u64)),
        None => "??".to_owned(),
    };
    let floor: String = concat3(&to_decimal(SPARSE_GIT_MAJOR as u64), ".", &to_decimal(SPARSE_GIT_MINOR as u64));
    warnings.push(
        concat5(
            "git ",
            &shown,
            " is below ",
            &floor,
            " — falling back to a full worktree (safe: the board is anchored to the main checkout anyway)",
        ),
    );
    false
}

/// Creating a worktree on a fresh branch from `base`, or on an existing branch. A sparse one is created empty, and the
/// board is excluded before a single file lands.
pub open spec fn add_tasks(repo: Text, path: Text, branch: Text, base: Option<Text>, sparse: bool) -> Seq<TaskModel> {
    let opened = git_in(repo).arg("worktree"@).arg("add"@);
    let placed = if sparse {
        opened.arg("--no-checkout"@).arg(path)
    } else {
        opened.arg(path)
    };
    let call = match base {
        Some(base) => placed.arg("-b"@).arg(branch).arg(base),
        None => placed.arg(branch),
    };
    let added = Seq::<TaskModel>::empty().push(
        TaskModel { call, context: Some("creating the worktree at "@ + path) },
    );
    if sparse {
        added.push(
            plain(
                git_in(path).arg("sparse-checkout"@).arg("set"@).arg("--no-cone"@).arg("/*"@).arg("!/.kanban/"@),
            ),
        ).push(plain(git_in(path).arg("checkout"@)))
    } else {
        added
    }
}

/// The runs that create a worktree.
pub fn add_worktree(repo: &str, path: &str, branch: &str, base: Option<&str>, sparse: bool) -> (r: Vec<Task>)
    ensures
        models(r@) == add_tasks(
            repo@,
            path@,
            branch@,
            match base {
                Some(b) => Some(b@),
                None => None,
            },
            sparse,
        ),
{
    let opened: Invocation = git(repo).arg("worktree").arg("add");
    let placed: Invocation = if sparse {
        opened.arg("--no-checkout").arg(path)
    } else {
        opened.arg(path)
    };
    let call: Invocation = match base {
        Some(base) => placed.arg("-b").arg(branch).arg(base),
        None => placed.arg(branch),
    };
    let mut out: Vec<Task> = Vec::new();
    out.push(Task { call, context: Some(concat2("creating the worktree at ", path)) });
    if sparse {
        let set: Invocation = git(path).arg("sparse-checkout").arg("set").arg("--no-cone").arg("/*").arg("!/.kanban/");
        out.push(task(set));
        out.push(task(git(path).arg("checkout")));
    }
    out
}

/// Why a ticket gets no worktree at all.
pub open spec fn start_refusal(id: Text, ticket: Option<TicketModel>) -> Option<Text> {
    match ticket {
        None => Some(id + " not found on the board"@),
        Some(t) => if t.external is Some {
            Some(id + " is external — it is worked elsewhere and never gets a worktree here"@)
        } else if t.column.id() != ColumnId::Doing {
            Some(id + " is not in doing — claim it first (kanban_claim, or drag it to doing on the board)"@)
        } else {
            None
        },
    }
}

/// The next step of a start. The branch is the ticket's existing one where there is one, in the worktree it is alive in
/// or in a new one at `at`; else it is a fresh branch from the base asked for, or `HEAD`.
pub open spec fn start_spec(
    repo: Text,
    id: Text,
    ticket: Option<TicketModel>,
    opts: StartOpts,
    at: Text,
    facts: StartFacts,
) -> StartStepModel {
    let version = match facts.version {
        Some(v) => v,
        None => None,
    };
    let sparse = !opts.no_sparse && sparse_safe(version);
    let warnings = if opts.no_sparse || sparse_safe(version) {
        Seq::<Text>::empty()
    } else {
        Seq::<Text>::empty().push(sparse_warning(version))
    };
    if start_refusal(id, ticket) is Some {
        StartStepModel::Refuse(start_refusal(id, ticket)->Some_0)
    } else if !facts.pruned {
        StartStepModel::Ask(StartQuestion::Prune)
    } else if !opts.no_sparse && facts.version is None {
        StartStepModel::Ask(StartQuestion::Version)
    } else {
        match facts.branch {
            None => StartStepModel::Ask(StartQuestion::Branch),
            Some(None) => {
                let slug = match opts.slug {
                    Some(s) => s@,
                    None => slug(ticket->Some_0.title),
                };
                let base = match opts.base {
                    Some(b) => b@,
                    None => "HEAD"@,
                };
                let branch = branch_name(id, slug);
                StartStepModel::Go(
                    StartPlanModel {
                        branch,
                        path: at,
                        reattached: false,
                        sparse,
                        warnings,
                        tasks: add_tasks(repo, at, branch, Some(base), sparse),
                    },
                )
            },
            Some(Some(branch)) => match facts.worktree {
                None => StartStepModel::Ask(StartQuestion::Worktree),
                Some(Some(live)) => StartStepModel::Go(
                    StartPlanModel {
                        branch: branch@,
                        path: live@,
                        reattached: true,
                        sparse,
                        warnings,
                        tasks: Seq::empty(),
                    },
                ),
                Some(None) => StartStepModel::Go(
                    StartPlanModel {
                        branch: branch@,
                        path: at,
                        reattached: true,
                        sparse,
                        warnings,
                        tasks: add_tasks(repo, at, branch@, None, sparse),
                    },
                ),
            },
        }
    }
}

/// Why a ticket gets no worktree at all.
fn refuse_start(id: &TicketId, ticket: Option<&Ticket>) -> (r: Option<String>)
    ensures
        opt_model(r) == start_refusal(
            id@,
            match ticket {
                Some(t) => Some(t@),
                None => None,
            },
        ),
{
    match ticket {
        None => Some(concat2(&id.0, " not found on the board")),
        Some(t) => {
            if t.external.is_some() {
                Some(concat2(&id.0, " is external — it is worked elsewhere and never gets a worktree here"))
            } else if t.column.id() != ColumnId::Doing {
                Some(
                    concat2(
                        &id.0,
                        " is not in doing — claim it first (kanban_claim, or drag it to doing on the board)",
                    ),
                )
            } else {
                None
            }
        },
    }
}

/// Create, or re-attach to, the ticket's branch and worktree: the next step, given what is known.
pub fn start(
    repo: &str,
    id: &TicketId,
    ticket: Option<&Ticket>,
    opts: &StartOpts,
    at: &str,
    facts: &StartFacts,
) -> (r: StartStep)
    ensures
        r@ == start_spec(
            repo@,
            id@,
            match ticket {
                Some(t) => Some(t@),
                None => None,
            },
            *opts,
            at@,
            *facts,
        ),
{
    match refuse_start(id, ticket) {
        Some(why) => return StartStep::Refuse(why),
        None => {},
    }
    let title: &String = match ticket {
        Some(t) => &t.title,
        None => return StartStep::Ask(StartQuestion::Prune),
    };
    if !facts.pruned {
        return StartStep::Ask(StartQuestion::Prune);
    }
    if !opts.no_sparse && facts.version.is_none() {
        return StartStep::Ask(StartQuestion::Version);
    }
    let version: Option<(u32, u32)> = match facts.version {
        Some(v) => v,
        None => None,
    };
    let existing: &Option<String> = match &facts.branch {
        Some(b) => b,
        None => return StartStep::Ask(StartQuestion::Branch),
    };
    let mut warnings: Vec<String> = Vec::new();
    let sparse: bool = sparse_available(opts.no_sparse, version, &mut warnings);
    match existing {
        None => {
            let slug: String = match &opts.slug {
                Some(s) => s.clone(),
                None => derive_slug(title),
            };
            let base: String = match &opts.base {
                Some(b) => b.clone(),
                None => "HEAD".to_owned(),
            };
            let branch: String = concat3(&lower(&id.0), "/", &slug);
            let tasks: Vec<Task> = add_worktree(repo, at, &branch, Some(&base), sparse);
            StartStep::Go(StartPlan { branch, path: at.to_owned(), reattached: false, sparse, warnings, tasks })
        },
        Some(branch) => match &facts.worktree {
            None => StartStep::Ask(StartQuestion::Worktree),
            Some(Some(live)) => StartStep::Go(
                StartPlan {
                    branch: branch.clone(),
                    path: live.clone(),
                    reattached: true,
                    sparse,
                    warnings,
                    tasks: Vec::new(),
                },
            ),
            Some(None) => {
                let tasks: Vec<Task> = add_worktree(repo, at, branch, None, sparse);
                StartStep::Go(
                    StartPlan { branch: branch.clone(), path: at.to_owned(), reattached: true, sparse, warnings, tasks },
                )
            },
        },
    }
}

/// What has to be run, or is run, for a question.
pub fn start_question(repo: &str, id: &TicketId, q: StartQuestion) -> (r: Invocation)
    ensures
        r@ == match q {
            StartQuestion::Prune => git_in(repo@).arg("worktree"@).arg("prune"@),
            StartQuestion::Version => git_in("."@).arg("version"@),
            StartQuestion::Branch => git_in(repo@).arg("for-each-ref"@).arg("--format=%(refname:short)"@).arg(
                "refs/heads/"@ + lowered(id@) + "/*"@,
            ),
            StartQuestion::Worktree => git_in(repo@).arg("worktree"@).arg("list"@).arg("--porcelain"@),
        },
{
    match q {
        StartQuestion::Prune => git(repo).arg("worktree").arg("prune"),
        StartQuestion::Version => crate::git::ask_version("."),
        StartQuestion::Branch => ask_existing_branch(repo, id),
        StartQuestion::Worktree => crate::git::ask_worktrees(repo),
    }
}

/// Initialising the submodules of a fresh worktree, where the repository has any.
pub fn submodule_task(path: &str) -> (r: Task)
    ensures
        r@ == (TaskModel {
            call: git_in(path@).arg("submodule"@).arg("update"@).arg("--init"@).arg("--recursive"@),
            context: Some("initialising submodules in the worktree"@),
        }),
{
    Task {
        call: git(path).arg("submodule").arg("update").arg("--init").arg("--recursive"),
        context: Some("initialising submodules in the worktree".to_owned()),
    }
}

/// Why an entry of the files to copy into a worktree is left out: only files that git ignores may be copied.
pub open spec fn copy_refusal(entry: Text, is_file: bool, ignored: bool) -> Option<Text> {
    if !is_file {
        Some("copy_to_worktrees: "@ + entry + " is not a file — skipped"@)
    } else if !ignored {
        Some("copy_to_worktrees: "@ + entry + " is not gitignored — skipped (only ignored files may be copied)"@)
    } else {
        None
    }
}

/// Whether a configured entry is copied into a worktree: `None` says that it is, a warning why not. The configuration
/// cannot smuggle in tracked or unknown files.
pub fn copy_verdict(entry: &str, is_file: bool, ignored: bool) -> (r: Option<String>)
    ensures
        opt_model(r) == copy_refusal(entry@, is_file, ignored),
{
    if !is_file {
        Some(concat3("copy_to_worktrees: ", entry, " is not a file — skipped"))
    } else if !ignored {
        Some(concat3("copy_to_worktrees: ", entry, " is not gitignored — skipped (only ignored files may be copied)"))
    } else {
        None
    }
}

/// What a start did.
#[derive(Debug)]
pub struct StartReport {
    pub ticket: String,
    pub branch: String,
    pub path: String,
    /// An existing branch of the ticket, or its live worktree, was taken up again.
    pub reattached: bool,
    /// The worktree excludes the board.
    pub sparse: bool,
    pub warnings: Vec<String>,
}

/// What is left when the plan of a start has been carried out: the stamps for the board, and the report. `more` are the
/// warnings of the copying.
pub fn started(id: &TicketId, plan: StartPlan, more: Vec<String>) -> (r: (Op, StartReport))
    ensures
        r.0 matches Op::StampWorktree { id: of, branch, path } && of@ == id@ && branch@ == plan@.branch && path@ == plan@.path,
        r.1.ticket@ == id@ && r.1.branch@ == plan@.branch && r.1.path@ == plan@.path && r.1.reattached == plan@.reattached
            && r.1.sparse == plan@.sparse && models(r.1.warnings@) == plan@.warnings + models(more@),
{
    let mut warnings: Vec<String> = plan.warnings;
    let mut more: Vec<String> = more;
    warnings.append(&mut more);
    let op: Op = Op::StampWorktree { id: id.clone(), branch: plan.branch.clone(), path: plan.path.clone() };
    (
        op,
        StartReport {
            ticket: id.to_string(),
            branch: plan.branch,
            path: plan.path,
            reattached: plan.reattached,
            sparse: plan.sparse,
            warnings,
        },
    )
}

// ---- finishing ------------------------------------------------------------------------------------------------------

/// What a finish may need to find out before it can go on.
#[derive(Debug, Clone, Copy, PartialEq, Eq, Structural)]
pub enum FinishQuestion {
    /// The ticket's existing branch.
    Branch,
    /// The worktree on the ticket's branch, where its directory is still there.
    Worktree,
    /// Whether that worktree has uncommitted changes.
    Dirty,
    /// The branch that finished work is merged into.
    Main,
    /// The branch the main checkout is on.
    Current,
    /// Whether the main checkout has uncommitted changes outside the board.
    MainDirty,
}

/// What is known so far.
#[derive(Debug)]
pub struct FinishFacts {
    pub branch: Option<Option<String>>,
    pub worktree: Option<Option<String>>,
    pub dirty: Option<bool>,
    pub main: Option<Option<String>>,
    pub current: Option<Option<String>>,
    pub main_dirty: Option<bool>,
}

impl Default for FinishFacts {
    fn default() -> (r: FinishFacts)
        ensures
            r.branch is None && r.worktree is None && r.dirty is None && r.main is None && r.current is None
                && r.main_dirty is None,
    {
        FinishFacts { branch: None, worktree: None, dirty: None, main: None, current: None, main_dirty: None }
    }
}

/// What a finish does: run the tasks, in order, until one fails. The branch survives.
#[derive(Debug)]
pub struct FinishPlan {
    pub branch: Option<String>,
    pub merged: bool,
    /// The worktree that goes.
    pub removed: Option<String>,
    pub tasks: Vec<Task>,
}

pub struct FinishPlanModel {
    pub branch: Option<Text>,
    pub merged: bool,
    pub removed: Option<Text>,
    pub tasks: Seq<TaskModel>,
}

impl View for FinishPlan {
    type V = FinishPlanModel;

    open spec fn view(&self) -> FinishPlanModel {
        FinishPlanModel {
            branch: opt_model(self.branch),
            merged: self.merged,
            removed: opt_model(self.removed),
            tasks: models(self.tasks@),
        }
    }
}

/// The next step of a finish.
#[derive(Debug)]
pub enum FinishStep {
    Ask(FinishQuestion),
    Refuse(String),
    Go(FinishPlan),
}

pub enum FinishStepModel {
    Ask(FinishQuestion),
    Refuse(Text),
    Go(FinishPlanModel),
}

impl View for FinishStep {
    type V = FinishStepModel;

    open spec fn view(&self) -> FinishStepModel {
        match self {
            FinishStep::Ask(q) => FinishStepModel::Ask(*q),
            FinishStep::Refuse(why) => FinishStepModel::Refuse(why@),
            FinishStep::Go(plan) => FinishStepModel::Go(plan@),
        }
    }
}

/// The branch to finish: the one on the card, else the one git has for the ticket.
pub open spec fn finish_branch(ticket: TicketModel, existing: Option<String>) -> Option<Text> {
    match ticket.column.branch() {
        Some(b) => Some(b),
        None => opt_model(existing),
    }
}

/// What stands in the way of merging, or has to be found out first; `None` when nothing does. A merge targets the
/// integration branch, and only from a clean main checkout; without an integration branch there is no target to insist
/// on.
pub open spec fn merge_obstacle(id: Text, branch: Option<Text>, facts: FinishFacts) -> Option<FinishStepModel> {
    let clean = match facts.main_dirty {
        None => Some(FinishStepModel::Ask(FinishQuestion::MainDirty)),
        Some(true) => Some(
            FinishStepModel::Refuse(
                "the main checkout has uncommitted changes — merge refused; commit or stash them first"@,
            ),
        ),
        Some(false) => None,
    };
    if branch is None {
        Some(FinishStepModel::Refuse(id + " has no branch to merge"@))
    } else {
        match facts.main {
            None => Some(FinishStepModel::Ask(FinishQuestion::Main)),
            Some(None) => clean,
            Some(Some(main)) => match facts.current {
                None => Some(FinishStepModel::Ask(FinishQuestion::Current)),
                Some(Some(current)) => if current@ == main@ {
                    clean
                } else {
                    Some(
                        FinishStepModel::Refuse(
                            "the main checkout is on '"@ + current@ + "', not '"@ + main@
                                + "' — finish --merge only targets the main branch"@,
                        ),
                    )
                },
                Some(None) => Some(
                    FinishStepModel::Refuse(
                        "the main checkout is on a detached HEAD — check out '"@ + main@ + "' before finish --merge"@,
                    ),
                ),
            },
        }
    }
}

/// The runs of a finish: the merge, the removal, and a last pruning.
pub open spec fn finish_tasks(repo: Text, merge: Option<Text>, removed: Option<Text>, force: bool) -> Seq<TaskModel> {
    let merging = match merge {
        Some(branch) => Seq::<TaskModel>::empty().push(
            TaskModel {
                call: git_in(repo).arg("merge"@).arg("--no-edit"@).arg(branch),
                context: Some("merging "@ + branch + " into the main branch"@),
            },
        ),
        None => Seq::<TaskModel>::empty(),
    };
    let removing = match removed {
        Some(path) => merging.push(plain(removal(repo, path, force))),
        None => merging,
    };
    removing.push(plain(git_in(repo).arg("worktree"@).arg("prune"@)))
}

/// `git worktree remove`, forced where uncommitted changes may go.
pub open spec fn removal(repo: Text, path: Text, force: bool) -> InvocationModel {
    let opened = git_in(repo).arg("worktree"@).arg("remove"@);
    if force {
        opened.arg("--force"@).arg(path)
    } else {
        opened.arg(path)
    }
}

/// The next step of a finish: a dirty worktree is refused unless its changes may be thrown away, and a merge comes first.
pub open spec fn finish_spec(
    repo: Text,
    id: Text,
    ticket: Option<TicketModel>,
    force_discard: bool,
    merge: bool,
    facts: FinishFacts,
) -> FinishStepModel {
    match (ticket, facts.branch) {
        (None, _) => FinishStepModel::Refuse(id + " not found on the board"@),
        (Some(_), None) => FinishStepModel::Ask(FinishQuestion::Branch),
        (Some(t), Some(existing)) => {
            let branch = finish_branch(t, existing);
            let worktree = if branch is Some && facts.worktree is Some {
                opt_model(facts.worktree->Some_0)
            } else {
                None
            };
            if branch is Some && facts.worktree is None {
                FinishStepModel::Ask(FinishQuestion::Worktree)
            } else if worktree is Some && facts.dirty is None {
                FinishStepModel::Ask(FinishQuestion::Dirty)
            } else if worktree is Some && facts.dirty == Some(true) && !force_discard {
                FinishStepModel::Refuse(
                    "the worktree at "@ + worktree->Some_0
                        + " has uncommitted changes — commit them there, or pass --force-discard to throw them away"@,
                )
            } else if merge && merge_obstacle(id, branch, facts) is Some {
                merge_obstacle(id, branch, facts)->Some_0
            } else {
                FinishStepModel::Go(
                    FinishPlanModel {
                        branch,
                        merged: merge,
                        removed: worktree,
                        tasks: finish_tasks(
                            repo,
                            if merge {
                                branch
                            } else {
                                None
                            },
                            worktree,
                            force_discard,
                        ),
                    },
                )
            }
        },
    }
}

fn obstacle(id: &TicketId, branch: &Option<String>, facts: &FinishFacts) -> (r: Option<FinishStep>)
    ensures
        opt_model(r) == merge_obstacle(id@, opt_model(*branch), *facts),
{
    if branch.is_none() {
        return Some(FinishStep::Refuse(concat2(&id.0, " has no branch to merge")));
    }
    match &facts.main {
        None => return Some(FinishStep::Ask(FinishQuestion::Main)),
        Some(None) => {},
        Some(Some(main)) => match &facts.current {
            None => return Some(FinishStep::Ask(FinishQuestion::Current)),
            Some(Some(current)) => {
                if !same(current, main) {
                    return Some(
                        FinishStep::Refuse(
                            concat5(
                                "the main checkout is on '",
                                current,
                                "', not '",
                                main,
                                "' — finish --merge only targets the main branch",
                            ),
                        ),
                    );
                }
            },
            Some(None) => return Some(
                FinishStep::Refuse(
                    concat3(
                        "the main checkout is on a detached HEAD — check out '",
                        main,
                        "' before finish --merge",
                    ),
                ),
            ),
        },
    }
    match facts.main_dirty {
        None => Some(FinishStep::Ask(FinishQuestion::MainDirty)),
        Some(dirty) => {
            if dirty {
                Some(
                    FinishStep::Refuse(
                        "the main checkout has uncommitted changes — merge refused; commit or stash them first".to_owned(),
                    ),
                )
            } else {
                None
            }
        },
    }
}

fn removal_of(repo: &str, path: &str, force: bool) -> (r: Invocation)
    ensures
        r@ == removal(repo@, path@, force),
{
    let opened: Invocation = git(repo).arg("worktree").arg("remove");
    if force {
        opened.arg("--force").arg(path)
    } else {
        opened.arg(path)
    }
}

fn tasks_of_finish(repo: &str, merge: &Option<String>, removed: &Option<String>, force: bool) -> (r: Vec<Task>)
    ensures
        models(r@) == finish_tasks(repo@, opt_model(*merge), opt_model(*removed), force),
{
    let mut out: Vec<Task> = Vec::new();
    match merge {
        Some(branch) => out.push(
            Task {
                call: git(repo).arg("merge").arg("--no-edit").arg(branch),
                context: Some(concat3("merging ", branch, " into the main branch")),
            },
        ),
        None => {},
    }
    match removed {
        Some(path) => out.push(task(removal_of(repo, path, force))),
        None => {},
    }
    out.push(task(git(repo).arg("worktree").arg("prune")));
    out
}

/// Remove the ticket's worktree, refusing a dirty one unless `force_discard`, and merge its branch first when `merge`: the
/// next step, given what is known. The branch always survives.
pub fn finish(
    repo: &str,
    id: &TicketId,
    ticket: Option<&Ticket>,
    force_discard: bool,
    merge: bool,
    facts: &FinishFacts,
) -> (r: FinishStep)
    ensures
        r@ == finish_spec(
            repo@,
            id@,
            match ticket {
                Some(t) => Some(t@),
                None => None,
            },
            force_discard,
            merge,
            *facts,
        ),
{
    let t: &Ticket = match ticket {
        Some(t) => t,
        None => return FinishStep::Refuse(concat2(&id.0, " not found on the board")),
    };
    let existing: &Option<String> = match &facts.branch {
        Some(b) => b,
        None => return FinishStep::Ask(FinishQuestion::Branch),
    };
    let branch: Option<String> = match t.column.branch() {
        Some(b) => Some(b.to_owned()),
        None => crate::store::model::clone_opt(existing),
    };
    let mut worktree: Option<String> = None;
    if branch.is_some() {
        match &facts.worktree {
            Some(w) => {
                worktree = crate::store::model::clone_opt(w);
            },
            None => return FinishStep::Ask(FinishQuestion::Worktree),
        }
    }
    match &worktree {
        Some(path) => match facts.dirty {
            None => return FinishStep::Ask(FinishQuestion::Dirty),
            Some(dirty) => {
                if dirty && !force_discard {
                    return FinishStep::Refuse(
                        concat3(
                            "the worktree at ",
                            path,
                            " has uncommitted changes — commit them there, or pass --force-discard to throw them away",
                        ),
                    );
                }
            },
        },
        None => {},
    }
    let mut merging: Option<String> = None;
    if merge {
        match obstacle(id, &branch, facts) {
            Some(step) => return step,
            None => {},
        }
        merging = crate::store::model::clone_opt(&branch);
    }
    let tasks: Vec<Task> = tasks_of_finish(repo, &merging, &worktree, force_discard);
    FinishStep::Go(FinishPlan { branch, merged: merge, removed: worktree, tasks })
}

/// `git status` of the main checkout. The board is tracked and changes constantly: that is the tracker doing its job, not
/// user work at risk, and so it does not count.
pub fn ask_main_status(repo: &str) -> (r: Invocation)
    ensures
        r@ == git_in(repo@).arg("status"@).arg("--porcelain"@).arg("--"@).arg("."@).arg(":(exclude).kanban"@),
{
    git(repo).arg("status").arg("--porcelain").arg("--").arg(".").arg(":(exclude).kanban")
}

/// What a finish did. The branch is the headline: it survives, and integrating it is the user's next step.
#[derive(Debug)]
pub struct FinishReport {
    pub ticket: String,
    pub branch: Option<String>,
    pub merged: bool,
    /// The worktree that was removed, if one still existed.
    pub removed: Option<String>,
}

/// What is left when the plan of a finish has been carried out: the path comes off the claim, and the report.
pub fn finished(id: &TicketId, plan: FinishPlan) -> (r: (Op, FinishReport))
    ensures
        r.0 matches Op::ClearWorktreePath { id: of } && of@ == id@,
        r.1.ticket@ == id@ && opt_model(r.1.branch) == plan@.branch && r.1.merged == plan@.merged && opt_model(r.1.removed)
            == plan@.removed,
{
    (
        Op::ClearWorktreePath { id: id.clone() },
        FinishReport { ticket: id.to_string(), branch: plan.branch, merged: plan.merged, removed: plan.removed },
    )
}

// ---- retiring -------------------------------------------------------------------------------------------------------

/// Where a ticket's worktree stands: the registered one on the branch of the card.
pub fn path_for(es: &Vec<WorktreeEntry>, ticket: &Ticket) -> (r: Option<String>)
    ensures
        opt_model(r) == registered(models(es@), ticket@),
{
    match ticket.column.branch() {
        Some(b) => live_worktree_for(es, b),
        None => None,
    }
}

/// The registered worktree on the branch of a card.
pub open spec fn registered(es: Seq<WorktreeEntryModel>, t: TicketModel) -> Option<Text> {
    match t.column.branch() {
        Some(b) => live_from(es, b, 1),
        None => None,
    }
}

/// The worktree that keeps a ticket from being closed out: the one on its branch, when `git status` prints anything there.
pub fn dirty_worktree(path: Option<String>, status: Option<&str>) -> (r: Option<String>)
    ensures
        opt_model(r) == if status matches Some(s) && s@.len() > 0 {
            opt_model(path)
        } else {
            None
        },
{
    match status {
        Some(s) => {
            if s.is_empty() {
                None
            } else {
                path
            }
        },
        None => None,
    }
}

/// What becomes of the worktree of a ticket that landed or was discarded.
#[derive(Debug)]
pub enum Retirement {
    /// There is none.
    Nothing,
    /// It goes; the branch, being what the card keeps, stays.
    Remove(Vec<Task>),
    /// It holds uncommitted work, so it stays and the card says where it is.
    Keep(Op),
}

/// The note on a card whose worktree could not be retired.
pub open spec fn kept_note(path: Text) -> Text {
    "the worktree at "@ + path + " has uncommitted changes — left where it is; commit or discard them, then remove it"@
}

/// Retire a finished ticket's worktree: remove it, unless somebody's uncommitted work is in it.
pub fn retire(repo: &str, id: &TicketId, path: Option<&str>, dirty: bool) -> (r: Retirement)
    ensures
        match path {
            None => r is Nothing,
            Some(p) => if dirty {
                r matches Retirement::Keep(op) && crate::ops::is_note(op, id@, kept_note(p@), "kanban"@)
            } else {
                r matches Retirement::Remove(tasks) && models(tasks@) == finish_tasks(repo@, None, Some(p@), false)
            },
        },
{
    match path {
        None => Retirement::Nothing,
        Some(p) => {
            if dirty {
                let text: String = concat3(
                    "the worktree at ",
                    p,
                    " has uncommitted changes — left where it is; commit or discard them, then remove it",
                );
                Retirement::Keep(crate::ops::note_op(id, text))
            } else {
                Retirement::Remove(tasks_of_finish(repo, &None, &Some(p.to_owned()), false))
            }
        },
    }
}

// ---- listing --------------------------------------------------------------------------------------------------------

/// A registered worktree with what the disk and git say of it: whether its directory is gone, and what `git status`
/// printed where that could be asked.
#[derive(Debug)]
pub struct Checkout {
    pub path: String,
    pub branch: Option<String>,
    pub missing: bool,
    pub status: Option<String>,
}

pub struct CheckoutModel {
    pub path: Text,
    pub branch: Option<Text>,
    pub missing: bool,
    pub status: Option<Text>,
}

impl View for Checkout {
    type V = CheckoutModel;

    open spec fn view(&self) -> CheckoutModel {
        CheckoutModel {
            path: self.path@,
            branch: opt_model(self.branch),
            missing: self.missing,
            status: opt_model(self.status),
        }
    }
}

/// One row of the listing: a ticket worktree joined with its claim.
#[derive(Debug, PartialEq, Eq)]
pub struct WorktreeRow {
    /// The ticket this branch belongs to, when the branch follows the `k-<n>/…` scheme.
    pub ticket: Option<String>,
    pub branch: String,
    pub path: String,
    /// Uncommitted changes in the worktree.
    pub dirty: bool,
    /// The registered path no longer exists on disk.
    pub missing: bool,
    /// Who claims the ticket.
    pub agent: Option<String>,
}

pub struct WorktreeRowModel {
    pub ticket: Option<Text>,
    pub branch: Text,
    pub path: Text,
    pub dirty: bool,
    pub missing: bool,
    pub agent: Option<Text>,
}

impl View for WorktreeRow {
    type V = WorktreeRowModel;

    open spec fn view(&self) -> WorktreeRowModel {
        WorktreeRowModel {
            ticket: opt_model(self.ticket),
            branch: self.branch@,
            path: self.path@,
            dirty: self.dirty,
            missing: self.missing,
            agent: opt_model(self.agent),
        }
    }
}

/// Who claims a ticket.
pub open spec fn agent_of(claims: Seq<ClaimModel>, ticket: Option<Text>) -> Option<Text> {
    match ticket {
        Some(t) => match found(claims, t) {
            Some(c) => Some(c.agent),
            None => None,
        },
        None => None,
    }
}

/// The row of one checkout on a branch.
pub open spec fn row(c: CheckoutModel, branch: Text, claims: Seq<ClaimModel>) -> WorktreeRowModel {
    WorktreeRowModel {
        ticket: ticket_of_branch(branch),
        branch,
        path: c.path,
        dirty: !c.missing && (c.status matches Some(s) && s.len() > 0),
        missing: c.missing,
        agent: agent_of(claims, ticket_of_branch(branch)),
    }
}

/// The rows of the checkouts that are on a branch, the main checkout aside.
pub open spec fn checkout_rows(cs: Seq<CheckoutModel>, claims: Seq<ClaimModel>) -> Seq<WorktreeRowModel>
    decreases cs.len(),
{
    if cs.len() <= 1 {
        Seq::empty()
    } else {
        let before = checkout_rows(cs.drop_last(), claims);
        match cs.last().branch {
            Some(branch) => before.push(row(cs.last(), branch, claims)),
            None => before,
        }
    }
}

/// Some row is on `ticket`.
pub open spec fn has_row(rows: Seq<WorktreeRowModel>, ticket: Text) -> bool {
    exists|i: int| 0 <= i < rows.len() && (#[trigger] rows[i]).ticket == Some(ticket)
}

/// The rows of claims on a path that no checkout accounts for: the worktree has vanished entirely.
pub open spec fn orphan_rows(rows: Seq<WorktreeRowModel>, claims: Seq<ClaimModel>) -> Seq<WorktreeRowModel>
    decreases claims.len(),
{
    if claims.len() == 0 {
        Seq::empty()
    } else {
        let before = orphan_rows(rows, claims.drop_last());
        let c = claims.last();
        match c.path {
            Some(path) => if has_row(rows, c.ticket) {
                before
            } else {
                before.push(
                    WorktreeRowModel {
                        ticket: Some(c.ticket),
                        branch: Seq::empty(),
                        path,
                        dirty: false,
                        missing: true,
                        agent: Some(c.agent),
                    },
                )
            },
            None => before,
        }
    }
}

/// The rows of the checkouts, then those of the claims that have none.
pub open spec fn rows_spec(cs: Seq<CheckoutModel>, claims: Seq<ClaimModel>) -> Seq<WorktreeRowModel> {
    checkout_rows(cs, claims) + orphan_rows(checkout_rows(cs, claims), claims)
}

fn row_of(c: &Checkout, branch: &str, claims: &[Claim]) -> (r: WorktreeRow)
    ensures
        r@ == row(c@, branch@, models(claims@)),
{
    let ticket: Option<String> = ticket_for_branch(branch);
    let agent: Option<String> = match &ticket {
        Some(t) => match find(claims, &TicketId(t.clone())) {
            Some(claim) => Some(claim.agent.clone()),
            None => None,
        },
        None => None,
    };
    let dirty: bool = match &c.status {
        Some(s) => !c.missing && !s.as_str().is_empty(),
        None => false,
    };
    WorktreeRow { ticket, branch: branch.to_owned(), path: c.path.clone(), dirty, missing: c.missing, agent }
}

fn any_row(rows: &Vec<WorktreeRow>, ticket: &TicketId) -> (r: bool)
    ensures
        r == has_row(models(rows@), ticket@),
{
    let ghost all = models(rows@);
    let mut i: usize = 0;
    while i < rows.len()
        invariant
            all == models(rows@),
            i <= rows@.len(),
            forall|j: int| 0 <= j < i ==> (#[trigger] all[j]).ticket != Some(ticket@),
        decreases rows@.len() - i,
    {
        assert(all[i as int] == rows@[i as int]@);
        match &rows[i].ticket {
            Some(t) => {
                if same(t, &ticket.0) {
                    return true;
                }
            },
            None => {},
        }
        i = i + 1;
    }
    false
}

/// Every registered ticket worktree joined with the live claims, and the claims whose worktree has vanished entirely:
/// those show as missing rather than not at all. The first checkout is the main one and has no row.
pub fn list(checkouts: &Vec<Checkout>, claims: &Vec<Claim>) -> (r: Vec<WorktreeRow>)
    ensures
        models(r@) == rows_spec(models(checkouts@), models(claims@)),
{
    let ghost cs = models(checkouts@);
    let ghost held = models(claims@);
    let mut rows: Vec<WorktreeRow> = Vec::new();
    let mut i: usize = 0;
    while i < checkouts.len()
        invariant
            cs == models(checkouts@),
            held == models(claims@),
            i <= checkouts@.len(),
            models(rows@) == checkout_rows(cs.take(i as int), held),
        decreases checkouts@.len() - i,
    {
        proof {
            assert(cs.take(i + 1).drop_last() =~= cs.take(i as int));
            assert(cs.take(i + 1).last() == checkouts@[i as int]@);
        }
        if i > 0 {
            match &checkouts[i].branch {
                Some(branch) => rows.push(row_of(&checkouts[i], branch, claims)),
                None => {},
            }
        }
        i = i + 1;
    }
    assert(cs.take(cs.len() as int) =~= cs);
    let ghost kept = models(rows@);
    let mut orphaned: Vec<WorktreeRow> = Vec::new();
    let mut k: usize = 0;
    while k < claims.len()
        invariant
            kept == models(rows@),
            held == models(claims@),
            k <= claims@.len(),
            models(orphaned@) == orphan_rows(kept, held.take(k as int)),
        decreases claims@.len() - k,
    {
        proof {
            assert(held.take(k + 1).drop_last() =~= held.take(k as int));
            assert(held.take(k + 1).last() == claims@[k as int]@);
        }
        let c: &Claim = &claims[k];
        match &c.path {
            Some(path) => {
                if !any_row(&rows, &c.ticket) {
                    orphaned.push(
                        WorktreeRow {
                            ticket: Some(c.ticket.to_string()),
                            branch: String::new(),
                            path: path.clone(),
                            dirty: false,
                            missing: true,
                            agent: Some(c.agent.clone()),
                        },
                    );
                }
            },
            None => {},
        }
        k = k + 1;
    }
    assert(held.take(held.len() as int) =~= held);
    rows.append(&mut orphaned);
    rows
}

// ---- laws -----------------------------------------------------------------------------------------------------------

/// A character a slug may hold: a lower-case ASCII letter, a digit, or a hyphen.
pub open spec fn slug_char(c: char) -> bool {
    ('a' <= c && c <= 'z') || ('0' <= c && c <= '9') || c == '-'
}

/// Every character satisfies `slug_char`.
pub open spec fn slug_text(s: Text) -> bool {
    forall|i: int| 0 <= i < s.len() ==> slug_char(#[trigger] s[i])
}

/// Only ASCII letters and digits, at least one.
pub open spec fn word(w: Text) -> bool {
    w.len() > 0 && forall|i: int| 0 <= i < w.len() ==> is_alnum(#[trigger] w[i])
}

/// Every one of the texts is a word.
pub open spec fn all_words(ws: Seq<Text>) -> bool {
    forall|i: int| 0 <= i < ws.len() ==> word(#[trigger] ws[i])
}

proof fn lemma_slug_words(s: Text)
    ensures
        all_words(slug_words(s).0),
        slug_words(s).1.len() > 0 ==> word(slug_words(s).1),
    decreases s.len(),
{
    if s.len() > 0 {
        lemma_slug_words(s.drop_last());
    }
}

/// Letters, digits and hyphens.
pub open spec fn slug_stem(s: Text) -> bool {
    forall|i: int| 0 <= i < s.len() ==> is_alnum(#[trigger] s[i]) || s[i] == '-'
}

/// How many hyphens the text holds.
pub open spec fn hyphens(s: Text) -> nat
    decreases s.len(),
{
    if s.len() == 0 {
        0
    } else {
        hyphens(s.drop_last()) + if s.last() == '-' {
            1nat
        } else {
            0nat
        }
    }
}

/// No two hyphens stand next to each other.
pub open spec fn hyphens_apart(s: Text) -> bool {
    forall|i: int, j: int| 0 <= i && j == i + 1 && j < s.len() ==> #[trigger] s[i] != '-' || #[trigger] s[j] != '-'
}

proof fn lemma_hyphens_joined(a: Text, b: Text)
    ensures
        hyphens(a + b) == hyphens(a) + hyphens(b),
    decreases b.len(),
{
    if b.len() == 0 {
        assert(a + b =~= a);
    } else {
        assert((a + b).drop_last() =~= a + b.drop_last());
        lemma_hyphens_joined(a, b.drop_last());
    }
}

proof fn lemma_hyphens_alike(a: Text, b: Text)
    requires
        a.len() == b.len(),
        forall|i: int| 0 <= i < a.len() ==> (#[trigger] a[i] == '-') == (b[i] == '-'),
    ensures
        hyphens(a) == hyphens(b),
    decreases a.len(),
{
    if a.len() > 0 {
        assert(a[a.len() - 1] == '-' <==> b[b.len() - 1] == '-');
        lemma_hyphens_alike(a.drop_last(), b.drop_last());
    }
}

proof fn lemma_no_hyphens(w: Text)
    requires
        forall|i: int| 0 <= i < w.len() ==> is_alnum(#[trigger] w[i]),
    ensures
        hyphens(w) == 0,
    decreases w.len(),
{
    if w.len() > 0 {
        assert(is_alnum(w[w.len() - 1]));
        lemma_no_hyphens(w.drop_last());
    }
}

proof fn lemma_joined_words(ws: Seq<Text>)
    requires
        all_words(ws),
    ensures
        slug_stem(join_spec(ws, "-"@)),
        hyphens_apart(join_spec(ws, "-"@)),
        ws.len() > 0 ==> hyphens(join_spec(ws, "-"@)) + 1 == ws.len() && is_alnum(join_spec(ws, "-"@).last()),
        ws.len() > 0 ==> join_spec(ws, "-"@).len() > 0 && is_alnum(join_spec(ws, "-"@)[0]),
    decreases ws.len(),
{
    reveal_strlit("-");
    if ws.len() > 0 {
        lemma_joined_words(ws.drop_last());
        assert(word(ws.last()));
        lemma_no_hyphens(ws.last());
        let before = join_spec(ws.drop_last(), "-"@);
        lemma_hyphens_joined(before, "-"@);
        lemma_hyphens_joined(before + "-"@, ws.last());
        assert("-"@.drop_last() =~= Seq::<char>::empty());
        assert(hyphens("-"@) == 1) by {
            reveal_with_fuel(hyphens, 2);
        }
    }
}

proof fn lemma_trimmed(s: Text)
    requires
        slug_text(s),
        hyphens_apart(s),
        s.len() > 0 ==> s[0] != '-',
    ensures
        slug_text(trim_end_of_spec(s, "-"@)),
        hyphens_apart(trim_end_of_spec(s, "-"@)),
        hyphens(trim_end_of_spec(s, "-"@)) <= hyphens(s),
        trim_end_of_spec(s, "-"@).len() <= s.len(),
        trim_end_of_spec(s, "-"@).len() > 0 ==> trim_end_of_spec(s, "-"@)[0] == s[0] && trim_end_of_spec(s, "-"@).last() != '-',
    decreases s.len(),
{
    reveal_strlit("-");
    assert("-"@[0] == '-');
    if s.len() > 0 && s.last() == '-' {
        assert("-"@.contains(s.last()));
        lemma_trimmed(s.drop_last());
    }
}

/// A slug always makes a branch name: one to 24 characters, all of them lower-case ASCII letters, digits or hyphens, with
/// no hyphen at either end, no two hyphens in a row, and at most two of them.
pub proof fn slugs_are_branch_safe(title: Text)
    ensures
        1 <= slug(title).len() <= 24,
        slug_text(slug(title)),
        slug(title)[0] != '-' && slug(title).last() != '-',
        hyphens_apart(slug(title)),
        hyphens(slug(title)) <= 2,
{
    lemma_slug_words(title);
    let ws = at_most(weighty_words(title), 3);
    lemma_joined_words(ws);
    let long = join_spec(ws, "-"@);
    let low = ascii_lowered(long);
    assert(slug_text(low));
    let short = at_most(low, 24);
    reveal_strlit("work");
    if short.len() > 0 {
        if ws.len() == 0 {
            assert(long =~= Seq::<char>::empty());
        }
        assert(short[0] == low[0]);
    }
    lemma_hyphens_alike(long, low);
    lemma_hyphens_joined(short, low.subrange(short.len() as int, low.len() as int));
    assert(low =~= short + low.subrange(short.len() as int, low.len() as int));
    lemma_no_hyphens("work"@);
    lemma_trimmed(short);
}

proof fn lemma_digits(n: nat)
    ensures
        all_digits(decimal(n)),
        decimal(n).len() > 0,
    decreases n,
{
    if n >= 10 {
        lemma_digits(n / 10);
    }
}

/// One past the greatest number that so many hexadecimal digits can write.
spec fn hex_room(digits: nat) -> nat
    decreases digits,
{
    if digits == 0 {
        1
    } else {
        16 * hex_room((digits - 1) as nat)
    }
}

proof fn lemma_hex_differs(m: nat, n: nat, digits: nat)
    requires
        m < hex_room(digits),
        n < hex_room(digits),
        hex(m, digits) == hex(n, digits),
    ensures
        m == n,
    decreases digits,
{
    if digits > 0 {
        let d = (digits - 1) as nat;
        assert(hex(m, digits).last() == hex_digit(m % 16) && hex(n, digits).last() == hex_digit(n % 16));
        assert(hex(m, digits).drop_last() =~= hex(m / 16, d));
        assert(hex(n, digits).drop_last() =~= hex(n / 16, d));
        lemma_hex_differs(m / 16, n / 16, d);
    }
}

proof fn lemma_hex_text(n: nat, digits: nat)
    ensures
        hex(n, digits).len() == digits,
        digits > 0 ==> hex(n, digits).last() != '/',
    decreases digits,
{
    if digits > 0 {
        lemma_hex_text(n / 16, (digits - 1) as nat);
    }
}

/// The hash keeps two repositories of one name apart: under one root, worktrees of different hashes never share a path. The
/// id must be relative, as an absolute one is a path of its own.
pub proof fn same_named_repositories_are_kept_apart(root: Text, repo_name: Option<Text>, one: u32, other: u32, id: Text)
    requires
        one != other,
        !(id.len() > 0 && id[0] == '/'),
    ensures
        path_spec(root, repo_name, one, id) != path_spec(root, repo_name, other, id),
{
    reveal_strlit("-");
    reveal_strlit("/");
    let name = match repo_name {
        Some(n) => n,
        None => "repo"@,
    };
    let (a, b) = (hex(one as nat, 8), hex(other as nat, 8));
    lemma_hex_text(one as nat, 8);
    lemma_hex_text(other as nat, 8);
    let (x, y) = (name + "-"@ + a, name + "-"@ + b);
    let (p, q) = (crate::store::joined(root, x), crate::store::joined(root, y));
    assert(x[0] == y[0]);
    assert(p.subrange(p.len() - 8, p.len() as int) =~= a);
    assert(q.subrange(q.len() - 8, q.len() as int) =~= b);
    assert(p.last() == a.last() && q.last() == b.last());
    let (s, t) = (path_spec(root, repo_name, one, id), path_spec(root, repo_name, other, id));
    assert(s == p + "/"@ + id && t == q + "/"@ + id);
    assert(s.subrange(0, p.len() as int) =~= p);
    assert(t.subrange(0, q.len() as int) =~= q);
    if s == t {
        assert(p.len() == q.len());
        assert(hex_room(8) == 4294967296) by {
            reveal_with_fuel(hex_room, 9);
        }
        lemma_hex_differs(one as nat, other as nat, 8);
    }
}

/// Branch to ticket is unambiguous: the branch made for a ticket, whatever the slug, belongs to that ticket.
pub proof fn a_branch_names_its_ticket(n: nat, slug: Text)
    ensures
        ticket_of_branch(branch_name(crate::store::model::ticket_name(n), slug)) == Some(
            crate::store::model::ticket_name(n),
        ),
{
    reveal_strlit("K-");
    reveal_strlit("k-");
    reveal_strlit("/");
    lemma_digits(n);
    let id = crate::store::model::ticket_name(n);
    let d = decimal(n);
    assert(id == "K-"@ + d);
    assert(crate::text::is_ascii(id)) by {
        assert forall|i: int| 0 <= i < id.len() implies (#[trigger] id[i] as u32) < 128 by {
            if i >= 2 {
                assert(id[i] == d[i - 2]);
            }
        }
    }
    let low = lowered(id);
    assert(low =~= "k-"@ + d) by {
        assert forall|i: int| 0 <= i < low.len() implies low[i] == ("k-"@ + d)[i] by {
            if i >= 2 {
                assert(id[i] == d[i - 2]);
            }
        }
    }
    let branch = low + "/"@ + slug;
    assert forall|i: int| 0 <= i < low.len() implies branch[i] != '/' by {
        if i >= 2 {
            assert(branch[i] == d[i - 2]);
        }
    }
    assert(branch[low.len() as int] == '/');
    crate::seqs::lemma_position(branch, '/', low.len() as int);
    assert(branch.subrange(0, low.len() as int) =~= low);
    assert(low.subrange(0, 2) =~= "k-"@);
    assert(low.subrange(2, low.len() as int) =~= d);
}

/// Finishing a worktree runs no git command but a merge and the worktree commands, and so the branch always survives.
pub proof fn finishing_keeps_the_branch(
    repo: Text,
    id: Text,
    ticket: Option<TicketModel>,
    force_discard: bool,
    merge: bool,
    facts: FinishFacts,
)
    ensures
        finish_spec(repo, id, ticket, force_discard, merge, facts) matches FinishStepModel::Go(plan) ==> forall|i: int|
            0 <= i < plan.tasks.len() ==> (#[trigger] plan.tasks[i]).call.program == "git"@ && (plan.tasks[i].call.args[0]
                == "merge"@ || plan.tasks[i].call.args[0] == "worktree"@),
{
}

/// Uncommitted work is only ever thrown away on request: a worktree is removed where it was found clean, or where
/// discarding was asked for, and only then is the removal forced.
pub proof fn dirty_worktrees_go_only_on_request(
    repo: Text,
    id: Text,
    ticket: Option<TicketModel>,
    force_discard: bool,
    merge: bool,
    facts: FinishFacts,
)
    ensures
        finish_spec(repo, id, ticket, force_discard, merge, facts) matches FinishStepModel::Go(plan) ==> plan.removed is Some
            ==> facts.dirty == Some(false) || force_discard,
{
}

/// A merge happens only onto the integration branch, where there is one, and only onto a clean main checkout.
pub proof fn merges_reach_only_the_main_branch(
    repo: Text,
    id: Text,
    ticket: Option<TicketModel>,
    force_discard: bool,
    merge: bool,
    facts: FinishFacts,
)
    ensures
        finish_spec(repo, id, ticket, force_discard, merge, facts) matches FinishStepModel::Go(plan) ==> plan.merged ==> {
            &&& facts.main_dirty == Some(false)
            &&& facts.main is Some
            &&& facts.main->Some_0 matches Some(main) ==> facts.current matches Some(Some(current)) && current@ == main@
        },
{
}

/// Running a start again where the worktree is alive changes nothing: no command is run, and the same branch and path are
/// reported.
pub proof fn starting_again_reuses_the_worktree(
    repo: Text,
    id: Text,
    ticket: Option<TicketModel>,
    opts: StartOpts,
    at: Text,
    facts: StartFacts,
    branch: String,
    live: String,
)
    requires
        facts.branch == Some(Some(branch)),
        facts.worktree == Some(Some(live)),
    ensures
        start_spec(repo, id, ticket, opts, at, facts) matches StartStepModel::Go(plan) ==> plan.tasks.len() == 0
            && plan.branch == branch@ && plan.path == live@ && plan.reattached,
{
}

/// No sparse worktree ever holds a board file: it is created without a checkout, and the first command in it excludes the
/// board.
pub proof fn sparse_worktrees_never_see_the_board(
    repo: Text,
    id: Text,
    ticket: Option<TicketModel>,
    opts: StartOpts,
    at: Text,
    facts: StartFacts,
)
    ensures
        start_spec(repo, id, ticket, opts, at, facts) matches StartStepModel::Go(plan) ==> plan.sparse && plan.tasks.len() > 0
            ==> {
            &&& plan.tasks.len() == 3
            &&& plan.tasks[0].call.args.contains("--no-checkout"@)
            &&& plan.tasks[1].call == git_in(plan.path).arg("sparse-checkout"@).arg("set"@).arg("--no-cone"@).arg("/*"@).arg(
                "!/.kanban/"@,
            )
        },
{
    match start_spec(repo, id, ticket, opts, at, facts) {
        StartStepModel::Go(plan) => {
            if plan.sparse && plan.tasks.len() > 0 {
                assert(plan.tasks[0].call.args[0int + 2] == "--no-checkout"@);
            }
        },
        _ => {},
    }
}

/// Only a local ticket in `doing` is ever given a worktree.
pub proof fn only_claimed_local_tickets_are_started(
    repo: Text,
    id: Text,
    ticket: Option<TicketModel>,
    opts: StartOpts,
    at: Text,
    facts: StartFacts,
)
    ensures
        start_spec(repo, id, ticket, opts, at, facts) is Refuse <==> !(ticket matches Some(t) && t.external is None
            && t.column.id() == ColumnId::Doing),
{
}

/// No claim on a path is left out of the listing.
pub proof fn every_claim_on_a_path_is_listed(cs: Seq<CheckoutModel>, claims: Seq<ClaimModel>, i: int)
    requires
        0 <= i < claims.len(),
        claims[i].path is Some,
    ensures
        has_row(rows_spec(cs, claims), claims[i].ticket),
{
    let rows = checkout_rows(cs, claims);
    let orphans = orphan_rows(rows, claims);
    let ticket = claims[i].ticket;
    if has_row(rows, ticket) {
        let k = choose|k: int| 0 <= k < rows.len() && (#[trigger] rows[k]).ticket == Some(ticket);
        assert((rows + orphans)[k] == rows[k]);
    } else {
        lemma_orphan(rows, claims, i);
        let k = choose|k: int| 0 <= k < orphans.len() && (#[trigger] orphans[k]).ticket == Some(ticket);
        assert((rows + orphans)[rows.len() + k] == orphans[k]);
    }
}

proof fn lemma_orphan(rows: Seq<WorktreeRowModel>, claims: Seq<ClaimModel>, i: int)
    requires
        0 <= i < claims.len(),
        claims[i].path is Some,
        !has_row(rows, claims[i].ticket),
    ensures
        has_row(orphan_rows(rows, claims), claims[i].ticket),
    decreases claims.len(),
{
    let all = orphan_rows(rows, claims);
    let before = orphan_rows(rows, claims.drop_last());
    let ticket = claims[i].ticket;
    if i < claims.len() - 1 {
        lemma_orphan(rows, claims.drop_last(), i);
        let k = choose|k: int| 0 <= k < before.len() && (#[trigger] before[k]).ticket == Some(ticket);
        assert(all[k] == before[k]);
    } else {
        assert(all.last().ticket == Some(ticket));
        assert(all[all.len() - 1].ticket == Some(ticket));
    }
}

// ---- what a start and a finish come to ------------------------------------------------------------------------------

/// A run of git in `dir` with these arguments, free to prompt.
pub open spec fn runs(call: InvocationModel, dir: Text, args: Seq<Text>) -> bool {
    call.program == "git"@ && call.dir == dir && call.args == args && !call.silenced
}

/// A ticket on the board, worked here, and in `doing` is never refused a worktree; any other is, and is told why.
pub proof fn a_start_is_refused_only_for_the_ticket(
    repo: Text,
    id: Text,
    ticket: Option<TicketModel>,
    opts: StartOpts,
    at: Text,
    facts: StartFacts,
)
    ensures
        ({
            let step = start_spec(repo, id, ticket, opts, at, facts);
            &&& ticket is None ==> step == StartStepModel::Refuse(id + " not found on the board"@)
            &&& ticket is Some && (ticket->0).external is Some ==> step == StartStepModel::Refuse(
                id + " is external — it is worked elsewhere and never gets a worktree here"@,
            )
            &&& ticket is Some && (ticket->0).external is None && !((ticket->0).column is Doing) ==> step
                == StartStepModel::Refuse(
                id + " is not in doing — claim it first (kanban_claim, or drag it to doing on the board)"@,
            )
            &&& ticket is Some && (ticket->0).external is None && (ticket->0).column is Doing ==> !(step is Refuse)
        }),
{
}

/// What is asked is what is not known yet: to prune first, then the version of git where it matters, the branch, and where
/// that branch is alive. Nothing is asked twice, so a start comes to an end.
pub proof fn a_start_asks_what_it_lacks(
    repo: Text,
    id: Text,
    ticket: TicketModel,
    opts: StartOpts,
    at: Text,
    facts: StartFacts,
)
    requires
        ticket.external is None && ticket.column is Doing,
    ensures
        ({
            let step = start_spec(repo, id, Some(ticket), opts, at, facts);
            &&& step == StartStepModel::Ask(StartQuestion::Prune) <==> !facts.pruned
            &&& step == StartStepModel::Ask(StartQuestion::Version) <==> facts.pruned && facts.version is None
                && !opts.no_sparse
            &&& step == StartStepModel::Ask(StartQuestion::Branch) <==> facts.pruned && (facts.version is Some
                || opts.no_sparse) && facts.branch is None
            &&& step == StartStepModel::Ask(StartQuestion::Worktree) <==> facts.pruned && (facts.version is Some
                || opts.no_sparse) && facts.branch is Some && facts.branch->0 is Some && facts.worktree is None
        }),
{
}

/// A fresh worktree is made on a fresh branch that carries the ticket's number, from the base asked for or else from `HEAD`.
/// Without a slug of its own the branch takes one from the title.
pub proof fn a_first_start_branches_off(
    repo: Text,
    id: Text,
    ticket: TicketModel,
    opts: StartOpts,
    at: Text,
    facts: StartFacts,
)
    requires
        ticket.external is None && ticket.column is Doing,
        facts.pruned && facts.version is Some && facts.branch == Some(None::<String>),
    ensures
        ({
            let step = start_spec(repo, id, Some(ticket), opts, at, facts);
            let plan = step->Go_0;
            let base = match opts.base {
                Some(b) => b@,
                None => "HEAD"@,
            };
            &&& step is Go
            &&& plan.path == at && !plan.reattached
            &&& opts.slug is Some ==> plan.branch == lowered(id) + "/"@ + (opts.slug->0)@
            &&& opts.slug is None ==> plan.branch == lowered(id) + "/"@ + slug(ticket.title)
            &&& plan.sparse ==> plan.tasks.len() == 3 && runs(
                plan.tasks[0].call,
                repo,
                seq!["worktree"@, "add"@, "--no-checkout"@, at, "-b"@, plan.branch, base],
            ) && runs(
                plan.tasks[1].call,
                at,
                seq!["sparse-checkout"@, "set"@, "--no-cone"@, "/*"@, "!/.kanban/"@],
            ) && runs(plan.tasks[2].call, at, seq!["checkout"@])
            &&& !plan.sparse ==> plan.tasks.len() == 1 && runs(
                plan.tasks[0].call,
                repo,
                seq!["worktree"@, "add"@, at, "-b"@, plan.branch, base],
            )
        }),
{
    let branch = (start_spec(repo, id, Some(ticket), opts, at, facts)->Go_0).branch;
    let base = match opts.base {
        Some(b) => b@,
        None => "HEAD"@,
    };
    lemma_added(repo, at, branch, Some(base), true);
    lemma_added(repo, at, branch, Some(base), false);
    assert(seq!["worktree"@, "add"@, "--no-checkout"@, at] + seq!["-b"@, branch, base] =~= seq![
        "worktree"@,
        "add"@,
        "--no-checkout"@,
        at,
        "-b"@,
        branch,
        base,
    ]);
    assert(seq!["worktree"@, "add"@, at] + seq!["-b"@, branch, base] =~= seq!["worktree"@, "add"@, at, "-b"@, branch, base]);
}

/// A ticket that has a branch goes on with it: in the worktree where the branch is alive, with nothing to run, or else in a
/// new one on that very branch.
pub proof fn a_later_start_goes_on_with_the_branch(
    repo: Text,
    id: Text,
    ticket: TicketModel,
    opts: StartOpts,
    at: Text,
    facts: StartFacts,
)
    requires
        ticket.external is None && ticket.column is Doing,
        facts.pruned && facts.version is Some && facts.worktree is Some,
        facts.branch is Some && facts.branch->0 is Some,
    ensures
        ({
            let step = start_spec(repo, id, Some(ticket), opts, at, facts);
            let plan = step->Go_0;
            let branch = (facts.branch->0->0)@;
            let live = facts.worktree->0;
            &&& step is Go
            &&& plan.branch == branch && plan.reattached
            &&& live is Some ==> plan.path == (live->0)@ && plan.tasks.len() == 0
            &&& live is None ==> plan.path == at
            &&& live is None && plan.sparse ==> plan.tasks.len() == 3 && runs(
                plan.tasks[0].call,
                repo,
                seq!["worktree"@, "add"@, "--no-checkout"@, at, branch],
            ) && runs(
                plan.tasks[1].call,
                at,
                seq!["sparse-checkout"@, "set"@, "--no-cone"@, "/*"@, "!/.kanban/"@],
            ) && runs(plan.tasks[2].call, at, seq!["checkout"@])
            &&& live is None && !plan.sparse ==> plan.tasks.len() == 1 && runs(
                plan.tasks[0].call,
                repo,
                seq!["worktree"@, "add"@, at, branch],
            )
        }),
{
    let branch = (facts.branch->0->0)@;
    lemma_added(repo, at, branch, None, true);
    lemma_added(repo, at, branch, None, false);
    assert(seq!["worktree"@, "add"@, "--no-checkout"@, at] + seq![branch] =~= seq![
        "worktree"@,
        "add"@,
        "--no-checkout"@,
        at,
        branch,
    ]);
    assert(seq!["worktree"@, "add"@, at] + seq![branch] =~= seq!["worktree"@, "add"@, at, branch]);
}

proof fn lemma_added(repo: Text, path: Text, branch: Text, base: Option<Text>, sparse: bool)
    ensures
        ({
            let tasks = add_tasks(repo, path, branch, base, sparse);
            let opened = if sparse {
                seq!["worktree"@, "add"@, "--no-checkout"@, path]
            } else {
                seq!["worktree"@, "add"@, path]
            };
            let args = match base {
                Some(b) => opened + seq!["-b"@, branch, b],
                None => opened + seq![branch],
            };
            &&& runs(tasks[0].call, repo, args)
            &&& tasks[0].context == Some("creating the worktree at "@ + path)
            &&& sparse ==> tasks.len() == 3 && runs(
                tasks[1].call,
                path,
                seq!["sparse-checkout"@, "set"@, "--no-cone"@, "/*"@, "!/.kanban/"@],
            ) && runs(tasks[2].call, path, seq!["checkout"@])
            &&& !sparse ==> tasks.len() == 1
        }),
{
    let opened = if sparse {
        seq!["worktree"@, "add"@, "--no-checkout"@, path]
    } else {
        seq!["worktree"@, "add"@, path]
    };
    let args = match base {
        Some(b) => opened + seq!["-b"@, branch, b],
        None => opened + seq![branch],
    };
    let tasks = add_tasks(repo, path, branch, base, sparse);
    assert(tasks[0].call.args =~= args);
    if sparse {
        assert(tasks[1].call.args =~= seq!["sparse-checkout"@, "set"@, "--no-cone"@, "/*"@, "!/.kanban/"@]);
        assert(tasks[2].call.args =~= seq!["checkout"@]);
    }
}

/// A worktree is sparse exactly when nobody asked for a full one and git is at 2.36 or later; a full one that nobody asked
/// for comes with a warning.
pub proof fn a_worktree_is_sparse_where_git_can(
    repo: Text,
    id: Text,
    ticket: Option<TicketModel>,
    opts: StartOpts,
    at: Text,
    facts: StartFacts,
)
    ensures
        start_spec(repo, id, ticket, opts, at, facts) matches StartStepModel::Go(plan) ==> {
            let able = facts.version is Some && facts.version->0 is Some && {
                let v = facts.version->0->0;
                v.0 > 2 || v.0 == 2 && v.1 >= 36
            };
            &&& plan.sparse == (!opts.no_sparse && able)
            &&& plan.warnings.len() == if plan.sparse || opts.no_sparse {
                0int
            } else {
                1
            }
        },
{
}

/// A finish goes on with the branch on the card, or with the one that git has for the ticket. Uncommitted work stops it
/// unless it may be thrown away; a merge takes a branch, a clean main checkout, and that checkout on the main branch where
/// there is one. Nothing else stops a finish for which all is known.
pub proof fn a_finish_goes_on_unless_something_is_at_stake(
    repo: Text,
    id: Text,
    ticket: TicketModel,
    force_discard: bool,
    merge: bool,
    facts: FinishFacts,
)
    requires
        facts.branch is Some && facts.worktree is Some && facts.dirty is Some,
        facts.main is Some && facts.current is Some && facts.main_dirty is Some,
    ensures
        ({
            let step = finish_spec(repo, id, Some(ticket), force_discard, merge, facts);
            let branch = if ticket.column.branch() is Some {
                ticket.column.branch()
            } else {
                opt_model(facts.branch->0)
            };
            let path = if branch is Some {
                opt_model(facts.worktree->0)
            } else {
                None
            };
            let spared = path is None || facts.dirty == Some(false) || force_discard;
            let aimed = opt_model(facts.main->0) is None || opt_model(facts.current->0) == opt_model(facts.main->0);
            &&& !(step is Ask)
            &&& step is Go <==> spared && (merge ==> branch is Some && aimed && facts.main_dirty == Some(false))
            &&& step is Go ==> {
                let plan = step->Go_0;
                plan.branch == branch && plan.removed == path && plan.merged == merge
            }
        }),
{
    assert(facts.dirty == Some(true) || facts.dirty == Some(false));
    assert(facts.main_dirty == Some(true) || facts.main_dirty == Some(false));
    let branch = finish_branch(ticket, facts.branch->0);
    if merge && branch is Some {
        match (facts.main->0, facts.current->0) {
            (Some(main), Some(current)) => {
                assert(opt_model(facts.main->0) == Some(main@) && opt_model(facts.current->0) == Some(current@));
            },
            (_, _) => {},
        }
    }
}

/// What a finish runs, in this order: the merge where one is asked for, the removal where there is something to remove,
/// and a pruning.
pub proof fn a_finish_merges_removes_and_prunes(
    repo: Text,
    id: Text,
    ticket: Option<TicketModel>,
    force_discard: bool,
    merge: bool,
    facts: FinishFacts,
)
    ensures
        finish_spec(repo, id, ticket, force_discard, merge, facts) matches FinishStepModel::Go(plan) ==> {
            let first = if merge {
                1int
            } else {
                0
            };
            let second = if plan.removed is Some {
                first + 1
            } else {
                first
            };
            &&& plan.tasks.len() == second + 1
            &&& merge ==> plan.branch is Some && runs(
                plan.tasks[0].call,
                repo,
                seq!["merge"@, "--no-edit"@, plan.branch->0],
            )
            &&& plan.removed is Some && force_discard ==> runs(
                plan.tasks[first].call,
                repo,
                seq!["worktree"@, "remove"@, "--force"@, plan.removed->0],
            )
            &&& plan.removed is Some && !force_discard ==> runs(
                plan.tasks[first].call,
                repo,
                seq!["worktree"@, "remove"@, plan.removed->0],
            )
            &&& runs(plan.tasks[second].call, repo, seq!["worktree"@, "prune"@])
        },
{
    if let FinishStepModel::Go(plan) = finish_spec(repo, id, ticket, force_discard, merge, facts) {
        if plan.removed is Some {
            let call = removal(repo, plan.removed->0, force_discard);
            if force_discard {
                assert(call.args =~= seq!["worktree"@, "remove"@, "--force"@, plan.removed->0]);
            } else {
                assert(call.args =~= seq!["worktree"@, "remove"@, plan.removed->0]);
            }
        }
        if merge {
            assert(plan.tasks[0].call.args =~= seq!["merge"@, "--no-edit"@, plan.branch->0]);
        }
        assert(plan.tasks.last().call.args =~= seq!["worktree"@, "prune"@]);
    }
}

/// A finish asks only for what it lacks, and only where the answer matters: where the branch is alive when there is one,
/// whether that worktree is dirty, and the main checkout's state when merging.
pub proof fn a_finish_asks_what_it_lacks(
    repo: Text,
    id: Text,
    ticket: Option<TicketModel>,
    force_discard: bool,
    merge: bool,
    facts: FinishFacts,
)
    ensures
        ticket is None <==> finish_spec(repo, id, ticket, force_discard, merge, facts) == FinishStepModel::Refuse(
            id + " not found on the board"@,
        ) && ticket is None,
        finish_spec(repo, id, ticket, force_discard, merge, facts) matches FinishStepModel::Ask(q) ==> ticket is Some
            && match q {
            FinishQuestion::Branch => facts.branch is None,
            FinishQuestion::Worktree => facts.worktree is None,
            FinishQuestion::Dirty => facts.dirty is None && facts.worktree is Some && facts.worktree->0 is Some,
            FinishQuestion::Main => merge && facts.main is None,
            FinishQuestion::Current => merge && facts.current is None && facts.main is Some && facts.main->0 is Some,
            FinishQuestion::MainDirty => merge && facts.main_dirty is None,
        },
{
}

// ---- what is listed -------------------------------------------------------------------------------------------------

/// The worktrees listed are the checkouts on a branch, the main checkout aside, in their order, and after them the claims
/// on a path that no checkout accounts for. A checkout is dirty when git prints something of it, and belongs to the ticket
/// its branch names; who claims that ticket is shown beside it.
pub proof fn the_list_joins_checkouts_and_claims(cs: Seq<CheckoutModel>, claims: Seq<ClaimModel>)
    requires
        cs.len() > 0,
    ensures
        ({
            let shown = cs.skip(1).filter(|c: CheckoutModel| c.branch is Some).map_values(
                |c: CheckoutModel|
                    WorktreeRowModel {
                        ticket: ticket_of_branch(c.branch->0),
                        branch: c.branch->0,
                        path: c.path,
                        dirty: !c.missing && c.status is Some && (c.status->0).len() > 0,
                        missing: c.missing,
                        agent: if ticket_of_branch(c.branch->0) is Some && found(claims, ticket_of_branch(c.branch->0)->0) is Some {
                            Some((found(claims, ticket_of_branch(c.branch->0)->0)->0).agent)
                        } else {
                            None
                        },
                    },
            );
            rows_spec(cs, claims) == shown + claims.filter(
                |c: ClaimModel| c.path is Some && !has_row(shown, c.ticket),
            ).map_values(
                |c: ClaimModel|
                    WorktreeRowModel {
                        ticket: Some(c.ticket),
                        branch: Seq::empty(),
                        path: c.path->0,
                        dirty: false,
                        missing: true,
                        agent: Some(c.agent),
                    },
            )
        }),
{
    lemma_checkout_rows(cs, claims);
    lemma_orphan_rows(checkout_rows(cs, claims), claims);
}

proof fn lemma_checkout_rows(cs: Seq<CheckoutModel>, claims: Seq<ClaimModel>)
    requires
        cs.len() > 0,
    ensures
        checkout_rows(cs, claims) == cs.skip(1).filter(|c: CheckoutModel| c.branch is Some).map_values(
            |c: CheckoutModel|
                WorktreeRowModel {
                    ticket: ticket_of_branch(c.branch->0),
                    branch: c.branch->0,
                    path: c.path,
                    dirty: !c.missing && c.status is Some && (c.status->0).len() > 0,
                    missing: c.missing,
                    agent: if ticket_of_branch(c.branch->0) is Some && found(claims, ticket_of_branch(c.branch->0)->0) is Some {
                        Some((found(claims, ticket_of_branch(c.branch->0)->0)->0).agent)
                    } else {
                        None
                    },
                },
        ),
    decreases cs.len(),
{
    reveal(Seq::filter);
    let on = |c: CheckoutModel| c.branch is Some;
    let line = |c: CheckoutModel|
        WorktreeRowModel {
            ticket: ticket_of_branch(c.branch->0),
            branch: c.branch->0,
            path: c.path,
            dirty: !c.missing && c.status is Some && (c.status->0).len() > 0,
            missing: c.missing,
            agent: if ticket_of_branch(c.branch->0) is Some && found(claims, ticket_of_branch(c.branch->0)->0) is Some {
                Some((found(claims, ticket_of_branch(c.branch->0)->0)->0).agent)
            } else {
                None
            },
        };
    if cs.len() > 1 {
        lemma_checkout_rows(cs.drop_last(), claims);
        assert(cs.skip(1).drop_last() =~= cs.drop_last().skip(1));
        assert(cs.skip(1).last() == cs.last());
        let before = cs.skip(1).drop_last().filter(on);
        if on(cs.last()) {
            assert(before.push(cs.last()).map_values(line) =~= before.map_values(line).push(line(cs.last())));
        }
    } else {
        assert(cs.skip(1) =~= Seq::empty());
        assert(cs.skip(1).filter(on).map_values(line) =~= Seq::<WorktreeRowModel>::empty());
    }
}

proof fn lemma_orphan_rows(rows: Seq<WorktreeRowModel>, claims: Seq<ClaimModel>)
    ensures
        orphan_rows(rows, claims) == claims.filter(|c: ClaimModel| c.path is Some && !has_row(rows, c.ticket)).map_values(
            |c: ClaimModel|
                WorktreeRowModel {
                    ticket: Some(c.ticket),
                    branch: Seq::empty(),
                    path: c.path->0,
                    dirty: false,
                    missing: true,
                    agent: Some(c.agent),
                },
        ),
    decreases claims.len(),
{
    reveal(Seq::filter);
    let lost = |c: ClaimModel| c.path is Some && !has_row(rows, c.ticket);
    let line = |c: ClaimModel|
        WorktreeRowModel {
            ticket: Some(c.ticket),
            branch: Seq::empty(),
            path: c.path->0,
            dirty: false,
            missing: true,
            agent: Some(c.agent),
        };
    if claims.len() > 0 {
        lemma_orphan_rows(rows, claims.drop_last());
        let before = claims.drop_last().filter(lost);
        if lost(claims.last()) {
            assert(before.push(claims.last()).map_values(line) =~= before.map_values(line).push(line(claims.last())));
        }
    } else {
        assert(claims.filter(lost).map_values(line) =~= Seq::<WorktreeRowModel>::empty());
    }
}

/// A branch is alive in the first worktree that is on it, the main checkout never counting; it is alive nowhere exactly
/// when no worktree is on it.
pub proof fn a_branch_is_alive_where_it_is_checked_out(es: Seq<WorktreeEntryModel>, branch: Text, from: int)
    requires
        0 <= from,
    ensures
        live_from(es, branch, from) is None <==> forall|i: int|
            from <= i < es.len() ==> (#[trigger] es[i]).branch != Some(branch),
        forall|i: int|
            from <= i < es.len() && (#[trigger] es[i]).branch == Some(branch) && (forall|j: int|
                from <= j < i ==> (#[trigger] es[j]).branch != Some(branch)) ==> live_from(es, branch, from) == Some(
                es[i].path,
            ),
    decreases es.len() - from,
{
    if from < es.len() {
        a_branch_is_alive_where_it_is_checked_out(es, branch, from + 1);
    }
}

/// The branch on the card decides where its worktree stands; a card without one has none.
pub proof fn a_card_has_the_worktree_of_its_branch(es: Seq<WorktreeEntryModel>, t: TicketModel)
    ensures
        t.column.branch() is None ==> registered(es, t) is None,
        t.column.branch() matches Some(b) ==> (registered(es, t) is Some <==> exists|i: int|
            1 <= i < es.len() && (#[trigger] es[i]).branch == Some(b)),
{
    if let Some(b) = t.column.branch() {
        a_branch_is_alive_where_it_is_checked_out(es, b, 1);
    }
}

/// What git lists is read stanza by stanza: a `worktree` line opens one at its path, a `branch` line puts the last one
/// opened on its branch, and every other line is passed over.
pub proof fn stanzas_are_read_in_order(lines: Seq<Text>, value: Text, other: Text)
    requires
        strip_prefix_spec(other, "worktree "@) is None && strip_prefix_spec(other, "branch refs/heads/"@) is None,
    ensures
        entries(Seq::<Text>::empty()).len() == 0,
        entries(lines.push("worktree "@ + value)) == entries(lines).push(WorktreeEntryModel { path: value, branch: None }),
        entries(lines.push("branch refs/heads/"@ + value)).len() == entries(lines).len(),
        entries(lines).len() > 0 ==> entries(lines.push("branch refs/heads/"@ + value)) == entries(lines).drop_last().push(
            WorktreeEntryModel { path: entries(lines).last().path, branch: Some(value) },
        ),
        entries(lines.push(other)) == entries(lines),
{
    reveal_strlit("worktree ");
    reveal_strlit("branch refs/heads/");
    let opening = "worktree "@ + value;
    let naming = "branch refs/heads/"@ + value;
    assert(lines.push(opening).drop_last() =~= lines);
    assert(lines.push(naming).drop_last() =~= lines);
    assert(lines.push(other).drop_last() =~= lines);
    assert(opening.take("worktree "@.len() as int) =~= "worktree "@);
    assert(opening.skip("worktree "@.len() as int) =~= value);
    assert(naming.take("branch refs/heads/"@.len() as int) =~= "branch refs/heads/"@);
    assert(naming.skip("branch refs/heads/"@.len() as int) =~= value);
    assert(naming[0] == 'b');
    assert("worktree "@[0] == 'w');
    assert(strip_prefix_spec(opening, "worktree "@) == Some(value));
    assert(strip_prefix_spec(naming, "worktree "@) is None);
    assert(strip_prefix_spec(naming, "branch refs/heads/"@) == Some(value));
    if entries(lines).len() > 0 {
        assert(entries(lines.push(naming)) =~= entries(lines).drop_last().push(
            WorktreeEntryModel { path: entries(lines).last().path, branch: Some(value) },
        ));
    }
}

// ---- which words a slug takes ---------------------------------------------------------------------------------------

/// A character that is no ASCII letter or digit parts two words: the weighty words on its left come first, then those on
/// its right.
pub proof fn a_separator_parts_the_words(left: Text, between: char, right: Text)
    requires
        !is_alnum(between),
    ensures
        weighty_words(left.push(between) + right) == weighty_words(left) + weighty_words(right),
{
    lemma_words_apart(left, between, right);
    let whole = slug_words(left.push(between) + right);
    let tail = slug_words(right);
    assert(weighty_words(left) + with_weighty(tail.0, tail.1) =~= with_weighty(weighty_words(left) + tail.0, tail.1));
}

proof fn lemma_words_apart(left: Text, between: char, right: Text)
    requires
        !is_alnum(between),
    ensures
        slug_words(left.push(between) + right).0 == weighty_words(left) + slug_words(right).0,
        slug_words(left.push(between) + right).1 == slug_words(right).1,
    decreases right.len(),
{
    let whole = left.push(between) + right;
    if right.len() == 0 {
        assert(whole =~= left.push(between));
        assert(whole.drop_last() =~= left);
        assert(weighty_words(left) + Seq::<Text>::empty() =~= weighty_words(left));
    } else {
        lemma_words_apart(left, between, right.drop_last());
        assert(whole.drop_last() =~= left.push(between) + right.drop_last());
        assert(whole.last() == right.last());
        let before = slug_words(right.drop_last());
        assert(weighty_words(left) + with_weighty(before.0, before.1) =~= with_weighty(
            weighty_words(left) + before.0,
            before.1,
        ));
    }
}

/// A run of ASCII letters and digits is one word. It counts when it has two characters or more and is, whatever its case,
/// no stopword.
pub proof fn a_run_of_letters_is_one_word(word: Text)
    requires
        forall|i: int| 0 <= i < word.len() ==> is_alnum(#[trigger] word[i]),
    ensures
        word.len() >= 2 && !stopword(ascii_lowered(word)) ==> weighty_words(word) == seq![word],
        word.len() < 2 || stopword(ascii_lowered(word)) ==> weighty_words(word).len() == 0,
{
    lemma_one_run(word);
}

proof fn lemma_one_run(word: Text)
    requires
        forall|i: int| 0 <= i < word.len() ==> is_alnum(#[trigger] word[i]),
    ensures
        slug_words(word).0 == Seq::<Text>::empty() && slug_words(word).1 == word,
    decreases word.len(),
{
    if word.len() > 0 {
        lemma_one_run(word.drop_last());
        assert(word.drop_last().push(word.last()) =~= word);
    } else {
        assert(word =~= Seq::empty());
    }
}

/// The words that carry no weight are exactly these.
pub proof fn the_stopwords(w: Text)
    ensures
        stopword(w) <==> seq![
            "a"@,
            "an"@,
            "and"@,
            "at"@,
            "based"@,
            "be"@,
            "by"@,
            "for"@,
            "from"@,
            "in"@,
            "into"@,
            "is"@,
            "of"@,
            "on"@,
            "or"@,
            "the"@,
            "to"@,
            "with"@,
        ].contains(w),
{
    let all = seq![
        "a"@,
        "an"@,
        "and"@,
        "at"@,
        "based"@,
        "be"@,
        "by"@,
        "for"@,
        "from"@,
        "in"@,
        "into"@,
        "is"@,
        "of"@,
        "on"@,
        "or"@,
        "the"@,
        "to"@,
        "with"@,
    ];
    assert(all[0] == "a"@ && all[1] == "an"@ && all[2] == "and"@ && all[3] == "at"@ && all[4] == "based"@ && all[5] == "be"@);
    assert(all[6] == "by"@ && all[7] == "for"@ && all[8] == "from"@ && all[9] == "in"@ && all[10] == "into"@ && all[11] == "is"@);
    assert(all[12] == "of"@ && all[13] == "on"@ && all[14] == "or"@ && all[15] == "the"@ && all[16] == "to"@ && all[17] == "with"@);
    if all.contains(w) {
        let i = choose|i: int| 0 <= i < all.len() && all[i] == w;
        assert(all[i] == w);
    }
}

/// A file is copied into a worktree exactly when it is a file and git ignores it.
pub proof fn only_ignored_files_are_copied(entry: Text, is_file: bool, ignored: bool)
    ensures
        copy_refusal(entry, is_file, ignored) is None <==> is_file && ignored,
{
}

/// A ticket's branch is the first that git lists, and none where it lists nothing; a worktree that stays behind is named on
/// the card.
pub proof fn the_first_branch_listed_counts(out: Text, path: Text)
    ensures
        lines_spec(out).len() == 0 ==> first_line(out) is None,
        lines_spec(out).len() > 0 ==> first_line(out) == Some(lines_spec(out)[0]),
        kept_note(path) == "the worktree at "@ + path
            + " has uncommitted changes — left where it is; commit or discard them, then remove it"@,
{
}

/// A branch belongs to a ticket only where it is written `k-`, digits, a slash and the rest; any other branch is nobody's.
pub proof fn other_branches_are_nobodys(branch: Text)
    ensures
        !branch.contains('/') ==> ticket_of_branch(branch) is None,
        !has_prefix(branch, "k-"@) ==> ticket_of_branch(branch) is None,
        ticket_of_branch(branch) matches Some(id) ==> has_prefix(id, "K-"@) && id.len() > 2 && all_digits(
            id.subrange(2, id.len() as int),
        ) && has_prefix(branch, "k-"@ + id.subrange(2, id.len() as int) + "/"@),
{
    reveal_strlit("k-");
    reveal_strlit("K-");
    reveal_strlit("/");
    if branch.contains('/') {
        crate::seqs::lemma_position_least(branch, '/');
        let at = crate::seqs::position(branch, '/');
        let head = branch.subrange(0, at);
        if let Some(n) = strip_prefix_spec(head, "k-"@) {
            assert(branch.subrange(0, 2) =~= head.subrange(0, 2));
            let id = "K-"@ + n;
            assert(id.subrange(0, 2) =~= "K-"@);
            assert(id.subrange(2, id.len() as int) =~= n);
            assert(head =~= "k-"@ + n) by {
                assert(head.subrange(0, 2) =~= "k-"@);
                assert(head =~= head.subrange(0, 2) + head.subrange(2, head.len() as int));
            }
            let whole = "k-"@ + n + "/"@;
            assert(branch.subrange(0, whole.len() as int) =~= whole);
        }
    }
}

} // verus!
