//! Opening a pull request: who may, what is run for it, and what it says.
//!
//! Everything that leaves the machine here does so on an explicit click. The text of the request is the ticket's own: its
//! spec, then its progress log.
use vstd::prelude::*;

use crate::git::{git, git_in, invoking, GitError, GitErrorModel, Invocation, InvocationModel};
use crate::json::{found, get, list_reading, member, parse_list, string, text_opt, Json, JsonModel};
use crate::ops::{is_set_pr, Op};
use crate::seqs::{models, opt_model};
use crate::store::model::{ColumnId, ColumnModel, Note, NoteModel, PrModel, PrRef, PrState, Ticket, TicketId, TicketModel};
use crate::text::{
    behind_text, behind_text_spec, concat2, concat3, concat4, concat5, decimal, decimal_reads_back,
    digits_stand_behind_their_segment, join, join_spec, lines, lines_spec, number_upto, parse_upto, same, trim_end_of,
    trim_end_of_spec, Text,
};
use crate::time::{human_time, shown};
use crate::worktree::{Task, TaskModel};

verus! {

broadcast use crate::seqs::group_models;

/// What a click came to: the request's URL, and whether this click created it.
#[derive(Debug, PartialEq, Eq)]
pub struct PrReport {
    pub url: String,
    pub created: bool,
}

// ---- gh -------------------------------------------------------------------------------------------------------------

/// A run of gh in `repo`, forbidden to prompt, without arguments so far.
pub open spec fn gh_in(repo: Text) -> InvocationModel {
    invoking("gh"@, repo).silently()
}

/// A run of gh in `repo`, forbidden to prompt, without arguments so far.
pub fn gh(repo: &str) -> (r: Invocation)
    ensures
        r@ == gh_in(repo@),
{
    Invocation::new("gh", repo).silently()
}

/// What a failed run of gh is reported as: install advice where gh is missing.
pub open spec fn gh_failure(e: GitErrorModel) -> Text {
    match e {
        GitErrorModel::Spawn { missing, .. } => if missing {
            "GitHub CLI (gh) not found — install it, or push the branch manually"@
        } else {
            e.message()
        },
        _ => e.message(),
    }
}

/// What a run of gh came to.
pub fn gh_answer(answer: Result<String, GitError>) -> (r: Result<String, String>)
    ensures
        match answer {
            Ok(out) => r == Ok::<String, String>(out),
            Err(e) => r matches Err(text) && text@ == gh_failure(e@),
        },
{
    match answer {
        Ok(out) => Ok(out),
        Err(e) => {
            match &e {
                GitError::Spawn { missing, .. } => {
                    if *missing {
                        return Err("GitHub CLI (gh) not found — install it, or push the branch manually".to_owned());
                    }
                },
                _ => {},
            }
            Err(e.to_string())
        },
    }
}

// ---- who may --------------------------------------------------------------------------------------------------------

/// The branch a ticket may open a request from: a review ticket's, unless it is worked elsewhere.
pub open spec fn offered_branch(t: TicketModel) -> Option<Text> {
    if t.column.id() == ColumnId::Review && t.external is None {
        t.column.branch()
    } else {
        None
    }
}

/// The branch a ticket may open a request from, or be diffed by.
pub fn branch_on_offer(t: &Ticket) -> (r: Option<String>)
    ensures
        opt_model(r) == offered_branch(t@),
{
    if t.column.id() == ColumnId::Review && t.external.is_none() {
        t.column.branch_owned()
    } else {
        None
    }
}

/// Whether the button shows: a review ticket worked here, whose branch still exists locally, in a repository with a
/// remote.
pub fn eligible(t: &Ticket, has_remote: bool, branch_exists: bool) -> (r: bool)
    ensures
        r == (offered_branch(t@) is Some && has_remote && branch_exists),
{
    branch_on_offer(t).is_some() && has_remote && branch_exists
}

/// Whether git lists any remote. A failing git counts as none.
pub fn has_remote(answer: &Result<String, GitError>) -> (r: bool)
    ensures
        r == (crate::git::printed(*answer) matches Some(out) && out.len() > 0),
{
    match answer {
        Ok(out) => !out.as_str().is_empty(),
        Err(_) => false,
    }
}

/// The remote to push to: `origin` when present, else the first listed.
pub open spec fn remote_spec(remotes: Seq<Text>) -> Option<Text> {
    if remotes.contains("origin"@) {
        Some("origin"@)
    } else if remotes.len() > 0 {
        Some(remotes[0])
    } else {
        None
    }
}

/// The remote to push to.
pub fn pick_remote(out: &str) -> (r: Result<String, String>)
    ensures
        match r {
            Ok(remote) => remote_spec(lines_spec(out@)) == Some(remote@),
            Err(e) => remote_spec(lines_spec(out@)) is None && e@ == "this repository has no git remote to push to"@,
        },
{
    let remotes: Vec<String> = lines(out);
    let ghost all = models(remotes@);
    let mut i: usize = 0;
    while i < remotes.len()
        invariant
            all == models(remotes@),
            all == lines_spec(out@),
            i <= remotes@.len(),
            forall|j: int| 0 <= j < i ==> #[trigger] all[j] != "origin"@,
        decreases remotes@.len() - i,
    {
        assert(all[i as int] == remotes@[i as int]@);
        if same(&remotes[i], "origin") {
            return Ok("origin".to_owned());
        }
        i = i + 1;
    }
    if remotes.len() == 0 {
        return Err("this repository has no git remote to push to".to_owned());
    }
    assert(all[0] == remotes@[0]@);
    Ok(remotes[0].clone())
}

// ---- what it says ---------------------------------------------------------------------------------------------------

/// One line of the progress log.
pub open spec fn note_line(n: NoteModel) -> Text {
    match n.author {
        Some(author) => "- "@ + shown(n.at) + " — "@ + author + (": "@ + n.text),
        None => "- "@ + shown(n.at) + ": "@ + n.text,
    }
}

/// The lines of a progress log.
pub open spec fn note_lines(ns: Seq<NoteModel>) -> Seq<Text> {
    Seq::new(ns.len(), |i: int| note_line(ns[i]))
}

/// The text of a request: the ticket's spec verbatim, then its progress log if it has one.
pub open spec fn body_spec(t: TicketModel) -> Text {
    let spec = "## "@ + t.id + ": "@ + t.title + ("\n\n"@ + t.body);
    if t.notes.len() == 0 {
        spec
    } else {
        spec + "\n\n## Progress\n\n"@ + join_spec(note_lines(t.notes), "\n"@)
    }
}

fn line_of(n: &Note) -> (r: String)
    ensures
        r@ == note_line(n@),
{
    let at: String = human_time(n.at);
    match &n.author {
        Some(author) => concat5("- ", &at, " — ", author, &concat2(": ", &n.text)),
        None => concat4("- ", &at, ": ", &n.text),
    }
}

/// The text of the request for a ticket.
pub fn pr_body(t: &Ticket) -> (r: String)
    ensures
        r@ == body_spec(t@),
{
    let spec: String = concat5("## ", &t.id.0, ": ", &t.title, &concat2("\n\n", &t.body));
    if t.notes.len() == 0 {
        return spec;
    }
    let ghost ns = models(t.notes@);
    let mut out: Vec<String> = Vec::new();
    let mut i: usize = 0;
    while i < t.notes.len()
        invariant
            ns == models(t.notes@),
            i <= t.notes@.len(),
            out@.len() == i,
            forall|j: int| 0 <= j < i ==> (#[trigger] out@[j])@ == note_line(ns[j]),
        decreases t.notes@.len() - i,
    {
        assert(ns[i as int] == t.notes@[i as int]@);
        out.push(line_of(&t.notes[i]));
        i = i + 1;
    }
    assert(models(out@) =~= note_lines(ns));
    concat3(&spec, "\n\n## Progress\n\n", &join(&out, "\n"))
}

/// The number at the end of a `…/pull/<n>` URL.
pub open spec fn pull_number(url: Text) -> Option<nat> {
    match behind_text_spec(url, "/pull/"@) {
        Some(n) => number_upto(trim_end_of_spec(n, "/"@), u64::MAX as nat),
        None => None,
    }
}

/// The operation that records a freshly opened request on its ticket, where its URL gives a number.
pub fn bind(id: &TicketId, url: &str) -> (r: Option<Op>)
    ensures
        match pull_number(url@) {
            Some(n) => r matches Some(op) && is_set_pr(
                op,
                id@,
                PrModel { number: n as u64, url: url@, state: PrState::Open, merged_commit: None },
            ),
            None => r is None,
        },
{
    let rest: String = match behind_text(url, "/pull/") {
        Some(n) => n,
        None => return None,
    };
    match parse_upto(&trim_end_of(&rest, "/"), u64::MAX) {
        Some(number) => {
            let pr: PrRef = PrRef { number, url: url.to_owned(), state: PrState::Open, merged_commit: None };
            Some(Op::SetPr { id: id.clone(), pr: Some(pr) })
        },
        None => None,
    }
}

// ---- the click ------------------------------------------------------------------------------------------------------

/// What a click may need to find out before it can go on.
#[derive(Debug, Clone, Copy, PartialEq, Eq, Structural)]
pub enum PrQuestion {
    /// Whether the ticket's branch exists locally.
    Branch,
    /// What `git remote` lists.
    Remotes,
    /// The URL of a request that is open for the branch already.
    Open,
}

/// What is known so far.
#[derive(Debug)]
pub struct PrFacts {
    pub branch_exists: Option<bool>,
    pub remotes: Option<String>,
    pub open: Option<Option<String>>,
}

impl Default for PrFacts {
    fn default() -> (r: PrFacts)
        ensures
            r.branch_exists is None && r.remotes is None && r.open is None,
    {
        PrFacts { branch_exists: None, remotes: None, open: None }
    }
}

/// The next step of a click.
#[derive(Debug)]
pub enum PrStep {
    /// Find something out about this branch.
    Ask(PrQuestion, String),
    Refuse(String),
    /// A request is open already: nothing is pushed.
    Found(PrReport),
    /// Push the branch, then create the request; what the second run prints is its URL.
    Go(Task, Task),
}

pub enum PrStepModel {
    Ask(PrQuestion, Text),
    Refuse(Text),
    Found { url: Text, created: bool },
    Go(TaskModel, TaskModel),
}

impl View for PrStep {
    type V = PrStepModel;

    open spec fn view(&self) -> PrStepModel {
        match self {
            PrStep::Ask(q, branch) => PrStepModel::Ask(*q, branch@),
            PrStep::Refuse(why) => PrStepModel::Refuse(why@),
            PrStep::Found(report) => PrStepModel::Found { url: report.url@, created: report.created },
            PrStep::Go(push, create) => PrStepModel::Go(push@, create@),
        }
    }
}

/// Pushing a branch.
pub open spec fn push_task(repo: Text, remote: Text, branch: Text) -> TaskModel {
    TaskModel {
        call: git_in(repo).arg("push"@).arg("-u"@).arg(remote).arg(branch).silently(),
        context: Some("pushing "@ + branch + " to "@ + remote),
    }
}

/// Creating the request.
pub open spec fn create_task(repo: Text, branch: Text, t: TicketModel) -> TaskModel {
    TaskModel {
        call: gh_in(repo).arg("pr"@).arg("create"@).arg("--head"@).arg(branch).arg("--title"@).arg(
            t.id + ": "@ + t.title,
        ).arg("--body"@).arg(body_spec(t)),
        context: Some("creating the PR for "@ + branch),
    }
}

/// The next step of a click: everything the button's visibility rested on is checked again, an open request is reported
/// rather than updated, and only then is anything pushed.
pub open spec fn create_spec(repo: Text, id: Text, ticket: Option<TicketModel>, facts: PrFacts) -> PrStepModel {
    match ticket {
        None => PrStepModel::Refuse(id + " not found on the board"@),
        Some(t) => if t.column.id() != ColumnId::Review || t.column.branch() is None {
            PrStepModel::Refuse(id + " is not a review ticket with a branch — nothing to open a PR from"@)
        } else if t.external is Some {
            PrStepModel::Refuse(id + " is external — its PRs are worked elsewhere"@)
        } else {
            let branch = t.column.branch()->Some_0;
            match (facts.branch_exists, facts.remotes, facts.open) {
                (None, _, _) => PrStepModel::Ask(PrQuestion::Branch, branch),
                (Some(false), _, _) => PrStepModel::Refuse(
                    "branch "@ + branch + " no longer exists locally — already merged and deleted?"@,
                ),
                (Some(true), None, _) => PrStepModel::Ask(PrQuestion::Remotes, branch),
                (Some(true), Some(remotes), open) => match remote_spec(lines_spec(remotes@)) {
                    None => PrStepModel::Refuse("this repository has no git remote to push to"@),
                    Some(remote) => match open {
                        None => PrStepModel::Ask(PrQuestion::Open, branch),
                        Some(Some(url)) => PrStepModel::Found { url: url@, created: false },
                        Some(None) => PrStepModel::Go(
                            push_task(repo, remote, branch),
                            create_task(repo, branch, t),
                        ),
                    },
                },
            }
        },
    }
}

/// Push the ticket's branch and open a request for it, unless one is open: the next step, given what is known.
pub fn create_pr(repo: &str, id: &TicketId, ticket: Option<&Ticket>, facts: &PrFacts) -> (r: PrStep)
    ensures
        r@ == create_spec(
            repo@,
            id@,
            match ticket {
                Some(t) => Some(t@),
                None => None,
            },
            *facts,
        ),
{
    let t: &Ticket = match ticket {
        Some(t) => t,
        None => return PrStep::Refuse(concat2(&id.0, " not found on the board")),
    };
    if t.column.id() != ColumnId::Review {
        return PrStep::Refuse(
            concat2(&id.0, " is not a review ticket with a branch — nothing to open a PR from"),
        );
    }
    let branch: &str = match t.column.branch() {
        Some(b) => b,
        None => return PrStep::Refuse(
            concat2(&id.0, " is not a review ticket with a branch — nothing to open a PR from"),
        ),
    };
    if t.external.is_some() {
        return PrStep::Refuse(concat2(&id.0, " is external — its PRs are worked elsewhere"));
    }
    match facts.branch_exists {
        None => return PrStep::Ask(PrQuestion::Branch, branch.to_owned()),
        Some(alive) => {
            if !alive {
                return PrStep::Refuse(
                    concat3("branch ", branch, " no longer exists locally — already merged and deleted?"),
                );
            }
        },
    }
    let remotes: &String = match &facts.remotes {
        Some(out) => out,
        None => return PrStep::Ask(PrQuestion::Remotes, branch.to_owned()),
    };
    let remote: String = match pick_remote(remotes) {
        Ok(remote) => remote,
        Err(why) => return PrStep::Refuse(why),
    };
    match &facts.open {
        None => PrStep::Ask(PrQuestion::Open, branch.to_owned()),
        Some(Some(url)) => PrStep::Found(PrReport { url: url.clone(), created: false }),
        Some(None) => {
            let push: Task = Task {
                call: git(repo).arg("push").arg("-u").arg(&remote).arg(branch).silently(),
                context: Some(concat4("pushing ", branch, " to ", &remote)),
            };
            let title: String = concat3(&t.id.0, ": ", &t.title);
            let body: String = pr_body(t);
            let create: Task = Task {
                call: gh(repo).arg("pr").arg("create").arg("--head").arg(branch).arg("--title").arg(&title).arg(
                    "--body",
                ).arg(&body),
                context: Some(concat2("creating the PR for ", branch)),
            };
            PrStep::Go(push, create)
        },
    }
}

/// `gh pr list` of the open requests for a branch.
pub fn ask_open_pr(repo: &str, branch: &str) -> (r: Invocation)
    ensures
        r@ == gh_in(repo@).arg("pr"@).arg("list"@).arg("--head"@).arg(branch@).arg("--state"@).arg("open"@).arg(
            "--json"@,
        ).arg("url"@),
{
    gh(repo).arg("pr").arg("list").arg("--head").arg(branch).arg("--state").arg("open").arg("--json").arg("url")
}

/// The URL of the first request of a listing.
pub open spec fn first_url(list: Seq<JsonModel>) -> Option<Text> {
    if list.len() == 0 {
        None
    } else {
        string(member(list[0], "url"@))
    }
}

/// The URL of the first request of a listing.
pub fn url_of_first(list: &Vec<Json>) -> (r: Option<String>)
    ensures
        opt_model(r) == first_url(models(list@)),
{
    let ghost all = models(list@);
    if list.len() == 0 {
        return None;
    }
    assert(all[0] == list@[0]@);
    text_opt(get(Some(&list[0]), "url"))
}

/// The URL of an already open request, as `gh pr list` answers.
pub fn open_pr_for(out: &str) -> (r: Result<Option<String>, String>)
    ensures
        match (list_reading(out@), r) {
            (Ok(list), Ok(url)) => opt_model(url) == first_url(list),
            (Err(e), Err(text)) => text@ == "unexpected `gh pr list` output: "@ + out@ + ": "@ + e,
            _ => false,
        },
{
    match parse_list(out) {
        Ok(list) => Ok(url_of_first(&list)),
        Err(e) => Err(concat4("unexpected `gh pr list` output: ", out, ": ", &e)),
    }
}

// ---- laws -----------------------------------------------------------------------------------------------------------

/// Nothing is pushed for a ticket unless it is in review, worked here, its branch exists, there is a remote, and no
/// request is open for it yet.
pub proof fn a_push_needs_an_eligible_ticket(repo: Text, id: Text, ticket: Option<TicketModel>, facts: PrFacts)
    ensures
        create_spec(repo, id, ticket, facts) is Go <==> {
            &&& ticket matches Some(t) && offered_branch(t) is Some
            &&& facts.branch_exists == Some(true)
            &&& facts.remotes matches Some(out) && remote_spec(lines_spec(out@)) is Some
            &&& facts.open == Some(None::<String>)
        },
{
}

/// A branch is on offer exactly for a ticket that is under review, worked here, and has one: it is the branch of the card.
pub proof fn a_review_ticket_offers_its_branch(t: TicketModel)
    ensures
        offered_branch(t) == match t.column {
            ColumnModel::Review { branch, .. } => if t.external is None {
                branch
            } else {
                None
            },
            _ => None,
        },
{
}

/// What a click comes to once all is known, test by test: an unknown ticket, one without a branch under review, one worked
/// elsewhere, a branch that is gone, and a repository without a remote are refused; an open request is handed over; and
/// otherwise the branch is pushed and the request created.
pub proof fn a_click_comes_to_one_thing(repo: Text, id: Text, t: TicketModel, exists_here: bool, out: String, open: Option<String>)
    ensures
        ({
            let facts = PrFacts { branch_exists: Some(exists_here), remotes: Some(out), open: Some(open) };
            let step = create_spec(repo, id, Some(t), facts);
            let remotes = lines_spec(out@);
            let offered = t.column is Review && t.column.branch() is Some;
            let branch = t.column.branch()->0;
            &&& create_spec(repo, id, None, facts) == PrStepModel::Refuse(id + " not found on the board"@)
            &&& !offered ==> step == PrStepModel::Refuse(
                id + " is not a review ticket with a branch — nothing to open a PR from"@,
            )
            &&& offered && t.external is Some ==> step == PrStepModel::Refuse(id + " is external — its PRs are worked elsewhere"@)
            &&& offered && t.external is None && !exists_here ==> step == PrStepModel::Refuse(
                "branch "@ + branch + " no longer exists locally — already merged and deleted?"@,
            )
            &&& offered && t.external is None && exists_here && remotes.len() == 0 ==> step == PrStepModel::Refuse(
                "this repository has no git remote to push to"@,
            )
            &&& offered && t.external is None && exists_here && remotes.len() > 0 && open is Some ==> step == (
            PrStepModel::Found { url: (open->0)@, created: false })
            &&& offered && t.external is None && exists_here && remotes.len() > 0 && open is None ==> {
                let remote = if remotes.contains("origin"@) {
                    "origin"@
                } else {
                    remotes[0]
                };
                &&& step is Go
                &&& step->Go_0.call.program == "git"@ && step->Go_0.call.dir == repo && step->Go_0.call.silenced
                &&& step->Go_0.call.args == seq!["push"@, "-u"@, remote, branch]
                &&& step->Go_1.call.program == "gh"@ && step->Go_1.call.dir == repo && step->Go_1.call.silenced
                &&& step->Go_1.call.args == seq![
                    "pr"@,
                    "create"@,
                    "--head"@,
                    branch,
                    "--title"@,
                    t.id + ": "@ + t.title,
                    "--body"@,
                    body_spec(t),
                ]
            }
        }),
{
    let branch = t.column.branch()->0;
    let remotes = lines_spec(out@);
    if remotes.len() > 0 {
        let remote = remote_spec(remotes)->0;
        assert(push_task(repo, remote, branch).call.args =~= seq!["push"@, "-u"@, remote, branch]);
    }
    assert(create_task(repo, branch, t).call.args =~= seq![
        "pr"@,
        "create"@,
        "--head"@,
        branch,
        "--title"@,
        t.id + ": "@ + t.title,
        "--body"@,
        body_spec(t),
    ]);
    if remotes.contains("origin"@) {
        assert(remotes.len() > 0);
    }
}

/// A click asks for what it lacks, in this order: whether the branch exists, the remotes, and the open requests.
pub proof fn a_click_asks_what_it_lacks(repo: Text, id: Text, t: TicketModel, facts: PrFacts)
    requires
        offered_branch(t) is Some,
    ensures
        ({
            let step = create_spec(repo, id, Some(t), facts);
            let branch = offered_branch(t)->0;
            &&& facts.branch_exists is None ==> step == PrStepModel::Ask(PrQuestion::Branch, branch)
            &&& facts.branch_exists == Some(true) && facts.remotes is None ==> step == PrStepModel::Ask(
                PrQuestion::Remotes,
                branch,
            )
            &&& facts.branch_exists == Some(true) && facts.remotes is Some && lines_spec((facts.remotes->0)@).len() > 0
                && facts.open is None ==> step == PrStepModel::Ask(PrQuestion::Open, branch)
        }),
{
    if facts.remotes is Some {
        let remotes = lines_spec((facts.remotes->0)@);
        if remotes.contains("origin"@) {
            assert(remotes.len() > 0);
        }
    }
}

/// The text of a request is the ticket's heading and its spec verbatim; the first note opens the progress log, and each
/// further one adds its line at the end.
pub proof fn a_note_adds_a_line_to_the_request(t: TicketModel, n: NoteModel)
    ensures
        t.notes.len() == 0 ==> body_spec(t) == "## "@ + t.id + ": "@ + t.title + ("\n\n"@ + t.body),
        ({
            let noted = TicketModel { notes: t.notes.push(n), ..t };
            let line = match n.author {
                Some(author) => "- "@ + shown(n.at) + " — "@ + author + (": "@ + n.text),
                None => "- "@ + shown(n.at) + ": "@ + n.text,
            };
            &&& t.notes.len() == 0 ==> body_spec(noted) == body_spec(t) + "\n\n## Progress\n\n"@ + line
            &&& t.notes.len() > 0 ==> body_spec(noted) == body_spec(t) + "\n"@ + line
        }),
{
    let noted = TicketModel { notes: t.notes.push(n), ..t };
    let all = note_lines(noted.notes);
    assert(all.drop_last() =~= note_lines(t.notes));
    assert(all.last() == note_line(n));
    if t.notes.len() > 0 {
        let spec = "## "@ + t.id + ": "@ + t.title + ("\n\n"@ + t.body);
        let head = spec + "\n\n## Progress\n\n"@;
        assert(body_spec(noted) =~= head + (join_spec(note_lines(t.notes), "\n"@) + "\n"@ + note_line(n)));
        assert(body_spec(noted) =~= body_spec(t) + "\n"@ + note_line(n));
    }
}

/// The number of a request is read off the end of its URL, with or without a closing slash.
pub proof fn a_requests_number_is_read_off_its_url(host: Text, n: nat)
    requires
        n <= u64::MAX,
    ensures
        pull_number(host + "/pull/"@ + decimal(n)) == Some(n),
        pull_number(host + "/pull/"@ + decimal(n) + "/"@) == Some(n),
{
    reveal_strlit("/pull/");
    decimal_reads_back(n);
    digits_stand_behind_their_segment(host, "/pull/"@, decimal(n));
}

/// A failed run of gh is reported as it complained; where gh is missing, with what to do about it.
pub proof fn a_missing_gh_is_told(source: Text, args: Text, stderr: Text)
    ensures
        gh_failure(GitErrorModel::Spawn { missing: true, source })
            == "GitHub CLI (gh) not found — install it, or push the branch manually"@,
        gh_failure(GitErrorModel::Spawn { missing: false, source }) == "could not run: "@ + source,
        gh_failure(GitErrorModel::Failed { args, stderr }) == "`"@ + args + "` failed: "@ + stderr,
{
}

/// The open request of a listing is its first one.
pub proof fn the_first_request_listed_counts(list: Seq<JsonModel>)
    ensures
        list.len() == 0 ==> first_url(list) is None,
        list.len() > 0 ==> first_url(list) == string(member(list[0], "url"@)),
{
}

} // verus!
