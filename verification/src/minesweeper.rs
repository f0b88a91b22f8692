//! Delegation: handing ready tickets to a daemon that works GitHub issues, and tracking what becomes of them.
//!
//! Entering `doing` mirrors a ticket to an issue that wears the configured label. From then on the issue is polled: a pull
//! request that refers to it moves the card to review, a flag label or a closing without a request is written onto the
//! binding and noted, and a split is mirrored as child tickets. A merged request's way to done is the landing pass's
//! business.
use vstd::prelude::*;

use crate::config::Config;
use crate::git::Invocation;
use crate::json::{
    as_array, as_str, as_u64, found, get, items, list_reading, member, number, parse, parse_list, reading, string,
    text_of, text_opt, text_or_empty, Json, JsonModel,
};
use crate::name::{hyphenated, product, CODE_NAME};
use crate::ops::{is_note, note_op, Op, OpError, SubIssueModel, SubIssueSpec};
use crate::pr::{gh, gh_in};
use crate::seqs::{models, opt_model};
use crate::store::model::{
    Board, Column, ColumnId, ColumnModel, External, ExternalModel, PrModel, PrRef, PrState, Status, Ticket, TicketId,
    TicketModel,
};
use crate::text::{
    all_digits, ascii_lowered, behind_text, behind_text_spec, chars, concat2, concat3, concat4, concat5, decimal,
    decimal_reads_back, digit, digits_stand_behind_their_segment, has_prefix, is_digit, is_white, lines, lines_spec, listed, lower_ascii, number_upto, parse_upto, same, same_opt, starts_with,
    strip_prefix, strip_prefix_spec, to_decimal, trim, trim_end_of, trim_end_of_spec, trim_spec, trim_start,
    trim_start_spec, Text,
};
use crate::worktree::{Task, TaskModel};
use crate::writes::{Write, WriteModel};

verus! {

broadcast use crate::seqs::group_models;

/// Who delegated tickets are owned and claimed by.
pub const DELEGATE_AGENT: &'static str = "minesweeper";

/// The first line of the daemon's refine comment, verbatim.
pub const REFINE_PREFIX: &'static str = "Refined into the following sub-tasks:";

// ---- the mirror issue -----------------------------------------------------------------------------------------------

/// The line a mirror issue's body ends with: where it came from, and how it is found again.
pub open spec fn footer(id: Text) -> Text {
    "Mirrored from kanban ticket "@ + id + "."@
}

/// The line a mirror issue's body ends with.
pub fn mirror_footer(id: &TicketId) -> (r: String)
    ensures
        r@ == footer(id@),
{
    concat3("Mirrored from kanban ticket ", &id.0, ".")
}

/// The number at the end of an `…/issues/<n>` URL.
pub open spec fn issue_number(url: Text) -> Option<nat> {
    match behind_text_spec(url, "/issues/"@) {
        Some(n) => number_upto(trim_end_of_spec(n, "/"@), u64::MAX as nat),
        None => None,
    }
}

/// The number at the end of an `…/issues/<n>` URL.
pub fn trailing_issue_number(url: &str) -> (r: Option<u64>)
    ensures
        match r {
            Some(n) => issue_number(url@) == Some(n as nat),
            None => issue_number(url@) is None,
        },
{
    match behind_text(url, "/issues/") {
        Some(n) => parse_upto(&trim_end_of(&n, "/"), u64::MAX),
        None => None,
    }
}

/// `gh issue list` of the issues that carry a ticket's footer.
pub fn ask_mirror(repo: &str, id: &TicketId) -> (r: Invocation)
    ensures
        r@ == gh_in(repo@).arg("issue"@).arg("list"@).arg("--state"@).arg("all"@).arg("--search"@).arg(
            "\""@ + footer(id@) + "\" in:body"@,
        ).arg("--json"@).arg("number,url"@).arg("--limit"@).arg("5"@),
{
    let search: String = concat3("\"", &mirror_footer(id), "\" in:body");
    gh(repo).arg("issue").arg("list").arg("--state").arg("all").arg("--search").arg(&search).arg("--json").arg(
        "number,url",
    ).arg("--limit").arg("5")
}

/// The number and URL of the first issue of a listing, where it has both.
pub open spec fn first_issue(list: Seq<JsonModel>) -> Option<(u64, Text)> {
    if list.len() == 0 {
        None
    } else {
        match (number(member(list[0], "number"@)), string(member(list[0], "url"@))) {
            (Some(n), Some(url)) => Some((n, url)),
            _ => None,
        }
    }
}

/// The number and URL of the first issue of a listing.
pub fn issue_of_first(list: &Vec<Json>) -> (r: Option<(u64, String)>)
    ensures
        match r {
            Some(i) => first_issue(models(list@)) == Some((i.0, i.1@)),
            None => first_issue(models(list@)) is None,
        },
{
    let ghost all = models(list@);
    if list.len() == 0 {
        return None;
    }
    assert(all[0] == list@[0]@);
    let n: Option<u64> = as_u64(get(Some(&list[0]), "number"));
    let url: Option<String> = text_opt(get(Some(&list[0]), "url"));
    match (n, url) {
        (Some(n), Some(url)) => Some((n, url)),
        _ => None,
    }
}

/// An issue that an earlier attempt already created for the ticket, as `gh issue list` answers.
pub fn find_mirror(out: &str) -> (r: Result<Option<(u64, String)>, String>)
    ensures
        match (list_reading(out@), r) {
            (Ok(list), Ok(Some(i))) => first_issue(list) == Some((i.0, i.1@)),
            (Ok(list), Ok(None)) => first_issue(list) is None,
            (Err(e), Err(text)) => text@ == "unexpected `gh issue list` output: "@ + out@ + ": "@ + e,
            _ => false,
        },
{
    match parse_list(out) {
        Ok(list) => Ok(issue_of_first(&list)),
        Err(e) => Err(concat4("unexpected `gh issue list` output: ", out, ": ", &e)),
    }
}

/// Creating the label, should it be missing. That it exists already is no failure.
pub fn label_call(repo: &str, label: &str) -> (r: Invocation)
    ensures
        r@ == gh_in(repo@).arg("label"@).arg("create"@).arg(label@).arg("--description"@).arg(hyphenated(CODE_NAME@) + " delegation"@),
{
    gh(repo).arg("label").arg("create").arg(label).arg("--description").arg(&concat2(&product(), " delegation"))
}

/// Creating the issue: the ticket's spec as the body, and the footer.
pub open spec fn issue_task(repo: Text, t: TicketModel, label: Text) -> TaskModel {
    TaskModel {
        call: gh_in(repo).arg("issue"@).arg("create"@).arg("--title"@).arg(t.id + ": "@ + t.title).arg("--body"@).arg(
            t.body + "\n\n---\n"@ + footer(t.id),
        ).arg("--label"@).arg(label),
        context: Some("creating the mirror issue for "@ + t.id),
    }
}

/// Creating the issue.
pub fn create_issue(repo: &str, t: &Ticket, label: &str) -> (r: Task)
    ensures
        r@ == issue_task(repo@, t@, label@),
{
    let title: String = concat3(&t.id.0, ": ", &t.title);
    let body: String = concat3(&t.body, "\n\n---\n", &mirror_footer(&t.id));
    Task {
        call: gh(repo).arg("issue").arg("create").arg("--title").arg(&title).arg("--body").arg(&body).arg("--label").arg(
            label,
        ),
        context: Some(concat2("creating the mirror issue for ", &t.id.0)),
    }
}

/// The number and URL of the issue that gh says it created.
pub fn created_issue(out: &str) -> (r: Result<(u64, String), String>)
    ensures
        match r {
            Ok(i) => i.1@ == trim_spec(out@) && issue_number(trim_spec(out@)) == Some(i.0 as nat),
            Err(e) => issue_number(trim_spec(out@)) is None && e@ == "no issue number in gh's answer: "@ + trim_spec(out@),
        },
{
    let url: String = trim(out);
    match trailing_issue_number(&url) {
        Some(n) => Ok((n, url)),
        None => Err(concat2("no issue number in gh's answer: ", &url)),
    }
}

// ---- handing a ticket over ------------------------------------------------------------------------------------------

/// A ticket that may be delegated: in `doing` without a branch, ready, and not bound yet. A branch means rework or local
/// work; a stub was claimed to be refined.
pub open spec fn delegable(t: TicketModel) -> bool {
    t.column.id() == ColumnId::Doing && t.column.branch() is None && t.status == Status::Ready && t.external is None
}

/// Whether a ticket may be delegated.
pub fn may_delegate(t: &Ticket) -> (r: bool)
    ensures
        r == delegable(t@),
{
    t.column.id() == ColumnId::Doing && t.column.branch().is_none() && t.status == Status::Ready && t.external.is_none()
}

/// What a delegation may need to find out.
#[derive(Debug, Clone, Copy, PartialEq, Eq, Structural)]
pub enum DelegateQuestion {
    /// Whether there is a repository with a remote to mirror to.
    Remote,
    /// The mirror issue an earlier attempt created before it crashed.
    Mirror,
}

/// What is known so far: whether there is a remote, an earlier mirror, and the issue just created.
#[derive(Debug)]
pub struct DelegateFacts {
    pub remote: Option<bool>,
    pub mirror: Option<Option<(u64, String)>>,
    pub created: Option<(u64, String)>,
}

impl Default for DelegateFacts {
    fn default() -> (r: DelegateFacts)
        ensures
            r.remote is None && r.mirror is None && r.created is None,
    {
        DelegateFacts { remote: None, mirror: None, created: None }
    }
}

/// The next step of a delegation.
#[derive(Debug)]
pub enum DelegateStep {
    /// This is no delegation, or there is nowhere to mirror to.
    Skip,
    Ask(DelegateQuestion),
    /// Create the label, whatever comes of it, then the issue.
    Create(Invocation, Task),
    /// Bind the ticket to the issue with this URL.
    Bind(Op, String),
}

/// The issue a delegation binds to: the earlier mirror, else the one just created.
pub open spec fn bound_issue(facts: DelegateFacts) -> Option<(u64, Text)> {
    match (facts.mirror, facts.created) {
        (Some(Some(i)), _) => Some((i.0, i.1@)),
        (Some(None), Some(i)) => Some((i.0, i.1@)),
        _ => None,
    }
}

/// `op` hands a ticket to the daemon, bound to an issue.
pub open spec fn is_delegation(op: Op, id: Text, issue: u64, url: Text) -> bool {
    op matches Op::Delegate { id: of, external, agent, note } && of@ == id && external@ == ExternalModel::issue(issue)
        && agent@ == DELEGATE_AGENT@ && note@ == "delegated to minesweeper: issue #"@ + decimal(issue as nat) + " "@ + url
}

/// `step` is what comes next.
pub open spec fn delegates(
    step: DelegateStep,
    repo: Text,
    ticket: Option<TicketModel>,
    label: Text,
    facts: DelegateFacts,
) -> bool {
    if !(ticket matches Some(t) && delegable(t)) || facts.remote == Some(false) {
        step is Skip
    } else if facts.remote is None {
        step == DelegateStep::Ask(DelegateQuestion::Remote)
    } else if facts.mirror is None {
        step == DelegateStep::Ask(DelegateQuestion::Mirror)
    } else {
        let t = ticket->Some_0;
        match bound_issue(facts) {
            None => step matches DelegateStep::Create(make_label, make) && make_label@ == gh_in(repo).arg("label"@).arg(
                "create"@,
            ).arg(label).arg("--description"@).arg(hyphenated(CODE_NAME@) + " delegation"@) && make@ == issue_task(repo, t, label),
            Some(i) => step matches DelegateStep::Bind(op, url) && url@ == i.1 && is_delegation(op, t.id, i.0, i.1),
        }
    }
}

/// Delegate a ticket, whatever the project's toggle says: the next step, given what is known. What was found out is
/// checked once more, under the lock, by the operation itself.
pub fn delegate_ticket(repo: &str, ticket: Option<&Ticket>, label: &str, facts: &DelegateFacts) -> (r: DelegateStep)
    ensures
        delegates(
            r,
            repo@,
            match ticket {
                Some(t) => Some(t@),
                None => None,
            },
            label@,
            *facts,
        ),
{
    let t: &Ticket = match ticket {
        Some(t) => t,
        None => return DelegateStep::Skip,
    };
    if !may_delegate(t) {
        return DelegateStep::Skip;
    }
    match facts.remote {
        None => return DelegateStep::Ask(DelegateQuestion::Remote),
        Some(there) => {
            if !there {
                return DelegateStep::Skip;
            }
        },
    }
    let earlier: &Option<(u64, String)> = match &facts.mirror {
        None => return DelegateStep::Ask(DelegateQuestion::Mirror),
        Some(m) => m,
    };
    let issue: &(u64, String) = match earlier {
        Some(i) => i,
        None => match &facts.created {
            Some(i) => i,
            None => return DelegateStep::Create(label_call(repo, label), create_issue(repo, t, label)),
        },
    };
    let note: String = concat4("delegated to minesweeper: issue #", &to_decimal(issue.0), " ", &issue.1);
    let op: Op = Op::Delegate {
        id: t.id.clone(),
        external: External::github_issue(issue.0),
        agent: DELEGATE_AGENT.to_owned(),
        note,
    };
    DelegateStep::Bind(op, issue.1.clone())
}

/// Delegate a ticket where the project's toggle is on.
pub fn delegate(config: &Config, repo: &str, ticket: Option<&Ticket>, facts: &DelegateFacts) -> (r: DelegateStep)
    ensures
        if config@.minesweeper == Some(true) {
            delegates(
                r,
                repo@,
                match ticket {
                    Some(t) => Some(t@),
                    None => None,
                },
                config@.label(),
                *facts,
            )
        } else {
            r is Skip
        },
{
    if !config.minesweeper() {
        return DelegateStep::Skip;
    }
    delegate_ticket(repo, ticket, &config.minesweeper_label(), facts)
}

/// What a delegation on entering `doing` leaves to be done: trouble lands as a note on the card, which stays in `doing`.
/// Delegating is never a reason to fail a move that the board has already accepted.
pub fn delegate_entering_doing(id: &TicketId, outcome: &Result<Option<String>, String>) -> (r: Option<Op>)
    ensures
        match *outcome {
            Ok(_) => r is None,
            Err(e) => r matches Some(op) && is_note(
                op,
                id@,
                "delegating to minesweeper failed: "@ + e@
                    + " — fix the cause, then re-enter doing (or run /kanban:delegate)"@,
                "kanban"@,
            ),
        },
{
    match outcome {
        Ok(_) => None,
        Err(e) => Some(
            note_op(
                id,
                concat3(
                    "delegating to minesweeper failed: ",
                    e,
                    " — fix the cause, then re-enter doing (or run /kanban:delegate)",
                ),
            ),
        ),
    }
}

/// The next step of handing a fresh ticket over.
#[derive(Debug)]
pub enum HandStep {
    /// Claim it for the daemon: the claim decides whether it may be worked at all.
    Claim(Op),
    /// Delegate it.
    Delegate,
    /// Nothing is left but these operations, in order.
    Finish(Vec<Op>),
}

/// Why a handover failed, as the card says it.
pub open spec fn handover_failure(outcome: Result<Option<String>, String>) -> Option<Text> {
    match outcome {
        Ok(Some(_)) => None,
        Ok(None) => Some("handing to minesweeper failed: no git repository or remote to mirror the issue to"@),
        Err(e) => Some(
            "handing to minesweeper failed: "@ + e@ + " — fix the cause and delegate again, or run /kanban:delegate"@,
        ),
    }
}

/// `ops` gives the ticket back and then says why.
pub open spec fn released_noting(ops: Seq<Op>, id: Text, text: Text) -> bool {
    ops.len() == 2 && (ops[0] matches Op::Release { id: of } && of@ == id) && is_note(ops[0int + 1], id, text, "kanban"@)
}

/// Hand a freshly created ticket straight to the daemon: the next step. `claimed` is how the claim ended once it was made,
/// `outcome` how the delegation ended. A refused claim is noted. A failed handover gives the ticket back before noting
/// why: nothing was delegated, and a card that says otherwise would be a lie.
pub fn hand_over(
    id: &TicketId,
    claimed: Option<&Result<(), OpError>>,
    outcome: Option<&Result<Option<String>, String>>,
) -> (r: HandStep)
    ensures
        match (claimed, outcome) {
            (None, _) => r matches HandStep::Claim(op) && (op matches Op::Claim { id: of, agent } && of@ == id@
                && agent@ == DELEGATE_AGENT@),
            (Some(Err(e)), _) => r matches HandStep::Finish(ops) && ops@.len() == 1 && is_note(
                ops@[0],
                id@,
                "handing to minesweeper failed: "@ + e@.message() + " — clear that, then delegate again"@,
                "kanban"@,
            ),
            (Some(Ok(_)), None) => r is Delegate,
            (Some(Ok(_)), Some(o)) => match handover_failure(*o) {
                None => r matches HandStep::Finish(ops) && ops@.len() == 0,
                Some(text) => r matches HandStep::Finish(ops) && released_noting(ops@, id@, text),
            },
        },
{
    match claimed {
        None => return HandStep::Claim(Op::Claim { id: id.clone(), agent: DELEGATE_AGENT.to_owned() }),
        Some(Err(e)) => {
            let text: String = concat3(
                "handing to minesweeper failed: ",
                &e.to_string(),
                " — clear that, then delegate again",
            );
            let mut ops: Vec<Op> = Vec::new();
            ops.push(note_op(id, text));
            return HandStep::Finish(ops);
        },
        Some(Ok(_)) => {},
    }
    let text: String = match outcome {
        None => return HandStep::Delegate,
        Some(Ok(Some(_))) => return HandStep::Finish(Vec::new()),
        Some(Ok(None)) => {
            "handing to minesweeper failed: no git repository or remote to mirror the issue to".to_owned()
        },
        Some(Err(e)) => concat3(
            "handing to minesweeper failed: ",
            e,
            " — fix the cause and delegate again, or run /kanban:delegate",
        ),
    };
    let mut ops: Vec<Op> = Vec::new();
    ops.push(Op::Release { id: id.clone() });
    ops.push(note_op(id, text));
    HandStep::Finish(ops)
}

// ---- what is asked about delegated issues ---------------------------------------------------------------------------

/// A ticket that is tracked: bound to a GitHub issue, in `doing`, or in `review` with no request recorded yet.
pub open spec fn is_tracked(t: TicketModel) -> bool {
    (t.external matches Some(e) && e.is_issue()) && match t.column {
        ColumnModel::Doing { .. } => true,
        ColumnModel::Review { .. } => t.pr is None,
        _ => false,
    }
}

/// Whether a ticket is tracked.
pub fn followed(t: &Ticket) -> (r: bool)
    ensures
        r == is_tracked(t@),
{
    let bound: bool = match &t.external {
        Some(e) => e.is_github_issue(),
        None => false,
    };
    bound && match &t.column {
        Column::Doing { .. } => true,
        Column::Review { .. } => t.pr.is_none(),
        _ => false,
    }
}

/// The issues of the tracked tickets, in board order.
pub open spec fn tracked_numbers(ts: Seq<TicketModel>) -> Seq<u64>
    decreases ts.len(),
{
    if ts.len() == 0 {
        Seq::empty()
    } else {
        let before = tracked_numbers(ts.drop_last());
        if is_tracked(ts.last()) {
            before.push(ts.last().external->Some_0.number)
        } else {
            before
        }
    }
}

/// What a pass has to ask about: the issues of the tracked tickets, and nothing while delegation is switched off.
pub fn poll(config: &Config, board: &Board) -> (r: Vec<u64>)
    ensures
        r@ == if config@.minesweeper == Some(true) {
            tracked_numbers(board@.tickets)
        } else {
            Seq::empty()
        },
{
    let mut out: Vec<u64> = Vec::new();
    if !config.minesweeper() {
        return out;
    }
    let ghost ts = board@.tickets;
    let mut i: usize = 0;
    while i < board.tickets.len()
        invariant
            ts == models(board.tickets@),
            i <= board.tickets@.len(),
            out@ == tracked_numbers(ts.take(i as int)),
        decreases board.tickets@.len() - i,
    {
        proof {
            assert(ts.take(i + 1).drop_last() =~= ts.take(i as int));
            assert(ts.take(i + 1).last() == board.tickets@[i as int]@);
        }
        let t: &Ticket = &board.tickets[i];
        if followed(t) {
            match &t.external {
                Some(e) => out.push(e.number),
                None => {},
            }
        }
        i = i + 1;
    }
    assert(ts.take(ts.len() as int) =~= ts);
    out
}

/// One issue's part of the batched query, under an alias of its own.
pub open spec fn issue_query(n: u64) -> Text {
    "i"@ + decimal(n as nat) + ": issue(number: "@ + decimal(n as nat)
        + ") { number state labels(first: 20) { nodes { name } } comments(last: 30) { nodes { body } } closedByPullRequestsReferences(first: 5, includeClosedPrs: true) { nodes { number url state merged mergeCommit { oid } headRefName } } } "@
}

/// The parts of several issues, one behind the other.
pub open spec fn issue_queries(ns: Seq<u64>) -> Text
    decreases ns.len(),
{
    if ns.len() == 0 {
        Seq::empty()
    } else {
        issue_queries(ns.drop_last()) + issue_query(ns.last())
    }
}

/// The batched query: one round trip answers for every issue.
pub open spec fn query_spec(ns: Seq<u64>) -> Text {
    "query($owner: String!, $name: String!) { repository(owner: $owner, name: $name) { "@ + issue_queries(ns) + " } }"@
}

/// The batched query.
pub fn batch_query(numbers: &[u64]) -> (r: String)
    ensures
        r@ == query_spec(numbers@),
{
    let mut issues: String = String::new();
    let mut i: usize = 0;
    while i < numbers.len()
        invariant
            i <= numbers@.len(),
            issues@ == issue_queries(numbers@.take(i as int)),
        decreases numbers@.len() - i,
    {
        proof {
            assert(numbers@.take(i + 1).drop_last() =~= numbers@.take(i as int));
        }
        let n: String = to_decimal(numbers[i]);
        let part: String = concat5(
            "i",
            &n,
            ": issue(number: ",
            &n,
            ") { number state labels(first: 20) { nodes { name } } comments(last: 30) { nodes { body } } closedByPullRequestsReferences(first: 5, includeClosedPrs: true) { nodes { number url state merged mergeCommit { oid } headRefName } } } ",
        );
        issues = concat2(&issues, &part);
        i = i + 1;
    }
    assert(numbers@.take(numbers@.len() as int) =~= numbers@);
    concat3("query($owner: String!, $name: String!) { repository(owner: $owner, name: $name) { ", &issues, " } }")
}

/// `gh api graphql` with the batched query.
pub fn batch_call(repo: &str, numbers: &[u64], owner: &str, name: &str) -> (r: Invocation)
    ensures
        r@ == gh_in(repo@).arg("api"@).arg("graphql"@).arg("-f"@).arg("query="@ + query_spec(numbers@)).arg("-f"@).arg(
            "owner="@ + owner@,
        ).arg("-f"@).arg("name="@ + name@),
{
    gh(repo).arg("api").arg("graphql").arg("-f").arg(&concat2("query=", &batch_query(numbers))).arg("-f").arg(
        &concat2("owner=", owner),
    ).arg("-f").arg(&concat2("name=", name))
}

/// `gh repo view`.
pub fn ask_repo(repo: &str) -> (r: Invocation)
    ensures
        r@ == gh_in(repo@).arg("repo"@).arg("view"@).arg("--json"@).arg("owner,name"@),
{
    gh(repo).arg("repo").arg("view").arg("--json").arg("owner,name")
}

/// The owner and the name an answer of `gh repo view` gives, or which of them it lacks.
pub open spec fn slug_in(j: JsonModel) -> Result<(Text, Text), Text> {
    match (string(member(member(j, "owner"@), "login"@)), string(member(j, "name"@))) {
        (None, _) => Err("gh repo view answered without an owner"@),
        (Some(_), None) => Err("gh repo view answered without a name"@),
        (Some(owner), Some(name)) => Ok((owner, name)),
    }
}

/// The owner and the name an answer of `gh repo view` gives.
pub fn slug_from(j: &Json) -> (r: Result<(String, String), String>)
    ensures
        match r {
            Ok(s) => slug_in(j@) == Ok::<(Text, Text), Text>((s.0@, s.1@)),
            Err(e) => slug_in(j@) == Err::<(Text, Text), Text>(e@),
        },
{
    let owner: Option<String> = text_opt(get(get(Some(j), "owner"), "login"));
    let name: Option<String> = text_opt(get(Some(j), "name"));
    match (owner, name) {
        (None, _) => Err("gh repo view answered without an owner".to_owned()),
        (Some(_), None) => Err("gh repo view answered without a name".to_owned()),
        (Some(owner), Some(name)) => Ok((owner, name)),
    }
}

/// The owner and the name of the repository gh talks to.
pub fn repo_slug(out: &str) -> (r: Result<(String, String), String>)
    ensures
        match (reading(out@), r) {
            (Ok(j), Ok(s)) => slug_in(j) == Ok::<(Text, Text), Text>((s.0@, s.1@)),
            (Ok(j), Err(e)) => slug_in(j) == Err::<(Text, Text), Text>(e@),
            (Err(e), Err(text)) => text@ == "unexpected `gh repo view` output: "@ + out@ + ": "@ + e,
            _ => false,
        },
{
    match parse(out) {
        Ok(j) => slug_from(&j),
        Err(e) => Err(concat4("unexpected `gh repo view` output: ", out, ": ", &e)),
    }
}

// ---- what the answers say -------------------------------------------------------------------------------------------

/// The leading digits of a text.
pub open spec fn leading_digits(s: Text) -> Text
    decreases s.len(),
{
    if s.len() == 0 || !is_digit(s[0]) {
        Seq::empty()
    } else {
        seq![s[0]] + leading_digits(s.subrange(1, s.len() as int))
    }
}

fn take_digits(s: &str) -> (r: String)
    ensures
        r@ == leading_digits(s@),
{
    let v: Vec<char> = chars(s);
    let mut out: String = String::new();
    let mut i: usize = 0;
    proof {
        assert(s@.subrange(0, s@.len() as int) =~= s@);
        assert(out@ + leading_digits(s@) =~= leading_digits(s@));
    }
    while i < v.len() && digit(v[i])
        invariant
            v@ == s@,
            i <= v@.len(),
            leading_digits(s@) == out@ + leading_digits(s@.subrange(i as int, s@.len() as int)),
        decreases v@.len() - i,
    {
        proof {
            let rest = s@.subrange(i as int, s@.len() as int);
            assert(rest[0] == v@[i as int]);
            assert(rest.subrange(1, rest.len() as int) =~= s@.subrange(i + 1, s@.len() as int));
            assert(out@ + (seq![rest[0]] + leading_digits(rest.subrange(1, rest.len() as int))) =~= out@.push(rest[0])
                + leading_digits(rest.subrange(1, rest.len() as int)));
        }
        out.push(v[i]);
        i = i + 1;
    }
    proof {
        let rest = s@.subrange(i as int, s@.len() as int);
        if i < v@.len() {
            assert(rest[0] == v@[i as int]);
        }
        assert(leading_digits(rest) =~= Seq::<char>::empty());
        assert(out@ + leading_digits(rest) =~= out@);
    }
    out
}

/// What a task-list line says behind its box, ticked or not.
pub open spec fn behind_box(line: Text) -> Option<Text> {
    match strip_prefix_spec(line, "- [ ] "@) {
        Some(rest) => Some(rest),
        None => match strip_prefix_spec(line, "- [x] "@) {
            Some(rest) => Some(rest),
            None => strip_prefix_spec(line, "- [X] "@),
        },
    }
}

/// The issue a task-list line points at: `- [ ] #12 — title`.
pub open spec fn sub_issue(line: Text) -> Option<nat> {
    match behind_box(trim_spec(line)) {
        Some(rest) => match strip_prefix_spec(rest, "#"@) {
            Some(n) => number_upto(leading_digits(n), u64::MAX as nat),
            None => None,
        },
        None => None,
    }
}

/// The issues some lines point at; other lines are skipped.
pub open spec fn sub_issues(lines: Seq<Text>) -> Seq<u64>
    decreases lines.len(),
{
    if lines.len() == 0 {
        Seq::empty()
    } else {
        let before = sub_issues(lines.drop_last());
        match sub_issue(lines.last()) {
            Some(n) => before.push(n as u64),
            None => before,
        }
    }
}

/// The sub-issues a comment announces: none unless it begins with the daemon's marker.
pub open spec fn refined(body: Text) -> Seq<u64> {
    if has_prefix(trim_start_spec(body), REFINE_PREFIX@) {
        sub_issues(lines_spec(body))
    } else {
        Seq::empty()
    }
}

fn sub_issue_of(line: &str) -> (r: Option<u64>)
    ensures
        match r {
            Some(n) => sub_issue(line@) == Some(n as nat),
            None => sub_issue(line@) is None,
        },
{
    let line: String = trim(line);
    let rest: String = match strip_prefix(&line, "- [ ] ") {
        Some(rest) => rest,
        None => match strip_prefix(&line, "- [x] ") {
            Some(rest) => rest,
            None => match strip_prefix(&line, "- [X] ") {
                Some(rest) => rest,
                None => return None,
            },
        },
    };
    match strip_prefix(&rest, "#") {
        Some(n) => parse_upto(&take_digits(&n), u64::MAX),
        None => None,
    }
}

/// The sub-issues a comment announces, one task-list line each.
pub fn parse_refine_comment(body: &str) -> (r: Vec<u64>)
    ensures
        r@ == refined(body@),
{
    let mut out: Vec<u64> = Vec::new();
    if !starts_with(&trim_start(body), REFINE_PREFIX) {
        return out;
    }
    let all: Vec<String> = lines(body);
    let ghost texts = models(all@);
    let mut i: usize = 0;
    while i < all.len()
        invariant
            texts == models(all@),
            i <= all@.len(),
            out@ == sub_issues(texts.take(i as int)),
        decreases all@.len() - i,
    {
        proof {
            assert(texts.take(i + 1).drop_last() =~= texts.take(i as int));
            assert(texts.take(i + 1).last() == all@[i as int]@);
        }
        match sub_issue_of(&all[i]) {
            Some(n) => out.push(n),
            None => {},
        }
        i = i + 1;
    }
    assert(texts.take(texts.len() as int) =~= texts);
    out
}

/// Everything a pass wants to know about one issue.
#[derive(Debug)]
pub struct IssueFacts {
    pub closed: bool,
    pub labels: Vec<String>,
    /// The sub-issues of a refine comment, when there is one.
    pub refine: Vec<u64>,
    /// The first pull request that closes the issue, with its head branch.
    pub pr: Option<(PrRef, String)>,
}

pub struct IssueFactsModel {
    pub closed: bool,
    pub labels: Seq<Text>,
    pub refine: Seq<u64>,
    pub pr: Option<(PrModel, Text)>,
}

impl View for IssueFacts {
    type V = IssueFactsModel;

    open spec fn view(&self) -> IssueFactsModel {
        IssueFactsModel {
            closed: self.closed,
            labels: models(self.labels@),
            refine: self.refine@,
            pr: match self.pr {
                Some(p) => Some((p.0@, p.1@)),
                None => None,
            },
        }
    }
}

/// The nodes of a connection.
pub open spec fn nodes(issue: JsonModel, key: Text) -> Seq<JsonModel> {
    items(member(member(issue, key), "nodes"@))
}

/// The names of those nodes that have one.
pub open spec fn names(ns: Seq<JsonModel>) -> Seq<Text>
    decreases ns.len(),
{
    if ns.len() == 0 {
        Seq::empty()
    } else {
        let before = names(ns.drop_last());
        match string(member(ns.last(), "name"@)) {
            Some(name) => before.push(name),
            None => before,
        }
    }
}

/// The sub-issues of the first comment that announces any.
pub open spec fn first_refined(comments: Seq<JsonModel>) -> Seq<u64>
    decreases comments.len(),
{
    if comments.len() == 0 {
        Seq::empty()
    } else {
        let before = first_refined(comments.drop_last());
        if before.len() > 0 {
            before
        } else {
            match string(member(comments.last(), "body"@)) {
                Some(body) => refined(body),
                None => Seq::empty(),
            }
        }
    }
}

/// The pull request of a node that names its state and its number, with its head branch. A state that is neither merged
/// nor open counts as closed.
pub open spec fn closing_pr(node: JsonModel) -> Option<(PrModel, Text)> {
    match (string(member(node, "state"@)), number(member(node, "number"@))) {
        (Some(s), Some(n)) => Some(
            (
                PrModel {
                    number: n,
                    url: text_of(member(node, "url"@)),
                    state: if ascii_lowered(s) == "merged"@ {
                        PrState::Merged
                    } else if ascii_lowered(s) == "open"@ {
                        PrState::Open
                    } else {
                        PrState::Closed
                    },
                    merged_commit: string(member(member(node, "mergeCommit"@), "oid"@)),
                },
                text_of(member(node, "headRefName"@)),
            ),
        ),
        _ => None,
    }
}

/// What an issue's answer says.
pub open spec fn facts_of(issue: JsonModel) -> IssueFactsModel {
    let closing = nodes(issue, "closedByPullRequestsReferences"@);
    IssueFactsModel {
        closed: string(member(issue, "state"@)) matches Some(s) && ascii_lowered(s) == "closed"@,
        labels: names(nodes(issue, "labels"@)),
        refine: first_refined(nodes(issue, "comments"@)),
        pr: if closing.len() == 0 {
            None
        } else {
            closing_pr(closing[0])
        },
    }
}

fn nodes_of<'a>(issue: &'a Json, key: &str) -> (r: Option<&'a Vec<Json>>)
    ensures
        nodes(issue@, key@) == match r {
            Some(v) => models(v@),
            None => Seq::empty(),
        },
{
    let r: Option<&Vec<Json>> = as_array(get(get(Some(issue), key), "nodes"));
    proof {
        match r {
            Some(v) => {
                assert(models(v@) =~= nodes(issue@, key@));
            },
            None => {},
        }
    }
    r
}

fn names_of(ns: &Vec<Json>) -> (r: Vec<String>)
    ensures
        models(r@) == names(models(ns@)),
{
    let ghost all = models(ns@);
    let mut out: Vec<String> = Vec::new();
    let mut i: usize = 0;
    while i < ns.len()
        invariant
            all == models(ns@),
            i <= ns@.len(),
            models(out@) == names(all.take(i as int)),
        decreases ns@.len() - i,
    {
        proof {
            assert(all.take(i + 1).drop_last() =~= all.take(i as int));
            assert(all.take(i + 1).last() == ns@[i as int]@);
        }
        match text_opt(get(Some(&ns[i]), "name")) {
            Some(name) => out.push(name),
            None => {},
        }
        i = i + 1;
    }
    assert(all.take(all.len() as int) =~= all);
    out
}

proof fn lemma_first_refined(comments: Seq<JsonModel>, n: int)
    requires
        0 <= n <= comments.len(),
        first_refined(comments.take(n)).len() > 0,
    ensures
        first_refined(comments) == first_refined(comments.take(n)),
    decreases comments.len() - n,
{
    if n < comments.len() {
        assert(comments.take(n + 1).drop_last() =~= comments.take(n));
        lemma_first_refined(comments, n + 1);
    } else {
        assert(comments.take(n) =~= comments);
    }
}

fn refined_of(comments: &Vec<Json>) -> (r: Vec<u64>)
    ensures
        r@ == first_refined(models(comments@)),
{
    let ghost all = models(comments@);
    let mut i: usize = 0;
    while i < comments.len()
        invariant
            all == models(comments@),
            i <= comments@.len(),
            first_refined(all.take(i as int)).len() == 0,
        decreases comments@.len() - i,
    {
        proof {
            assert(all.take(i + 1).drop_last() =~= all.take(i as int));
            assert(all.take(i + 1).last() == comments@[i as int]@);
        }
        match as_str(get(Some(&comments[i]), "body")) {
            Some(body) => {
                let found: Vec<u64> = parse_refine_comment(body);
                if found.len() > 0 {
                    proof {
                        lemma_first_refined(all, i + 1);
                    }
                    return found;
                }
            },
            None => {},
        }
        i = i + 1;
    }
    assert(all.take(all.len() as int) =~= all);
    let none: Vec<u64> = Vec::new();
    assert(none@ =~= first_refined(all));
    none
}

fn closing_pr_of(node: &Json) -> (r: Option<(PrRef, String)>)
    ensures
        match r {
            Some(p) => closing_pr(node@) == Some((p.0@, p.1@)),
            None => closing_pr(node@) is None,
        },
{
    let low: String = match as_str(get(Some(node), "state")) {
        Some(s) => lower_ascii(s),
        None => return None,
    };
    let state: PrState = if same(&low, "merged") {
        PrState::Merged
    } else if same(&low, "open") {
        PrState::Open
    } else {
        PrState::Closed
    };
    let number: u64 = match as_u64(get(Some(node), "number")) {
        Some(n) => n,
        None => return None,
    };
    let pr: PrRef = PrRef {
        number,
        url: text_or_empty(get(Some(node), "url")),
        state,
        merged_commit: text_opt(get(get(Some(node), "mergeCommit"), "oid")),
    };
    Some((pr, text_or_empty(get(Some(node), "headRefName"))))
}

/// What an issue's answer says.
pub fn issue_facts(issue: &Json) -> (r: IssueFacts)
    ensures
        r@ == facts_of(issue@),
{
    let labels: Vec<String> = match nodes_of(issue, "labels") {
        Some(ns) => names_of(ns),
        None => Vec::new(),
    };
    let refine: Vec<u64> = match nodes_of(issue, "comments") {
        Some(ns) => refined_of(ns),
        None => Vec::new(),
    };
    let pr: Option<(PrRef, String)> = match nodes_of(issue, "closedByPullRequestsReferences") {
        Some(ns) => {
            let ghost all = models(ns@);
            if ns.len() == 0 {
                None
            } else {
                assert(all[0] == ns@[0]@);
                closing_pr_of(&ns[0])
            }
        },
        None => None,
    };
    let closed: bool = match as_str(get(Some(issue), "state")) {
        Some(s) => same(&lower_ascii(s), "closed"),
        None => false,
    };
    assert(names(Seq::empty()) =~= Seq::<Text>::empty());
    assert(first_refined(Seq::empty()) =~= Seq::<u64>::empty());
    let r: IssueFacts = IssueFacts { closed, labels, refine, pr };
    assert(r@.labels =~= facts_of(issue@).labels);
    assert(r@.refine =~= facts_of(issue@).refine);
    r
}

/// What an answer to the batched query says of an issue; `None` when it does not speak of it.
pub open spec fn facts_in(j: JsonModel, n: u64) -> Option<IssueFactsModel> {
    let issue = member(member(member(j, "data"@), "repository"@), "i"@ + decimal(n as nat));
    if issue is Object {
        Some(facts_of(issue))
    } else {
        None
    }
}

/// What an answer to the batched query says of an issue.
pub fn facts_from(j: &Json, n: u64) -> (r: Option<IssueFacts>)
    ensures
        opt_model(r) == facts_in(j@, n),
{
    let repository: Option<&Json> = get(get(Some(j), "data"), "repository");
    match get(repository, &concat2("i", &to_decimal(n))) {
        Some(issue) => match issue {
            Json::Object(_) => Some(issue_facts(issue)),
            _ => None,
        },
        None => None,
    }
}

/// Read the answer to the batched query.
pub fn batch_answer(out: &str) -> (r: Result<Json, String>)
    ensures
        match (reading(out@), r) {
            (Ok(j), Ok(v)) => v@ == j,
            (Err(e), Err(text)) => text@ == "unexpected graphql output: "@ + out@ + ": "@ + e,
            _ => false,
        },
{
    match parse(out) {
        Ok(j) => Ok(j),
        Err(e) => Err(concat4("unexpected graphql output: ", out, ": ", &e)),
    }
}

/// `gh issue view` of one sub-issue.
pub fn ask_issue(repo: &str, n: u64) -> (r: Invocation)
    ensures
        r@ == gh_in(repo@).arg("issue"@).arg("view"@).arg(decimal(n as nat)).arg("--json"@).arg("title,body"@),
{
    gh(repo).arg("issue").arg("view").arg(&to_decimal(n)).arg("--json").arg("title,body")
}

/// The title a sub-issue's ticket gets.
pub open spec fn issue_title(j: JsonModel) -> Text {
    match string(member(j, "title"@)) {
        Some(t) => t,
        None => "(untitled)"@,
    }
}

/// A sub-issue's title and spec.
pub fn spec_from(j: &Json, n: u64) -> (r: SubIssueSpec)
    ensures
        r.number == n && r.title@ == issue_title(j@) && r.body@ == text_of(member(j@, "body"@)),
{
    let title: String = match text_opt(get(Some(j), "title")) {
        Some(t) => t,
        None => "(untitled)".to_owned(),
    };
    SubIssueSpec { number: n, title, body: text_or_empty(get(Some(j), "body")) }
}

/// A sub-issue's title and spec, as `gh issue view` answers.
pub fn fetch_issue(out: &str, n: u64) -> (r: Result<SubIssueSpec, String>)
    ensures
        match (reading(out@), r) {
            (Ok(j), Ok(s)) => s.number == n && s.title@ == issue_title(j) && s.body@ == text_of(member(j, "body"@)),
            (Err(e), Err(text)) => text@ == "unexpected `gh issue view` output: "@ + out@ + ": "@ + e,
            _ => false,
        },
{
    match parse(out) {
        Ok(j) => Ok(spec_from(&j, n)),
        Err(e) => Err(concat4("unexpected `gh issue view` output: ", out, ": ", &e)),
    }
}

// ---- following a delegated ticket -----------------------------------------------------------------------------------

/// Some ticket is bound to that issue.
pub open spec fn is_bound(ts: Seq<TicketModel>, n: u64) -> bool {
    exists|i: int| 0 <= i < ts.len() && binds(#[trigger] ts[i], n)
}

/// A ticket is bound to that issue.
pub open spec fn binds(t: TicketModel, n: u64) -> bool {
    t.external matches Some(e) && e.is_issue() && e.number == n
}

/// The issues that no ticket is bound to.
pub open spec fn unmirrored(ns: Seq<u64>, ts: Seq<TicketModel>) -> Seq<u64>
    decreases ns.len(),
{
    if ns.len() == 0 {
        Seq::empty()
    } else {
        let before = unmirrored(ns.drop_last(), ts);
        if is_bound(ts, ns.last()) {
            before
        } else {
            before.push(ns.last())
        }
    }
}

/// Some of the issues are not among those mirrored already.
pub open spec fn has_news(ns: Seq<u64>, mirrored: Seq<u64>) -> bool {
    exists|i: int| 0 <= i < ns.len() && !mirrored.contains(#[trigger] ns[i])
}

/// The first of the flag labels that the issue carries.
pub open spec fn flag_in(flags: Seq<Text>, labels: Seq<Text>) -> Option<Text>
    decreases flags.len(),
{
    if flags.len() == 0 {
        None
    } else {
        match flag_in(flags.drop_last(), labels) {
            Some(f) => Some(f),
            None => if labels.contains(flags.last()) {
                Some(flags.last())
            } else {
                None
            },
        }
    }
}

/// The binding as the issue is seen now.
pub open spec fn observed_binding(ext: ExternalModel, facts: IssueFactsModel, flags: Seq<Text>) -> ExternalModel {
    ExternalModel { closed: facts.closed, flag: flag_in(flags, facts.labels), ..ext }
}

/// The note on a new flag label.
pub open spec fn flag_note(n: u64, label: Text) -> Text {
    "minesweeper flagged: issue #"@ + decimal(n as nat) + " carries `"@ + label
        + "` — investigate on GitHub; the ticket stays in doing until you decide"@
}

/// The note on an issue closed without a request.
pub open spec fn closed_note(n: u64) -> Text {
    "issue #"@ + decimal(n as nat) + " was closed without a PR — rework the ticket, release it, or close it out by hand"@
}

/// The alarms of a change of the binding: each fires once, on the change. That an issue which was split is closed is
/// progress, not trouble.
pub open spec fn alarms(before: ExternalModel, now: ExternalModel, in_doing: bool) -> Seq<Text> {
    let flagged = match now.flag {
        Some(label) => if now.flag != before.flag {
            Seq::<Text>::empty().push(flag_note(before.number, label))
        } else {
            Seq::<Text>::empty()
        },
        None => Seq::<Text>::empty(),
    };
    if now.closed && !before.closed && in_doing && now.sub_issues.len() == 0 {
        flagged.push(closed_note(before.number))
    } else {
        flagged
    }
}

/// What to do about one ticket.
#[derive(Debug)]
pub enum TrackStep {
    /// Nothing changed.
    Nothing,
    /// Fetch these sub-issues first.
    Fetch(Vec<u64>),
    /// Record the request where it is news, and move a card in `doing` to review on its head branch.
    Review { pr: Option<PrRef>, head: Option<String> },
    /// Mirror the sub-issues.
    Mirror,
    /// Write what was observed onto the binding, and note the alarms.
    Observe { external: External, notes: Vec<String> },
}

pub enum TrackStepModel {
    Nothing,
    Fetch(Seq<u64>),
    Review { pr: Option<PrModel>, head: Option<Text> },
    Mirror,
    Observe { external: ExternalModel, notes: Seq<Text> },
}

impl View for TrackStep {
    type V = TrackStepModel;

    open spec fn view(&self) -> TrackStepModel {
        match self {
            TrackStep::Nothing => TrackStepModel::Nothing,
            TrackStep::Fetch(ns) => TrackStepModel::Fetch(ns@),
            TrackStep::Review { pr, head } => TrackStepModel::Review { pr: opt_model(*pr), head: opt_model(*head) },
            TrackStep::Mirror => TrackStepModel::Mirror,
            TrackStep::Observe { external, notes } => TrackStepModel::Observe { external: external@, notes: models(notes@) },
        }
    }
}

/// What to do about one ticket, in order of precedence: a request that closes its issue; a split that is not fully
/// mirrored yet; what else was observed, where that changed. `fetched` says that the sub-issues are at hand.
pub open spec fn track_spec(
    t: TicketModel,
    ts: Seq<TicketModel>,
    facts: Option<IssueFactsModel>,
    flags: Seq<Text>,
    fetched: bool,
) -> TrackStepModel {
    let in_doing = t.column.id() == ColumnId::Doing;
    match (t.external, facts) {
        (Some(ext), Some(f)) => match f.pr {
            Some(p) => if in_doing || t.pr != Some(p.0) {
                TrackStepModel::Review {
                    pr: if t.pr != Some(p.0) {
                        Some(p.0)
                    } else {
                        None
                    },
                    head: if in_doing {
                        Some(p.1)
                    } else {
                        None
                    },
                }
            } else {
                TrackStepModel::Nothing
            },
            None => if in_doing && has_news(f.refine, ext.sub_issues) {
                if unmirrored(f.refine, ts).len() > 0 && !fetched {
                    TrackStepModel::Fetch(unmirrored(f.refine, ts))
                } else {
                    TrackStepModel::Mirror
                }
            } else {
                let now = observed_binding(ext, f, flags);
                if now == ext {
                    TrackStepModel::Nothing
                } else {
                    TrackStepModel::Observe { external: now, notes: alarms(ext, now, in_doing) }
                }
            },
        },
        _ => TrackStepModel::Nothing,
    }
}

fn has_number(v: &Vec<u64>, n: u64) -> (r: bool)
    ensures
        r == v@.contains(n),
{
    let mut i: usize = 0;
    while i < v.len()
        invariant
            i <= v@.len(),
            forall|j: int| 0 <= j < i ==> #[trigger] v@[j] != n,
        decreases v@.len() - i,
    {
        if v[i] == n {
            return true;
        }
        i = i + 1;
    }
    false
}

fn any_news(ns: &Vec<u64>, mirrored: &Vec<u64>) -> (r: bool)
    ensures
        r == has_news(ns@, mirrored@),
{
    let mut i: usize = 0;
    while i < ns.len()
        invariant
            i <= ns@.len(),
            forall|j: int| 0 <= j < i ==> mirrored@.contains(#[trigger] ns@[j]),
        decreases ns@.len() - i,
    {
        if !has_number(mirrored, ns[i]) {
            return true;
        }
        i = i + 1;
    }
    false
}

fn bound_to(board: &Board, n: u64) -> (r: bool)
    ensures
        r == is_bound(board@.tickets, n),
{
    let ghost ts = board@.tickets;
    let mut i: usize = 0;
    while i < board.tickets.len()
        invariant
            ts == models(board.tickets@),
            i <= board.tickets@.len(),
            forall|j: int| 0 <= j < i ==> !binds(#[trigger] ts[j], n),
        decreases board.tickets@.len() - i,
    {
        assert(ts[i as int] == board.tickets@[i as int]@);
        match &board.tickets[i].external {
            Some(e) => {
                if e.is_github_issue() && e.number == n {
                    assert(binds(ts[i as int], n));
                    return true;
                }
            },
            None => {},
        }
        i = i + 1;
    }
    false
}

fn not_mirrored(ns: &Vec<u64>, board: &Board) -> (r: Vec<u64>)
    ensures
        r@ == unmirrored(ns@, board@.tickets),
{
    let mut out: Vec<u64> = Vec::new();
    let mut i: usize = 0;
    while i < ns.len()
        invariant
            i <= ns@.len(),
            out@ == unmirrored(ns@.take(i as int), board@.tickets),
        decreases ns@.len() - i,
    {
        proof {
            assert(ns@.take(i + 1).drop_last() =~= ns@.take(i as int));
        }
        if !bound_to(board, ns[i]) {
            out.push(ns[i]);
        }
        i = i + 1;
    }
    assert(ns@.take(ns@.len() as int) =~= ns@);
    out
}

fn first_flag(flags: &Vec<String>, labels: &Vec<String>) -> (r: Option<String>)
    ensures
        opt_model(r) == flag_in(models(flags@), models(labels@)),
{
    let ghost all = models(flags@);
    let mut found: Option<String> = None;
    let mut i: usize = 0;
    while i < flags.len()
        invariant
            all == models(flags@),
            i <= flags@.len(),
            opt_model(found) == flag_in(all.take(i as int), models(labels@)),
        decreases flags@.len() - i,
    {
        proof {
            assert(all.take(i + 1).drop_last() =~= all.take(i as int));
            assert(all.take(i + 1).last() == flags@[i as int]@);
        }
        if found.is_none() && listed(labels, &flags[i]) {
            found = Some(flags[i].clone());
        }
        i = i + 1;
    }
    assert(all.take(all.len() as int) =~= all);
    found
}

fn alarm_notes(before: &External, now: &External, in_doing: bool) -> (r: Vec<String>)
    ensures
        models(r@) == alarms(before@, now@, in_doing),
{
    let mut notes: Vec<String> = Vec::new();
    match &now.flag {
        Some(label) => {
            if !same_opt(&now.flag, &before.flag) {
                notes.push(
                    concat5(
                        "minesweeper flagged: issue #",
                        &to_decimal(before.number),
                        " carries `",
                        label,
                        "` — investigate on GitHub; the ticket stays in doing until you decide",
                    ),
                );
            }
        },
        None => {},
    }
    if now.closed && !before.closed && in_doing && now.sub_issues.len() == 0 {
        notes.push(
            concat3(
                "issue #",
                &to_decimal(before.number),
                " was closed without a PR — rework the ticket, release it, or close it out by hand",
            ),
        );
    }
    notes
}

/// One delegated ticket against what its issue says: what to do about it.
pub fn track_ticket(t: &Ticket, board: &Board, facts: Option<&IssueFacts>, flags: &Vec<String>, fetched: bool) -> (r:
    TrackStep)
    ensures
        r@ == track_spec(
            t@,
            board@.tickets,
            match facts {
                Some(f) => Some(f@),
                None => None,
            },
            models(flags@),
            fetched,
        ),
{
    let in_doing: bool = t.column.id() == ColumnId::Doing;
    let (ext, f): (&External, &IssueFacts) = match (&t.external, facts) {
        (Some(ext), Some(f)) => (ext, f),
        _ => return TrackStep::Nothing,
    };
    match &f.pr {
        Some(p) => {
            let fresh: bool = match &t.pr {
                Some(old_pr) => !old_pr.same(&p.0),
                None => true,
            };
            if !in_doing && !fresh {
                return TrackStep::Nothing;
            }
            let pr: Option<PrRef> = if fresh { Some(p.0.clone()) } else { None };
            let head: Option<String> = if in_doing { Some(p.1.clone()) } else { None };
            return TrackStep::Review { pr, head };
        },
        None => {},
    }
    if in_doing && any_news(&f.refine, &ext.sub_issues) {
        let wanted: Vec<u64> = not_mirrored(&f.refine, board);
        if wanted.len() > 0 && !fetched {
            return TrackStep::Fetch(wanted);
        }
        return TrackStep::Mirror;
    }
    let flag: Option<String> = first_flag(flags, &f.labels);
    if f.closed == ext.closed && same_opt(&flag, &ext.flag) {
        return TrackStep::Nothing;
    }
    let mut now: External = ext.clone();
    now.closed = f.closed;
    now.flag = flag;
    let notes: Vec<String> = alarm_notes(ext, &now, in_doing);
    TrackStep::Observe { external: now, notes }
}

/// Notes on a ticket, in order.
pub open spec fn note_writes(id: Text, notes: Seq<Text>) -> Seq<WriteModel> {
    Seq::new(notes.len(), |i: int| WriteModel::Note { id, text: notes[i] })
}

/// What a step takes, in order.
pub open spec fn step_writes(step: TrackStepModel, id: Text, children: Seq<SubIssueModel>) -> Seq<WriteModel> {
    match step {
        TrackStepModel::Nothing => Seq::empty(),
        TrackStepModel::Fetch(_) => Seq::empty(),
        TrackStepModel::Review { pr, head } => {
            let recorded = match pr {
                Some(pr) => Seq::<WriteModel>::empty().push(WriteModel::Request { id, pr }),
                None => Seq::<WriteModel>::empty(),
            };
            match head {
                Some(head) => recorded.push(WriteModel::Review { id, head }),
                None => recorded,
            }
        },
        TrackStepModel::Mirror => Seq::<WriteModel>::empty().push(WriteModel::Mirror { id, children }),
        TrackStepModel::Observe { external, notes } => Seq::<WriteModel>::empty().push(WriteModel::Bind { id, external })
            + note_writes(id, notes),
    }
}

/// What a step takes, in order.
pub fn track_writes(step: TrackStep, id: &TicketId, children: Vec<SubIssueSpec>) -> (r: Vec<Write>)
    ensures
        models(r@) == step_writes(step@, id@, models(children@)),
{
    let mut out: Vec<Write> = Vec::new();
    match step {
        TrackStep::Nothing => {},
        TrackStep::Fetch(_) => {},
        TrackStep::Review { pr, head } => {
            match pr {
                Some(pr) => out.push(Write::Request { id: id.clone(), pr }),
                None => {},
            }
            match head {
                Some(head) => out.push(Write::Review { id: id.clone(), head }),
                None => {},
            }
        },
        TrackStep::Mirror => out.push(Write::Mirror { id: id.clone(), children }),
        TrackStep::Observe { external, notes } => {
            let ghost texts = models(notes@);
            let ghost first = Seq::<WriteModel>::empty().push(WriteModel::Bind { id: id@, external: external@ });
            out.push(Write::Bind { id: id.clone(), external });
            let mut i: usize = 0;
            assert(first + note_writes(id@, texts.take(0)) =~= first);
            while i < notes.len()
                invariant
                    texts == models(notes@),
                    i <= notes@.len(),
                    models(out@) == first + note_writes(id@, texts.take(i as int)),
                decreases notes@.len() - i,
            {
                assert(texts[i as int] == notes@[i as int]@);
                out.push(Write::Note { id: id.clone(), text: notes[i].clone() });
                assert(first + note_writes(id@, texts.take(i + 1)) =~= (first + note_writes(id@, texts.take(i as int))).push(
                    WriteModel::Note { id: id@, text: texts[i as int] },
                ));
                i = i + 1;
            }
            assert(texts.take(texts.len() as int) =~= texts);
        },
    }
    out
}

// ---- the pass as a whole --------------------------------------------------------------------------------------------

/// What came back of fetching a sub-issue.
pub type Fetched = (u64, Result<SubIssueSpec, String>);

pub type FetchedModel = (u64, Result<SubIssueModel, Text>);

/// What was fetched, as contracts speak of it.
pub open spec fn fetches(issues: Seq<Fetched>) -> Seq<FetchedModel> {
    Seq::new(
        issues.len(),
        |i: int|
            (
                issues[i].0,
                match issues[i].1 {
                    Ok(spec) => Ok::<SubIssueModel, Text>(spec@),
                    Err(e) => Err::<SubIssueModel, Text>(e@),
                },
            ),
    )
}

/// What first came back of an issue; `None` where it was not fetched yet.
pub open spec fn fetched_issue(issues: Seq<FetchedModel>, n: u64) -> Option<Result<SubIssueModel, Text>>
    decreases issues.len(),
{
    if issues.len() == 0 {
        None
    } else if issues[0].0 == n {
        Some(issues[0].1)
    } else {
        fetched_issue(issues.subrange(1, issues.len() as int), n)
    }
}

/// Some fetch failed.
pub open spec fn any_failed(issues: Seq<FetchedModel>) -> bool {
    exists|i: int| 0 <= i < issues.len() && (#[trigger] issues[i]).1 is Err
}

/// The first of some issues that was not fetched yet.
pub open spec fn first_unfetched(ns: Seq<u64>, issues: Seq<FetchedModel>) -> Option<u64>
    decreases ns.len(),
{
    if ns.len() == 0 {
        None
    } else {
        match first_unfetched(ns.drop_last(), issues) {
            Some(n) => Some(n),
            None => if fetched_issue(issues, ns.last()) is None {
                Some(ns.last())
            } else {
                None
            },
        }
    }
}

/// The sub-issues that were fetched, in order.
pub open spec fn picked(ns: Seq<u64>, issues: Seq<FetchedModel>) -> Seq<SubIssueModel>
    decreases ns.len(),
{
    if ns.len() == 0 {
        Seq::empty()
    } else {
        let before = picked(ns.drop_last(), issues);
        match fetched_issue(issues, ns.last()) {
            Some(Ok(spec)) => before.push(spec),
            _ => before,
        }
    }
}

/// What the batched answer says of a ticket's issue.
pub open spec fn facts_on(t: TicketModel, j: JsonModel) -> Option<IssueFactsModel> {
    match t.external {
        Some(ext) => facts_in(j, ext.number),
        None => None,
    }
}

/// The sub-issue a ticket's split still needs, if any.
pub open spec fn lacking(t: TicketModel, ts: Seq<TicketModel>, j: JsonModel, flags: Seq<Text>, issues: Seq<FetchedModel>) -> Option<
    u64,
> {
    match track_spec(t, ts, facts_on(t, j), flags, false) {
        TrackStepModel::Fetch(ns) => first_unfetched(ns, issues),
        _ => None,
    }
}

/// The first sub-issue that some tracked ticket of `some` needs.
pub open spec fn wanted(
    some: Seq<TicketModel>,
    ts: Seq<TicketModel>,
    j: JsonModel,
    flags: Seq<Text>,
    issues: Seq<FetchedModel>,
) -> Option<u64>
    decreases some.len(),
{
    if some.len() == 0 {
        None
    } else {
        match wanted(some.drop_last(), ts, j, flags, issues) {
            Some(n) => Some(n),
            None => if is_tracked(some.last()) {
                lacking(some.last(), ts, j, flags, issues)
            } else {
                None
            },
        }
    }
}

/// What one ticket takes, with its sub-issues at hand.
pub open spec fn ticket_writes(
    t: TicketModel,
    ts: Seq<TicketModel>,
    j: JsonModel,
    flags: Seq<Text>,
    issues: Seq<FetchedModel>,
) -> Seq<WriteModel> {
    let children = match facts_on(t, j) {
        Some(f) => picked(unmirrored(f.refine, ts), issues),
        None => Seq::empty(),
    };
    step_writes(track_spec(t, ts, facts_on(t, j), flags, true), t.id, children)
}

/// Everything the tracked tickets of `some` take, and how many of them change.
pub open spec fn gathered(
    some: Seq<TicketModel>,
    ts: Seq<TicketModel>,
    j: JsonModel,
    flags: Seq<Text>,
    issues: Seq<FetchedModel>,
) -> (Seq<WriteModel>, nat)
    decreases some.len(),
{
    if some.len() == 0 {
        (Seq::empty(), 0)
    } else {
        let before = gathered(some.drop_last(), ts, j, flags, issues);
        let t = some.last();
        if is_tracked(t) && !(track_spec(t, ts, facts_on(t, j), flags, true) is Nothing) {
            (before.0 + ticket_writes(t, ts, j, flags, issues), before.1 + 1)
        } else {
            before
        }
    }
}

/// The tickets that some writes are made on.
pub open spec fn written(ws: Seq<WriteModel>) -> Set<Text> {
    Seq::new(ws.len(), |i: int| ws[i].ticket()).to_set()
}

/// How many tickets a pass has changed that is stopped at its `n`th write: those it has written to, but for the one that the
/// write is made on, whose turn was not over.
pub open spec fn changed_before(ws: Seq<WriteModel>, n: int) -> nat {
    written(ws.take(n)).remove(ws[n].ticket()).len()
}

fn writes_to(writes: &Vec<Write>, n: usize, id: &TicketId) -> (r: bool)
    requires
        n <= writes@.len(),
    ensures
        r == written(models(writes@).take(n as int)).contains(id@),
{
    let ghost ws = models(writes@);
    let ghost named = Seq::new(n as nat, |i: int| ws.take(n as int)[i].ticket());
    let mut i: usize = 0;
    while i < n
        invariant
            ws == models(writes@),
            i <= n <= writes@.len(),
            named == Seq::new(n as nat, |i: int| ws.take(n as int)[i].ticket()),
            forall|j: int| 0 <= j < i ==> #[trigger] named[j] != id@,
        decreases n - i,
    {
        assert(named[i as int] == writes@[i as int]@.ticket());
        if same(&writes[i].ticket().0, &id.0) {
            assert(named.contains(id@));
            return true;
        }
        i = i + 1;
    }
    false
}

/// How many tickets a pass has changed that is stopped at its `n`th write.
pub fn changed(writes: &Vec<Write>, n: usize) -> (r: usize)
    requires
        n < writes@.len(),
    ensures
        r == changed_before(models(writes@), n as int),
{
    let ghost ws = models(writes@);
    let last: &TicketId = writes[n].ticket();
    let mut count: usize = 0;
    let mut i: usize = 0;
    proof {
        assert(written(ws.take(0)).remove(last@) =~= Set::empty());
    }
    while i < n
        invariant
            ws == models(writes@),
            i <= n < writes@.len(),
            count <= i,
            written(ws.take(i as int)).finite(),
            count == written(ws.take(i as int)).remove(last@).len(),
        decreases n - i,
    {
        let id: &TicketId = writes[i].ticket();
        proof {
            lemma_written(ws, i as int);
            let before = written(ws.take(i as int));
            if id@ == last@ {
                assert(before.insert(id@).remove(last@) =~= before.remove(last@));
            } else {
                assert(before.insert(id@).remove(last@) =~= before.remove(last@).insert(id@));
            }
        }
        if !same(&id.0, &last.0) && !writes_to(writes, i, id) {
            count = count + 1;
        }
        i = i + 1;
    }
    count
}

proof fn lemma_written(ws: Seq<WriteModel>, i: int)
    requires
        0 <= i < ws.len(),
    ensures
        written(ws.take(i + 1)) == written(ws.take(i)).insert(ws[i].ticket()),
        written(ws.take(i + 1)).finite(),
{
    let (a, b) = (ws.take(i), ws.take(i + 1));
    let (x, y) = (Seq::new(a.len(), |k: int| a[k].ticket()), Seq::new(b.len(), |k: int| b[k].ticket()));
    assert(y =~= x.push(ws[i].ticket()));
    vstd::seq_lib::seq_to_set_is_finite(y);
    assert forall|t: Text| written(b).contains(t) == #[trigger] written(a).insert(ws[i].ticket()).contains(t) by {
        if x.contains(t) {
            let k = choose|k: int| 0 <= k < x.len() && x[k] == t;
            assert(y[k] == t);
        }
        if t == ws[i].ticket() {
            assert(y[i] == t);
        }
        if y.contains(t) {
            let k = choose|k: int| 0 <= k < y.len() && y[k] == t;
            if k < i {
                assert(x[k] == t);
            }
        }
    }
    assert(written(b) =~= written(a).insert(ws[i].ticket()));
}

/// The next step of the pass.
#[derive(Debug)]
pub enum FollowStep {
    /// Ask about these issues, all at once.
    Query(Vec<u64>),
    /// Fetch this sub-issue.
    Fetch(u64),
    /// All there is to write, in order, and how many tickets change by it.
    Done { writes: Vec<Write>, updated: usize },
}

pub enum FollowStepModel {
    Query(Seq<u64>),
    Fetch(u64),
    Done { writes: Seq<WriteModel>, updated: nat },
}

impl View for FollowStep {
    type V = FollowStepModel;

    open spec fn view(&self) -> FollowStepModel {
        match self {
            FollowStep::Query(ns) => FollowStepModel::Query(ns@),
            FollowStep::Fetch(n) => FollowStepModel::Fetch(*n),
            FollowStep::Done { writes, updated } => FollowStepModel::Done { writes: models(writes@), updated: *updated as nat },
        }
    }
}

/// The next step of the pass: the batched query, then the sub-issues that a split needs, and only then is there anything to
/// write. Trouble with either ends the pass, with nothing written.
pub open spec fn follow_spec(
    on: bool,
    flags: Seq<Text>,
    ts: Seq<TicketModel>,
    answer: Option<Result<JsonModel, Text>>,
    issues: Seq<FetchedModel>,
) -> FollowStepModel {
    if !on || tracked_numbers(ts).len() == 0 {
        FollowStepModel::Done { writes: Seq::empty(), updated: 0 }
    } else {
        match answer {
            None => FollowStepModel::Query(tracked_numbers(ts)),
            Some(Err(_)) => FollowStepModel::Done { writes: Seq::empty(), updated: 0 },
            Some(Ok(j)) => if any_failed(issues) {
                FollowStepModel::Done { writes: Seq::empty(), updated: 0 }
            } else {
                match wanted(ts, ts, j, flags, issues) {
                    Some(n) => FollowStepModel::Fetch(n),
                    None => {
                        let all = gathered(ts, ts, j, flags, issues);
                        FollowStepModel::Done { writes: all.0, updated: all.1 }
                    },
                }
            },
        }
    }
}

fn fetched_of<'a>(issues: &'a Vec<Fetched>, n: u64) -> (r: Option<&'a Result<SubIssueSpec, String>>)
    ensures
        match r {
            Some(Ok(spec)) => fetched_issue(fetches(issues@), n) == Some(Ok::<SubIssueModel, Text>(spec@)),
            Some(Err(e)) => fetched_issue(fetches(issues@), n) == Some(Err::<SubIssueModel, Text>(e@)),
            None => fetched_issue(fetches(issues@), n) is None,
        },
{
    let ghost all = fetches(issues@);
    let mut i: usize = 0;
    assert(all.subrange(0, all.len() as int) =~= all);
    while i < issues.len()
        invariant
            all == fetches(issues@),
            i <= issues@.len(),
            fetched_issue(all, n) == fetched_issue(all.subrange(i as int, all.len() as int), n),
        decreases issues@.len() - i,
    {
        proof {
            let rest = all.subrange(i as int, all.len() as int);
            assert(rest[0] == all[i as int]);
            assert(rest.subrange(1, rest.len() as int) =~= all.subrange(i + 1, all.len() as int));
        }
        if issues[i].0 == n {
            return Some(&issues[i].1);
        }
        i = i + 1;
    }
    None
}

fn has_failed(issues: &Vec<Fetched>) -> (r: bool)
    ensures
        r == any_failed(fetches(issues@)),
{
    let ghost all = fetches(issues@);
    let mut i: usize = 0;
    while i < issues.len()
        invariant
            all == fetches(issues@),
            i <= issues@.len(),
            forall|j: int| 0 <= j < i ==> !((#[trigger] all[j]).1 is Err),
        decreases issues@.len() - i,
    {
        if issues[i].1.is_err() {
            assert(all[i as int].1 is Err);
            return true;
        }
        i = i + 1;
    }
    false
}

proof fn lemma_unfetched(ns: Seq<u64>, issues: Seq<FetchedModel>, k: int)
    requires
        0 <= k <= ns.len(),
        first_unfetched(ns.take(k), issues) is Some,
    ensures
        first_unfetched(ns, issues) == first_unfetched(ns.take(k), issues),
    decreases ns.len() - k,
{
    if k < ns.len() {
        assert(ns.take(k + 1).drop_last() =~= ns.take(k));
        lemma_unfetched(ns, issues, k + 1);
    } else {
        assert(ns.take(k) =~= ns);
    }
}

fn unfetched(ns: &Vec<u64>, issues: &Vec<Fetched>) -> (r: Option<u64>)
    ensures
        r == first_unfetched(ns@, fetches(issues@)),
{
    let ghost all = fetches(issues@);
    let mut i: usize = 0;
    while i < ns.len()
        invariant
            all == fetches(issues@),
            i <= ns@.len(),
            first_unfetched(ns@.take(i as int), all) is None,
        decreases ns@.len() - i,
    {
        proof {
            assert(ns@.take(i + 1).drop_last() =~= ns@.take(i as int));
            assert(ns@.take(i + 1).last() == ns@[i as int]);
        }
        if fetched_of(issues, ns[i]).is_none() {
            proof {
                lemma_unfetched(ns@, all, i + 1);
            }
            return Some(ns[i]);
        }
        i = i + 1;
    }
    assert(ns@.take(ns@.len() as int) =~= ns@);
    None
}

fn pick(ns: &Vec<u64>, issues: &Vec<Fetched>) -> (r: Vec<SubIssueSpec>)
    ensures
        models(r@) == picked(ns@, fetches(issues@)),
{
    let ghost all = fetches(issues@);
    let mut out: Vec<SubIssueSpec> = Vec::new();
    let mut i: usize = 0;
    while i < ns.len()
        invariant
            all == fetches(issues@),
            i <= ns@.len(),
            models(out@) == picked(ns@.take(i as int), all),
        decreases ns@.len() - i,
    {
        proof {
            assert(ns@.take(i + 1).drop_last() =~= ns@.take(i as int));
            assert(ns@.take(i + 1).last() == ns@[i as int]);
        }
        match fetched_of(issues, ns[i]) {
            Some(Ok(spec)) => out.push(spec.clone()),
            _ => {},
        }
        i = i + 1;
    }
    assert(ns@.take(ns@.len() as int) =~= ns@);
    out
}

fn facts_about(t: &Ticket, j: &Json) -> (r: Option<IssueFacts>)
    ensures
        opt_model(r) == facts_on(t@, j@),
{
    match &t.external {
        Some(e) => facts_from(j, e.number),
        None => None,
    }
}

proof fn lemma_wanted(
    some: Seq<TicketModel>,
    ts: Seq<TicketModel>,
    j: JsonModel,
    flags: Seq<Text>,
    issues: Seq<FetchedModel>,
    k: int,
)
    requires
        0 <= k <= some.len(),
        wanted(some.take(k), ts, j, flags, issues) is Some,
    ensures
        wanted(some, ts, j, flags, issues) == wanted(some.take(k), ts, j, flags, issues),
    decreases some.len() - k,
{
    if k < some.len() {
        assert(some.take(k + 1).drop_last() =~= some.take(k));
        lemma_wanted(some, ts, j, flags, issues, k + 1);
    } else {
        assert(some.take(k) =~= some);
    }
}

fn first_wanted(board: &Board, j: &Json, flags: &Vec<String>, issues: &Vec<Fetched>) -> (r: Option<u64>)
    ensures
        r == wanted(board@.tickets, board@.tickets, j@, models(flags@), fetches(issues@)),
{
    let ghost ts = board@.tickets;
    let ghost (fs, all) = (models(flags@), fetches(issues@));
    let mut i: usize = 0;
    while i < board.tickets.len()
        invariant
            ts == board@.tickets,
            ts == models(board.tickets@),
            fs == models(flags@),
            all == fetches(issues@),
            i <= board.tickets@.len(),
            wanted(ts.take(i as int), ts, j@, fs, all) is None,
        decreases board.tickets@.len() - i,
    {
        let t: &Ticket = &board.tickets[i];
        proof {
            assert(ts.take(i + 1).drop_last() =~= ts.take(i as int));
            assert(ts.take(i + 1).last() == t@);
        }
        if followed(t) {
            let facts: Option<IssueFacts> = facts_about(t, j);
            match track_ticket(t, board, facts.as_ref(), flags, false) {
                TrackStep::Fetch(ns) => match unfetched(&ns, issues) {
                    Some(n) => {
                        proof {
                            lemma_wanted(ts, ts, j@, fs, all, i + 1);
                        }
                        return Some(n);
                    },
                    None => {},
                },
                _ => {},
            }
        }
        i = i + 1;
    }
    assert(ts.take(ts.len() as int) =~= ts);
    None
}

fn gather(board: &Board, j: &Json, flags: &Vec<String>, issues: &Vec<Fetched>) -> (r: (Vec<Write>, usize))
    ensures
        gathered(board@.tickets, board@.tickets, j@, models(flags@), fetches(issues@)) == (models(r.0@), r.1 as nat),
{
    let ghost ts = board@.tickets;
    let ghost (fs, all) = (models(flags@), fetches(issues@));
    let mut writes: Vec<Write> = Vec::new();
    let mut updated: usize = 0;
    let mut i: usize = 0;
    while i < board.tickets.len()
        invariant
            ts == board@.tickets,
            ts == models(board.tickets@),
            fs == models(flags@),
            all == fetches(issues@),
            updated <= i <= board.tickets@.len(),
            gathered(ts.take(i as int), ts, j@, fs, all) == (models(writes@), updated as nat),
        decreases board.tickets@.len() - i,
    {
        let t: &Ticket = &board.tickets[i];
        proof {
            assert(ts.take(i + 1).drop_last() =~= ts.take(i as int));
            assert(ts.take(i + 1).last() == t@);
        }
        if followed(t) {
            let facts: Option<IssueFacts> = facts_about(t, j);
            let children: Vec<SubIssueSpec> = match &facts {
                Some(f) => pick(&not_mirrored(&f.refine, board), issues),
                None => Vec::new(),
            };
            let step: TrackStep = track_ticket(t, board, facts.as_ref(), flags, true);
            let quiet: bool = match &step {
                TrackStep::Nothing => true,
                _ => false,
            };
            if !quiet {
                let mut more: Vec<Write> = track_writes(step, &t.id, children);
                let ghost before = models(writes@);
                let ghost added = models(more@);
                writes.append(&mut more);
                assert(models(writes@) =~= before + added);
                updated = updated + 1;
            }
        }
        i = i + 1;
    }
    assert(ts.take(ts.len() as int) =~= ts);
    (writes, updated)
}

/// The pass over the delegated tickets: what to find out next, or all that there is to write. `answer` is what came of the
/// batched query, `issues` the sub-issues fetched so far.
pub fn follow_pass(config: &Config, board: &Board, answer: Option<&Result<Json, String>>, issues: &Vec<Fetched>) -> (r: FollowStep)
    ensures
        r@ == follow_spec(
            config@.minesweeper == Some(true),
            config@.flag_labels(),
            board@.tickets,
            match answer {
                Some(Ok(j)) => Some(Ok::<JsonModel, Text>(j@)),
                Some(Err(e)) => Some(Err::<JsonModel, Text>(e@)),
                None => None,
            },
            fetches(issues@),
        ),
{
    let numbers: Vec<u64> = poll(config, board);
    if numbers.len() == 0 {
        return FollowStep::Done { writes: Vec::new(), updated: 0 };
    }
    let j: &Json = match answer {
        None => return FollowStep::Query(numbers),
        Some(Err(_)) => return FollowStep::Done { writes: Vec::new(), updated: 0 },
        Some(Ok(j)) => j,
    };
    if has_failed(issues) {
        return FollowStep::Done { writes: Vec::new(), updated: 0 };
    }
    let flags: Vec<String> = config.minesweeper_flag_labels();
    match first_wanted(board, j, &flags, issues) {
        Some(n) => FollowStep::Fetch(n),
        None => {
            let (writes, updated): (Vec<Write>, usize) = gather(board, j, &flags, issues);
            FollowStep::Done { writes, updated }
        },
    }
}

// ---- laws -----------------------------------------------------------------------------------------------------------

/// The alarms fire once: with the binding updated as observed, the same facts ask for nothing more.
pub proof fn observing_again_is_quiet(
    t: TicketModel,
    ts: Seq<TicketModel>,
    facts: IssueFactsModel,
    flags: Seq<Text>,
    fetched: bool,
)
    ensures
        track_spec(t, ts, Some(facts), flags, fetched) matches TrackStepModel::Observe { external, .. } ==> track_spec(
            TicketModel { external: Some(external), ..t },
            ts,
            Some(facts),
            flags,
            fetched,
        ) == TrackStepModel::Nothing,
{
}

/// Following never lands a ticket, nor closes it in any other way: the pass records requests, moves cards to review,
/// mirrors, binds and notes, and that is all.
pub proof fn following_never_lands(
    on: bool,
    flags: Seq<Text>,
    ts: Seq<TicketModel>,
    answer: Option<Result<JsonModel, Text>>,
    issues: Seq<FetchedModel>,
)
    ensures
        follow_spec(on, flags, ts, answer, issues) matches FollowStepModel::Done { writes, .. } ==> forall|i: int|
            0 <= i < writes.len() ==> !(#[trigger] writes[i] is Land),
{
    match answer {
        Some(Ok(j)) => lemma_nothing_lands(ts, ts, j, flags, issues),
        _ => {},
    }
}

proof fn lemma_nothing_lands(
    some: Seq<TicketModel>,
    ts: Seq<TicketModel>,
    j: JsonModel,
    flags: Seq<Text>,
    issues: Seq<FetchedModel>,
)
    ensures
        forall|i: int|
            0 <= i < gathered(some, ts, j, flags, issues).0.len() ==> !(#[trigger] gathered(some, ts, j, flags, issues).0[i] is Land),
    decreases some.len(),
{
    if some.len() > 0 {
        lemma_nothing_lands(some.drop_last(), ts, j, flags, issues);
        let before = gathered(some.drop_last(), ts, j, flags, issues).0;
        let more = ticket_writes(some.last(), ts, j, flags, issues);
        assert forall|i: int| 0 <= i < gathered(some, ts, j, flags, issues).0.len() implies !(#[trigger] gathered(
            some,
            ts,
            j,
            flags,
            issues,
        ).0[i] is Land) by {
            let all = gathered(some, ts, j, flags, issues).0;
            if i < before.len() {
                assert(all[i] == before[i]);
            } else {
                assert(all[i] == more[i - before.len()]);
            }
        }
    }
}

/// Network trouble leaves the board untouched: with a failed query, or any sub-issue that could not be fetched, the pass is
/// over and nothing is written.
pub proof fn trouble_leaves_the_board_untouched(
    on: bool,
    flags: Seq<Text>,
    ts: Seq<TicketModel>,
    answer: Option<Result<JsonModel, Text>>,
    issues: Seq<FetchedModel>,
)
    requires
        answer matches Some(Err(_)) || (answer is Some && any_failed(issues)),
    ensures
        follow_spec(on, flags, ts, answer, issues) == (FollowStepModel::Done { writes: Seq::empty(), updated: 0 }),
{
}

/// The pass comes to an end: a sub-issue it fetches is one that was not fetched yet.
pub proof fn sub_issues_are_fetched_once(
    on: bool,
    flags: Seq<Text>,
    ts: Seq<TicketModel>,
    answer: Option<Result<JsonModel, Text>>,
    issues: Seq<FetchedModel>,
)
    ensures
        follow_spec(on, flags, ts, answer, issues) matches FollowStepModel::Fetch(n) ==> fetched_issue(issues, n) is None,
{
    match answer {
        Some(Ok(j)) => lemma_wanted_is_open(ts, ts, j, flags, issues),
        _ => {},
    }
}

proof fn lemma_wanted_is_open(
    some: Seq<TicketModel>,
    ts: Seq<TicketModel>,
    j: JsonModel,
    flags: Seq<Text>,
    issues: Seq<FetchedModel>,
)
    ensures
        wanted(some, ts, j, flags, issues) matches Some(n) ==> fetched_issue(issues, n) is None,
    decreases some.len(),
{
    if some.len() > 0 {
        lemma_wanted_is_open(some.drop_last(), ts, j, flags, issues);
        match track_spec(some.last(), ts, facts_on(some.last(), j), flags, false) {
            TrackStepModel::Fetch(ns) => lemma_unfetched_is_open(ns, issues),
            _ => {},
        }
    }
}

proof fn lemma_unfetched_is_open(ns: Seq<u64>, issues: Seq<FetchedModel>)
    ensures
        first_unfetched(ns, issues) matches Some(n) ==> fetched_issue(issues, n) is None,
    decreases ns.len(),
{
    if ns.len() > 0 {
        lemma_unfetched_is_open(ns.drop_last(), issues);
    }
}

/// Only a ready ticket in `doing`, without a branch and not bound yet, is ever delegated.
pub proof fn only_untouched_ready_tickets_are_delegated(
    step: DelegateStep,
    repo: Text,
    ticket: Option<TicketModel>,
    label: Text,
    facts: DelegateFacts,
)
    requires
        delegates(step, repo, ticket, label, facts),
        !(step is Skip),
    ensures
        ticket matches Some(t) && delegable(t),
{
}

/// An issue that an earlier attempt created is adopted, and no second one is created.
pub proof fn an_earlier_mirror_is_adopted(
    step: DelegateStep,
    repo: Text,
    ticket: Option<TicketModel>,
    label: Text,
    facts: DelegateFacts,
    earlier: (u64, String),
)
    requires
        delegates(step, repo, ticket, label, facts),
        facts.mirror == Some(Some(earlier)),
    ensures
        !(step is Create),
        step matches DelegateStep::Bind(op, url) ==> url@ == earlier.1@ && is_delegation(
            op,
            ticket->Some_0.id,
            earlier.0,
            earlier.1@,
        ),
{
}

// ---- what a delegation and its tracking come to ---------------------------------------------------------------------

/// A ready ticket that entered `doing` without a branch and is bound to nothing is mirrored: where an earlier attempt left
/// an issue, or one was just created, the ticket is bound to it; where not, the label and the issue are created. The issue
/// wears the ticket's id and title, holds its spec, and ends with the line by which it is found again.
pub proof fn a_delegation_creates_or_binds(
    step: DelegateStep,
    repo: Text,
    t: TicketModel,
    label: Text,
    facts: DelegateFacts,
)
    requires
        delegates(step, repo, Some(t), label, facts),
        t.column is Doing && t.column.branch() is None && t.status == Status::Ready && t.external is None,
        facts.remote == Some(true) && facts.mirror is Some,
    ensures
        ({
            let earlier = facts.mirror->0;
            let issue = if earlier is Some {
                earlier
            } else {
                facts.created
            };
            &&& issue is Some ==> (step matches DelegateStep::Bind(op, url) && url@ == (issue->0).1@ && (op matches Op::Delegate {
                id,
                external,
                agent,
                note,
            } && id@ == t.id && external@ == ExternalModel::issue((issue->0).0) && agent@ == "minesweeper"@ && note@
                == "delegated to minesweeper: issue #"@ + decimal((issue->0).0 as nat) + " "@ + (issue->0).1@))
            &&& issue is None ==> (step matches DelegateStep::Create(make_label, make) && make_label@.args.take(3) == seq![
                "label"@,
                "create"@,
                label,
            ] && make@.call.program == "gh"@ && make@.call.dir == repo && make@.call.silenced && make@.call.args == seq![
                "issue"@,
                "create"@,
                "--title"@,
                t.id + ": "@ + t.title,
                "--body"@,
                t.body + "\n\n---\n"@ + ("Mirrored from kanban ticket "@ + t.id + "."@),
                "--label"@,
                label,
            ])
        }),
{
    if let DelegateStep::Create(make_label, make) = step {
        assert(make@.call.args =~= seq![
            "issue"@,
            "create"@,
            "--title"@,
            t.id + ": "@ + t.title,
            "--body"@,
            t.body + "\n\n---\n"@ + ("Mirrored from kanban ticket "@ + t.id + "."@),
            "--label"@,
            label,
        ]);
        assert(make_label@.args.take(3) =~= seq!["label"@, "create"@, label]);
    }
}

/// What keeps a ticket from being delegated: it is not there, not in `doing`, has a branch, is not ready, or is bound
/// already. Without a remote nothing is delegated either.
pub proof fn what_is_delegable(t: TicketModel)
    ensures
        delegable(t) <==> t.column is Doing && t.column.branch() is None && t.status == Status::Ready && t.external is None,
{
}

/// A failed handover says on the card what failed; a completed one leaves nothing to say.
pub proof fn a_failed_handover_says_why(outcome: Result<Option<String>, String>)
    ensures
        handover_failure(outcome) is None <==> outcome is Ok && outcome->Ok_0 is Some,
        outcome matches Err(e) ==> handover_failure(outcome) == Some(
            "handing to minesweeper failed: "@ + e@ + " — fix the cause and delegate again, or run /kanban:delegate"@,
        ),
        outcome is Ok && outcome->Ok_0 is None ==> handover_failure(outcome) == Some(
            "handing to minesweeper failed: no git repository or remote to mirror the issue to"@,
        ),
{
}

/// The number of an issue is read off the end of its URL, with or without a closing slash.
pub proof fn an_issues_number_is_read_off_its_url(host: Text, n: nat)
    requires
        n <= u64::MAX,
    ensures
        issue_number(host + "/issues/"@ + decimal(n)) == Some(n),
        issue_number(host + "/issues/"@ + decimal(n) + "/"@) == Some(n),
{
    reveal_strlit("/issues/");
    decimal_reads_back(n);
    digits_stand_behind_their_segment(host, "/issues/"@, decimal(n));
}

/// Asked about are the issues of the tickets bound to one that are in `doing`, or under review without a recorded request,
/// in board order.
pub proof fn tracked_issues_are_asked_about(ts: Seq<TicketModel>)
    ensures
        tracked_numbers(ts) == ts.filter(
            |t: TicketModel|
                t.external is Some && (t.external->0).is_issue() && (t.column is Doing || t.column is Review && t.pr is None),
        ).map_values(|t: TicketModel| (t.external->0).number),
    decreases ts.len(),
{
    reveal(Seq::filter);
    let asked = |t: TicketModel|
        t.external is Some && (t.external->0).is_issue() && (t.column is Doing || t.column is Review && t.pr is None);
    let line = |t: TicketModel| (t.external->0).number;
    if ts.len() > 0 {
        tracked_issues_are_asked_about(ts.drop_last());
        let before = ts.drop_last().filter(asked);
        if asked(ts.last()) {
            assert(before.push(ts.last()).map_values(line) =~= before.map_values(line).push(line(ts.last())));
        }
    } else {
        assert(ts.filter(asked).map_values(line) =~= Seq::<u64>::empty());
    }
}

/// A request that closes the issue decides: a card in `doing` moves to review on the request's head branch, and the request
/// is recorded where it is news. Nothing else of the issue matters then.
pub proof fn a_request_takes_the_card_to_review(
    t: TicketModel,
    ts: Seq<TicketModel>,
    facts: IssueFactsModel,
    flags: Seq<Text>,
    fetched: bool,
)
    requires
        t.external is Some && facts.pr is Some,
    ensures
        ({
            let step = track_spec(t, ts, Some(facts), flags, fetched);
            let pr = (facts.pr->0).0;
            let head = (facts.pr->0).1;
            &&& t.column is Doing && t.pr == Some(pr) ==> step == (TrackStepModel::Review { pr: None, head: Some(head) })
            &&& t.column is Doing && t.pr != Some(pr) ==> step == (TrackStepModel::Review { pr: Some(pr), head: Some(head) })
            &&& !(t.column is Doing) && t.pr == Some(pr) ==> step == TrackStepModel::Nothing
            &&& !(t.column is Doing) && t.pr != Some(pr) ==> step == (TrackStepModel::Review { pr: Some(pr), head: None })
        }),
{
}

/// A split of an issue in `doing` that the binding does not fully know is mirrored, once every part that no ticket is bound
/// to has been fetched.
pub proof fn a_split_is_mirrored(
    t: TicketModel,
    ts: Seq<TicketModel>,
    facts: IssueFactsModel,
    flags: Seq<Text>,
    i: int,
)
    requires
        t.external is Some && facts.pr is None && t.column is Doing,
        0 <= i < facts.refine.len() && !(t.external->0).sub_issues.contains(facts.refine[i]),
    ensures
        ({
            let open = facts.refine.filter(
                |n: u64|
                    !exists|k: int|
                        0 <= k < ts.len() && (#[trigger] ts[k]).external is Some && (ts[k].external->0).is_issue() && (
                        ts[k].external->0).number == n,
            );
            &&& track_spec(t, ts, Some(facts), flags, true) == TrackStepModel::Mirror
            &&& open.len() > 0 ==> track_spec(t, ts, Some(facts), flags, false) == TrackStepModel::Fetch(open)
            &&& open.len() == 0 ==> track_spec(t, ts, Some(facts), flags, false) == TrackStepModel::Mirror
        }),
{
    lemma_unmirrored(facts.refine, ts);
    assert(has_news(facts.refine, (t.external->0).sub_issues));
}

proof fn lemma_unmirrored(ns: Seq<u64>, ts: Seq<TicketModel>)
    ensures
        unmirrored(ns, ts) == ns.filter(
            |n: u64|
                !exists|k: int|
                    0 <= k < ts.len() && (#[trigger] ts[k]).external is Some && (ts[k].external->0).is_issue() && (
                    ts[k].external->0).number == n,
        ),
    decreases ns.len(),
{
    reveal(Seq::filter);
    if ns.len() > 0 {
        lemma_unmirrored(ns.drop_last(), ts);
        let n = ns.last();
        if is_bound(ts, n) {
            let k = choose|k: int| 0 <= k < ts.len() && binds(#[trigger] ts[k], n);
            assert(ts[k].external is Some && (ts[k].external->0).is_issue() && (ts[k].external->0).number == n);
        } else {
            assert forall|k: int| 0 <= k < ts.len() && (#[trigger] ts[k]).external is Some && (ts[k].external->0).is_issue()
                implies (ts[k].external->0).number != n by {
                assert(!binds(ts[k], n));
            }
        }
    }
}

/// With no request and no news of a split, what is seen of the issue goes onto the binding: whether it is closed, and its
/// first flag label. A flag that is new is noted; so is a closing that is new, of a ticket in `doing` whose issue was not
/// split. Where neither changed, nothing is done.
pub proof fn what_is_observed_goes_onto_the_binding(
    t: TicketModel,
    ts: Seq<TicketModel>,
    facts: IssueFactsModel,
    flags: Seq<Text>,
    fetched: bool,
)
    requires
        t.external is Some && facts.pr is None,
        !(t.column is Doing) || forall|i: int|
            0 <= i < facts.refine.len() ==> (t.external->0).sub_issues.contains(#[trigger] facts.refine[i]),
    ensures
        ({
            let step = track_spec(t, ts, Some(facts), flags, fetched);
            let ext = t.external->0;
            let flag = flag_in(flags, facts.labels);
            let flagged = flag is Some && flag != ext.flag;
            let dropped = facts.closed && !ext.closed && t.column is Doing && ext.sub_issues.len() == 0;
            &&& step == TrackStepModel::Nothing <==> facts.closed == ext.closed && flag == ext.flag
            &&& !(step is Nothing) ==> step is Observe && step->external.closed == facts.closed && step->external.flag == flag
                && step->external.number == ext.number && step->external.provider == ext.provider && step->external.kind
                == ext.kind && step->external.sub_issues == ext.sub_issues
            &&& step is Observe && flagged && dropped ==> step->notes == seq![
                flag_note(ext.number, flag->0),
                closed_note(ext.number),
            ]
            &&& step is Observe && flagged && !dropped ==> step->notes == seq![flag_note(ext.number, flag->0)]
            &&& step is Observe && !flagged && dropped ==> step->notes == seq![closed_note(ext.number)]
            &&& step is Observe && !flagged && !dropped ==> step->notes.len() == 0
        }),
{
    let ext = t.external->0;
    let now = observed_binding(ext, facts, flags);
    assert(!(t.column is Doing) || !has_news(facts.refine, ext.sub_issues));
    if now != ext {
        let said = alarms(ext, now, t.column.id() == ColumnId::Doing);
        if now.flag is Some && now.flag != ext.flag {
            assert(Seq::<Text>::empty().push(flag_note(ext.number, now.flag->0)) =~= seq![flag_note(ext.number, now.flag->0)]);
        }
    }
}

/// The flag that counts is the first configured one that the issue carries.
pub proof fn the_first_flag_counts(flags: Seq<Text>, labels: Seq<Text>)
    ensures
        flag_in(flags, labels) is None <==> forall|i: int| 0 <= i < flags.len() ==> !labels.contains(#[trigger] flags[i]),
        forall|i: int|
            0 <= i < flags.len() && labels.contains(#[trigger] flags[i]) && (forall|k: int|
                0 <= k < i ==> !labels.contains(#[trigger] flags[k])) ==> flag_in(flags, labels) == Some(flags[i]),
    decreases flags.len(),
{
    if flags.len() > 0 {
        let before = flags.drop_last();
        the_first_flag_counts(before, labels);
        assert forall|i: int|
            0 <= i < flags.len() && labels.contains(#[trigger] flags[i]) && (forall|k: int|
                0 <= k < i ==> !labels.contains(#[trigger] flags[k])) implies flag_in(flags, labels) == Some(flags[i]) by {
            if i < before.len() {
                assert(before[i] == flags[i]);
                assert forall|k: int| 0 <= k < i implies !labels.contains(#[trigger] before[k]) by {
                    assert(before[k] == flags[k]);
                }
            } else {
                assert forall|k: int| 0 <= k < before.len() implies !labels.contains(#[trigger] before[k]) by {
                    assert(before[k] == flags[k]);
                }
            }
        }
        if flag_in(flags, labels) is None {
            assert forall|i: int| 0 <= i < flags.len() implies !labels.contains(#[trigger] flags[i]) by {
                if i < before.len() {
                    assert(before[i] == flags[i]);
                }
            }
        } else if flag_in(before, labels) is Some {
            let i = choose|i: int| 0 <= i < before.len() && labels.contains(#[trigger] before[i]);
            assert(labels.contains(flags[i]));
        } else {
            assert(labels.contains(flags[flags.len() - 1]));
        }
    }
}

/// What a step writes: the request, then the card on its head branch; the split with its parts; or the binding and behind it
/// each note.
pub proof fn a_step_writes_what_it_found(
    id: Text,
    children: Seq<SubIssueModel>,
    pr: Option<PrModel>,
    head: Option<Text>,
    external: ExternalModel,
    notes: Seq<Text>,
    ns: Seq<u64>,
)
    ensures
        step_writes(TrackStepModel::Nothing, id, children).len() == 0,
        step_writes(TrackStepModel::Fetch(ns), id, children).len() == 0,
        step_writes(TrackStepModel::Mirror, id, children) == seq![WriteModel::Mirror { id, children }],
        ({
            let ws = step_writes(TrackStepModel::Review { pr, head }, id, children);
            &&& pr is Some && head is Some ==> ws == seq![
                WriteModel::Request { id, pr: pr->0 },
                WriteModel::Review { id, head: head->0 },
            ]
            &&& pr is Some && head is None ==> ws == seq![WriteModel::Request { id, pr: pr->0 }]
            &&& pr is None && head is Some ==> ws == seq![WriteModel::Review { id, head: head->0 }]
            &&& pr is None && head is None ==> ws.len() == 0
        }),
        ({
            let ws = step_writes(TrackStepModel::Observe { external, notes }, id, children);
            &&& ws.len() == notes.len() + 1
            &&& ws[0] == (WriteModel::Bind { id, external })
            &&& forall|i: int| 0 <= i < notes.len() ==> #[trigger] ws[i + 1] == (WriteModel::Note { id, text: notes[i] })
        }),
{
    assert(step_writes(TrackStepModel::Mirror, id, children) =~= seq![WriteModel::Mirror { id, children }]);
    let ws = step_writes(TrackStepModel::Review { pr, head }, id, children);
    if pr is Some && head is Some {
        assert(ws =~= seq![WriteModel::Request { id, pr: pr->0 }, WriteModel::Review { id, head: head->0 }]);
    } else if pr is Some {
        assert(ws =~= seq![WriteModel::Request { id, pr: pr->0 }]);
    } else if head is Some {
        assert(ws =~= seq![WriteModel::Review { id, head: head->0 }]);
    }
}

/// A pass writes for the tracked tickets in board order, for each what its own step takes, and counts those that change.
pub proof fn a_pass_follows_every_tracked_ticket(
    some: Seq<TicketModel>,
    ts: Seq<TicketModel>,
    j: JsonModel,
    flags: Seq<Text>,
    issues: Seq<FetchedModel>,
)
    ensures
        gathered(some, ts, j, flags, issues).0 == some.filter(|t: TicketModel| is_tracked(t)).fold_left(
            Seq::<WriteModel>::empty(),
            |ws: Seq<WriteModel>, t: TicketModel| ws + ticket_writes(t, ts, j, flags, issues),
        ),
        gathered(some, ts, j, flags, issues).1 == some.filter(
            |t: TicketModel| is_tracked(t) && track_spec(t, ts, facts_on(t, j), flags, true) != TrackStepModel::Nothing,
        ).len(),
    decreases some.len(),
{
    reveal(Seq::filter);
    reveal(Seq::fold_left);
    if some.len() > 0 {
        a_pass_follows_every_tracked_ticket(some.drop_last(), ts, j, flags, issues);
        let t = some.last();
        let kept = |t: TicketModel| is_tracked(t);
        let step = |ws: Seq<WriteModel>, t: TicketModel| ws + ticket_writes(t, ts, j, flags, issues);
        let before = some.drop_last().filter(kept);
        if is_tracked(t) {
            assert(before.push(t).drop_last() =~= before);
            assert(before.push(t).last() == t);
            if track_spec(t, ts, facts_on(t, j), flags, true) is Nothing {
                let ws = gathered(some.drop_last(), ts, j, flags, issues).0;
                assert(ws + ticket_writes(t, ts, j, flags, issues) =~= ws);
            }
        }
    } else {
        assert(some.filter(|t: TicketModel| is_tracked(t)) =~= Seq::empty());
    }
}

/// The parts of a split are written in the order the issue lists them, each with what was fetched of it.
pub proof fn parts_are_taken_as_fetched(ns: Seq<u64>, issues: Seq<FetchedModel>)
    ensures
        picked(ns, issues) == ns.filter(
            |n: u64| fetched_issue(issues, n) is Some && fetched_issue(issues, n)->0 is Ok,
        ).map_values(|n: u64| fetched_issue(issues, n)->0->Ok_0),
    decreases ns.len(),
{
    reveal(Seq::filter);
    let got = |n: u64| fetched_issue(issues, n) is Some && fetched_issue(issues, n)->0 is Ok;
    let part = |n: u64| fetched_issue(issues, n)->0->Ok_0;
    if ns.len() > 0 {
        parts_are_taken_as_fetched(ns.drop_last(), issues);
        let before = ns.drop_last().filter(got);
        if got(ns.last()) {
            assert(before.push(ns.last()).map_values(part) =~= before.map_values(part).push(part(ns.last())));
        }
    } else {
        assert(ns.filter(got).map_values(part) =~= Seq::<SubIssueModel>::empty());
    }
}

/// What came back of an issue first is what counts; an issue is open exactly when nothing came back of it.
pub proof fn the_first_fetch_counts(issues: Seq<FetchedModel>, n: u64, i: int)
    requires
        0 <= i < issues.len() && issues[i].0 == n,
        forall|k: int| 0 <= k < i ==> (#[trigger] issues[k]).0 != n,
    ensures
        fetched_issue(issues, n) == Some(issues[i].1),
    decreases i,
{
    if i > 0 {
        let rest = issues.subrange(1, issues.len() as int);
        assert(issues[0].0 != n);
        assert(rest[i - 1] == issues[i]);
        assert forall|k: int| 0 <= k < i - 1 implies (#[trigger] rest[k]).0 != n by {
            assert(rest[k] == issues[k + 1]);
        }
        the_first_fetch_counts(rest, n, i - 1);
    }
}

/// A pass is over only when every part that a split of a tracked ticket asks for is at hand.
pub proof fn a_pass_waits_for_every_part(
    flags: Seq<Text>,
    ts: Seq<TicketModel>,
    j: JsonModel,
    issues: Seq<FetchedModel>,
    k: int,
    ns: Seq<u64>,
    i: int,
)
    requires
        0 <= k < ts.len() && is_tracked(ts[k]),
        track_spec(ts[k], ts, facts_on(ts[k], j), flags, false) == TrackStepModel::Fetch(ns),
        0 <= i < ns.len() && fetched_issue(issues, ns[i]) is None,
        !any_failed(issues),
    ensures
        follow_spec(true, flags, ts, Some(Ok(j)), issues) is Fetch,
{
    lemma_part_wanted(ts, ts, j, flags, issues, k, ns, i);
    lemma_tracked(ts, k);
}

proof fn lemma_tracked(ts: Seq<TicketModel>, k: int)
    requires
        0 <= k < ts.len() && is_tracked(ts[k]),
    ensures
        tracked_numbers(ts).len() > 0,
    decreases ts.len(),
{
    if k < ts.len() - 1 {
        assert(ts.drop_last()[k] == ts[k]);
        lemma_tracked(ts.drop_last(), k);
    }
}

proof fn lemma_part_wanted(
    some: Seq<TicketModel>,
    ts: Seq<TicketModel>,
    j: JsonModel,
    flags: Seq<Text>,
    issues: Seq<FetchedModel>,
    k: int,
    ns: Seq<u64>,
    i: int,
)
    requires
        0 <= k < some.len() && is_tracked(some[k]),
        track_spec(some[k], ts, facts_on(some[k], j), flags, false) == TrackStepModel::Fetch(ns),
        0 <= i < ns.len() && fetched_issue(issues, ns[i]) is None,
    ensures
        wanted(some, ts, j, flags, issues) is Some,
    decreases some.len(),
{
    if k < some.len() - 1 {
        assert(some.drop_last()[k] == some[k]);
        lemma_part_wanted(some.drop_last(), ts, j, flags, issues, k, ns, i);
    } else {
        lemma_part_unfetched(ns, issues, i);
    }
}

proof fn lemma_part_unfetched(ns: Seq<u64>, issues: Seq<FetchedModel>, i: int)
    requires
        0 <= i < ns.len() && fetched_issue(issues, ns[i]) is None,
    ensures
        first_unfetched(ns, issues) is Some,
    decreases ns.len(),
{
    if i < ns.len() - 1 {
        assert(ns.drop_last()[i] == ns[i]);
        lemma_part_unfetched(ns.drop_last(), issues, i);
    }
}

/// Nothing is asked while delegation is off or nothing is tracked; the query comes first and names every tracked issue.
pub proof fn a_pass_asks_about_all_at_once(
    on: bool,
    flags: Seq<Text>,
    ts: Seq<TicketModel>,
    issues: Seq<FetchedModel>,
)
    ensures
        !on || tracked_numbers(ts).len() == 0 ==> follow_spec(on, flags, ts, None, issues) == (FollowStepModel::Done {
            writes: Seq::empty(),
            updated: 0,
        }),
        on && tracked_numbers(ts).len() > 0 ==> follow_spec(on, flags, ts, None, issues) == FollowStepModel::Query(
            tracked_numbers(ts),
        ),
{
}

/// With the answer at hand, no fetch failed, and no part lacking, the pass writes what it gathered.
pub proof fn a_complete_pass_writes_all(
    flags: Seq<Text>,
    ts: Seq<TicketModel>,
    j: JsonModel,
    issues: Seq<FetchedModel>,
)
    requires
        tracked_numbers(ts).len() > 0 && !any_failed(issues),
        !(follow_spec(true, flags, ts, Some(Ok(j)), issues) is Fetch),
    ensures
        follow_spec(true, flags, ts, Some(Ok(j)), issues) == (FollowStepModel::Done {
            writes: gathered(ts, ts, j, flags, issues).0,
            updated: gathered(ts, ts, j, flags, issues).1,
        }),
{
}

// ---- what an answer says --------------------------------------------------------------------------------------------

/// A task-list line that points at an issue gives its number, whether its box is ticked or not, and whatever follows the
/// number.
pub proof fn a_task_line_names_its_issue(n: nat, rest: Text)
    requires
        n <= u64::MAX,
        rest.len() > 0 ==> !is_digit(rest[0]) && !is_white(rest.last()),
    ensures
        sub_issue("- [ ] #"@ + decimal(n) + rest) == Some(n),
        sub_issue("- [x] #"@ + decimal(n) + rest) == Some(n),
        sub_issue("- [X] #"@ + decimal(n) + rest) == Some(n),
{
    reveal_strlit("- [ ] #");
    reveal_strlit("- [x] #");
    reveal_strlit("- [X] #");
    reveal_strlit("- [ ] ");
    reveal_strlit("- [x] ");
    reveal_strlit("- [X] ");
    lemma_task_line("- [ ] "@, n, rest);
    lemma_task_line("- [x] "@, n, rest);
    lemma_task_line("- [X] "@, n, rest);
    reveal_strlit("#");
    assert("- [ ] #"@ =~= "- [ ] "@ + "#"@);
    assert("- [x] #"@ =~= "- [x] "@ + "#"@);
    assert("- [X] #"@ =~= "- [X] "@ + "#"@);
}

proof fn lemma_task_line(mark: Text, n: nat, rest: Text)
    requires
        n <= u64::MAX,
        rest.len() > 0 ==> !is_digit(rest[0]) && !is_white(rest.last()),
        mark == "- [ ] "@ || mark == "- [x] "@ || mark == "- [X] "@,
    ensures
        sub_issue(mark + "#"@ + decimal(n) + rest) == Some(n),
{
    reveal_strlit("- [ ] ");
    reveal_strlit("- [x] ");
    reveal_strlit("- [X] ");
    reveal_strlit("#");
    decimal_reads_back(n);
    let d = decimal(n);
    let line = mark + "#"@ + d + rest;
    let tail = "#"@ + d + rest;
    assert(is_digit(d[0]) && is_digit(d.last()));
    assert(line[0] == '-');
    assert(!is_white(line[0]));
    if rest.len() > 0 {
        assert(line.last() == rest.last());
    } else {
        assert(line.last() == d.last());
    }
    assert(!is_white(line.last()));
    assert(trim_spec(line) == line);
    assert(line =~= mark + tail);
    assert(line.subrange(0, 6) =~= mark);
    assert(line.subrange(6, line.len() as int) =~= tail);
    assert(line[3] == mark[3]);
    if mark != "- [ ] "@ {
        assert(line.subrange(0, 6)[3] != ' ');
    }
    if mark == "- [X] "@ {
        assert(line.subrange(0, 6)[3] != 'x');
    }
    assert(behind_box(line) == Some(tail));
    assert(tail.subrange(0, 1) =~= "#"@);
    assert(tail.subrange(1, tail.len() as int) =~= d + rest);
    lemma_leading(d, rest);
}

proof fn lemma_leading(d: Text, rest: Text)
    requires
        all_digits(d),
        rest.len() > 0 ==> !is_digit(rest[0]),
    ensures
        leading_digits(d + rest) == d,
    decreases d.len(),
{
    let s = d + rest;
    if d.len() == 0 {
        assert(s =~= rest);
        assert(d =~= Seq::empty());
    } else {
        let more = d.subrange(1, d.len() as int);
        assert(is_digit(d[0]));
        assert(s[0] == d[0]);
        assert(s.subrange(1, s.len() as int) =~= more + rest);
        lemma_leading(more, rest);
        assert(seq![d[0]] + more =~= d);
    }
}

/// A line that is no task-list line points at nothing, and neither does one without a number sign.
pub proof fn other_lines_name_no_issue(line: Text)
    requires
        !has_prefix(trim_spec(line), "- ["@),
    ensures
        sub_issue(line) is None,
{
    reveal_strlit("- [");
    reveal_strlit("- [ ] ");
    reveal_strlit("- [x] ");
    reveal_strlit("- [X] ");
    let s = trim_spec(line);
    if s.len() >= 6 {
        assert(s.subrange(0, 3) =~= s.subrange(0, 6).subrange(0, 3));
        assert("- [ ] "@.subrange(0, 3) =~= "- ["@);
        assert("- [x] "@.subrange(0, 3) =~= "- ["@);
        assert("- [X] "@.subrange(0, 3) =~= "- ["@);
    }
}

/// A comment announces the issues its task-list lines point at, in order, and only where it opens with the daemon's line.
pub proof fn a_refine_comment_lists_its_parts(body: Text)
    ensures
        !has_prefix(trim_start_spec(body), "Refined into the following sub-tasks:"@) ==> refined(body).len() == 0,
        has_prefix(trim_start_spec(body), "Refined into the following sub-tasks:"@) ==> refined(body) == lines_spec(
            body,
        ).filter(|l: Text| sub_issue(l) is Some).map_values(|l: Text| (sub_issue(l)->0) as u64),
{
    lemma_sub_issues(lines_spec(body));
}

proof fn lemma_sub_issues(lines: Seq<Text>)
    ensures
        sub_issues(lines) == lines.filter(|l: Text| sub_issue(l) is Some).map_values(|l: Text| (sub_issue(l)->0) as u64),
    decreases lines.len(),
{
    reveal(Seq::filter);
    let points = |l: Text| sub_issue(l) is Some;
    let number = |l: Text| (sub_issue(l)->0) as u64;
    if lines.len() > 0 {
        lemma_sub_issues(lines.drop_last());
        let before = lines.drop_last().filter(points);
        if points(lines.last()) {
            assert(before.push(lines.last()).map_values(number) =~= before.map_values(number).push(number(lines.last())));
        }
    } else {
        assert(lines.filter(points).map_values(number) =~= Seq::<u64>::empty());
    }
}

/// The split of an issue is that of the first comment that announces any.
pub proof fn the_first_split_counts(comments: Seq<JsonModel>, i: int)
    requires
        0 <= i < comments.len(),
        string(member(comments[i], "body"@)) is Some && refined(string(member(comments[i], "body"@))->0).len() > 0,
        forall|k: int|
            0 <= k < i ==> string(member(#[trigger] comments[k], "body"@)) is None || refined(
                string(member(comments[k], "body"@))->0,
            ).len() == 0,
    ensures
        first_refined(comments) == refined(string(member(comments[i], "body"@))->0),
    decreases comments.len(),
{
    let before = comments.drop_last();
    if i < before.len() {
        assert(before[i] == comments[i]);
        assert forall|k: int| 0 <= k < i implies string(member(#[trigger] before[k], "body"@)) is None || refined(
            string(member(before[k], "body"@))->0,
        ).len() == 0 by {
            assert(before[k] == comments[k]);
        }
        the_first_split_counts(before, i);
    } else {
        lemma_no_split(before);
    }
}

proof fn lemma_no_split(comments: Seq<JsonModel>)
    requires
        forall|k: int|
            0 <= k < comments.len() ==> string(member(#[trigger] comments[k], "body"@)) is None || refined(
                string(member(comments[k], "body"@))->0,
            ).len() == 0,
    ensures
        first_refined(comments).len() == 0,
    decreases comments.len(),
{
    if comments.len() > 0 {
        let before = comments.drop_last();
        assert forall|k: int| 0 <= k < before.len() implies string(member(#[trigger] before[k], "body"@)) is None || refined(
            string(member(before[k], "body"@))->0,
        ).len() == 0 by {
            assert(before[k] == comments[k]);
        }
        lemma_no_split(before);
        assert(comments.last() == comments[comments.len() - 1]);
    }
}

/// What an issue's answer says: it is closed when its state reads so in any case, its labels are the names of its label
/// nodes, and its request is the first that closes it.
pub proof fn an_answer_is_read_field_by_field(issue: JsonModel)
    ensures
        ({
            let f = facts_of(issue);
            let state = string(member(issue, "state"@));
            let closing = items(member(member(issue, "closedByPullRequestsReferences"@), "nodes"@));
            &&& f.closed <==> state is Some && ascii_lowered(state->0) == "closed"@
            &&& f.labels == items(member(member(issue, "labels"@), "nodes"@)).filter(
                |n: JsonModel| string(member(n, "name"@)) is Some,
            ).map_values(|n: JsonModel| string(member(n, "name"@))->0)
            &&& f.refine == first_refined(items(member(member(issue, "comments"@), "nodes"@)))
            &&& f.pr is Some <==> closing.len() > 0 && string(member(closing[0], "state"@)) is Some && number(
                member(closing[0], "number"@),
            ) is Some
            &&& f.pr is Some ==> {
                let pr = (f.pr->0).0;
                let said = ascii_lowered(string(member(closing[0], "state"@))->0);
                &&& number(member(closing[0], "number"@)) == Some(pr.number)
                &&& pr.url == text_of(member(closing[0], "url"@))
                &&& pr.state == PrState::Merged <==> said == "merged"@
                &&& pr.state == PrState::Open <==> said == "open"@
                &&& pr.state == PrState::Closed <==> said != "merged"@ && said != "open"@
                &&& pr.merged_commit == string(member(member(closing[0], "mergeCommit"@), "oid"@))
                &&& (f.pr->0).1 == text_of(member(closing[0], "headRefName"@))
            }
        }),
{
    lemma_names(items(member(member(issue, "labels"@), "nodes"@)));
    reveal_strlit("merged");
    reveal_strlit("open");
    assert("merged"@.len() != "open"@.len());
}

proof fn lemma_names(ns: Seq<JsonModel>)
    ensures
        names(ns) == ns.filter(|n: JsonModel| string(member(n, "name"@)) is Some).map_values(
            |n: JsonModel| string(member(n, "name"@))->0,
        ),
    decreases ns.len(),
{
    reveal(Seq::filter);
    let named = |n: JsonModel| string(member(n, "name"@)) is Some;
    let name = |n: JsonModel| string(member(n, "name"@))->0;
    if ns.len() > 0 {
        lemma_names(ns.drop_last());
        let before = ns.drop_last().filter(named);
        if named(ns.last()) {
            assert(before.push(ns.last()).map_values(name) =~= before.map_values(name).push(name(ns.last())));
        }
    } else {
        assert(ns.filter(named).map_values(name) =~= Seq::<Text>::empty());
    }
}

/// Each issue of a batch is asked about under the alias by which the answer is looked up again.
pub proof fn a_batch_asks_issue_by_issue(ns: Seq<u64>, n: u64, j: JsonModel)
    ensures
        issue_queries(ns.push(n)) == issue_queries(ns) + issue_query(n),
        has_prefix(issue_query(n), "i"@ + decimal(n as nat) + ": issue(number: "@ + decimal(n as nat) + ") {"@),
        facts_in(j, n) is Some ==> facts_in(j, n) == Some(
            facts_of(member(member(member(j, "data"@), "repository"@), "i"@ + decimal(n as nat))),
        ),
        facts_in(j, n) is Some <==> member(member(member(j, "data"@), "repository"@), "i"@ + decimal(n as nat)) is Object,
{
    reveal_strlit(") {");
    reveal_strlit(
        ") { number state labels(first: 20) { nodes { name } } comments(last: 30) { nodes { body } } closedByPullRequestsReferences(first: 5, includeClosedPrs: true) { nodes { number url state merged mergeCommit { oid } headRefName } } } ",
    );
    assert(ns.push(n).drop_last() =~= ns);
    let head = "i"@ + decimal(n as nat) + ": issue(number: "@ + decimal(n as nat);
    let start = head + ") {"@;
    assert(issue_query(n).subrange(0, start.len() as int) =~= start);
}

/// An earlier mirror is the first issue listed, where it gives its number and its URL.
pub proof fn the_first_issue_listed_counts(list: Seq<JsonModel>)
    ensures
        list.len() == 0 ==> first_issue(list) is None,
        list.len() > 0 ==> (first_issue(list) is Some <==> number(member(list[0], "number"@)) is Some && string(
            member(list[0], "url"@),
        ) is Some),
        first_issue(list) matches Some(i) ==> Some(i.0) == number(member(list[0], "number"@)) && Some(i.1) == string(
            member(list[0], "url"@),
        ),
{
}

/// A repository is known by its owner's login and its name; which of the two is lacking is said.
pub proof fn a_repository_has_an_owner_and_a_name(j: JsonModel)
    ensures
        ({
            let owner = string(member(member(j, "owner"@), "login"@));
            let name = string(member(j, "name"@));
            &&& owner is Some && name is Some ==> slug_in(j) == Ok::<(Text, Text), Text>((owner->0, name->0))
            &&& owner is None ==> slug_in(j) == Err::<(Text, Text), Text>("gh repo view answered without an owner"@)
            &&& owner is Some && name is None ==> slug_in(j) == Err::<(Text, Text), Text>(
                "gh repo view answered without a name"@,
            )
        }),
        string(member(j, "title"@)) matches Some(t) ==> issue_title(j) == t,
        string(member(j, "title"@)) is None ==> issue_title(j) == "(untitled)"@,
{
}

/// A pass that is stopped at a write has changed the tickets it wrote to before, but for the one whose turn was not over:
/// none of them counts twice, and the first write of a pass has nothing behind it.
pub proof fn a_stopped_pass_counts_finished_tickets(ws: Seq<WriteModel>, n: int)
    requires
        0 <= n < ws.len(),
    ensures
        changed_before(ws, 0) == 0,
        changed_before(ws, n) <= n,
        n > 0 && ws[n].ticket() == ws[n - 1].ticket() ==> changed_before(ws, n) == changed_before(ws, n - 1),
        (forall|k: int| 0 <= k < n ==> (#[trigger] ws[k]).ticket() == ws[n].ticket()) ==> changed_before(ws, n) == 0,
{
    let none = Seq::new(0, |i: int| ws.take(0)[i].ticket());
    assert(none =~= Seq::empty());
    assert(none.to_set() =~= Set::empty());
    assert(written(ws.take(0)).remove(ws[0].ticket()) =~= Set::empty());
    let named = Seq::new(n as nat, |i: int| ws.take(n)[i].ticket());
    assert(written(ws.take(n)) == named.to_set());
    named.lemma_cardinality_of_set();
    assert(named.to_set().finite());
    vstd::set_lib::lemma_len_subset(named.to_set().remove(ws[n].ticket()), named.to_set());
    if n > 0 && ws[n].ticket() == ws[n - 1].ticket() {
        let fewer = Seq::new((n - 1) as nat, |i: int| ws.take(n - 1)[i].ticket());
        assert(written(ws.take(n - 1)) == fewer.to_set());
        assert forall|x: Text| #[trigger] named.to_set().remove(ws[n].ticket()).contains(x) <==> fewer.to_set().remove(
            ws[n].ticket(),
        ).contains(x) by {
            if named.contains(x) && x != ws[n].ticket() {
                let k = choose|k: int| 0 <= k < named.len() && named[k] == x;
                assert(fewer[k] == x);
            }
            if fewer.contains(x) {
                let k = choose|k: int| 0 <= k < fewer.len() && fewer[k] == x;
                assert(named[k] == x);
            }
        }
        assert(named.to_set().remove(ws[n].ticket()) =~= fewer.to_set().remove(ws[n].ticket()));
    }
    if forall|k: int| 0 <= k < n ==> (#[trigger] ws[k]).ticket() == ws[n].ticket() {
        assert(named.to_set().remove(ws[n].ticket()) =~= Set::empty()) by {
            assert forall|x: Text| !(#[trigger] named.to_set().remove(ws[n].ticket()).contains(x)) by {
                if named.contains(x) {
                    let k = choose|k: int| 0 <= k < named.len() && named[k] == x;
                    assert(ws[k].ticket() == x);
                }
            }
        }
    }
}

/// A delegation asks first whether there is a remote, then for an earlier mirror; without a remote there is nothing to do, and
/// neither is there for a ticket that may not be delegated.
pub proof fn a_delegation_asks_what_it_lacks(
    step: DelegateStep,
    repo: Text,
    t: TicketModel,
    label: Text,
    facts: DelegateFacts,
)
    requires
        delegates(step, repo, Some(t), label, facts),
    ensures
        !delegable(t) ==> step is Skip,
        facts.remote == Some(false) ==> step is Skip,
        delegable(t) && facts.remote is None ==> step == DelegateStep::Ask(DelegateQuestion::Remote),
        delegable(t) && facts.remote == Some(true) && facts.mirror is None ==> step == DelegateStep::Ask(
            DelegateQuestion::Mirror,
        ),
{
}

/// A ticket that could not be handed over is given back first, and then the card says why.
pub proof fn a_failed_handover_gives_the_ticket_back(ops: Seq<Op>, id: Text, text: Text)
    requires
        released_noting(ops, id, text),
    ensures
        ops.len() == 2,
        ops[0] matches Op::Release { id: of } && of@ == id,
        ops[1] matches Op::AddNote { id: of, text: said, author } && of@ == id && said@ == text && opt_model(author) == Some(
            "kanban"@,
        ),
{
    assert(ops[1] == ops[0int + 1]);
}

} // verus!
