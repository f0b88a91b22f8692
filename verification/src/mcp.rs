//! The tools an assistant works the board with: what each asks the board for, and what it answers.
//!
//! Every mutating tool comes down to one operation at the version the caller last saw. The two worktree tools are the
//! exception: they write facts, not edits of a view, and take no version.
use vstd::prelude::*;

use crate::config::Config;
use crate::name::{assistant, assistant_name};
use crate::ops::{
    apply, apply_spec, room_for, Applied, NewEpicSpec, NewTicketSpec, Op, OpError, OpErrorModel, RefineTarget,
};
use crate::seqs::{models, opt_model};
use crate::store::claims::Claim;
use crate::store::derive::{
    board_view, board_view_spec, highest_offered, next_ticket, BoardView, BoardViewModel, EpicView, EpicViewModel,
    TicketView, TicketViewModel,
};
use crate::store::model::{
    Board, BoardModel, Column, ColumnId, ColumnModel, Effort, EpicId, External, ExternalModel, Status, Ticket, TicketId,
};
use crate::store::{Store, StoreErrorModel};
use crate::text::{concat4, decimal, has_prefix, starts_with, to_decimal, Text};
use crate::time::Timestamp;
use crate::worktree::StartOpts;

verus! {

broadcast use crate::seqs::group_models;

// ---- failures -------------------------------------------------------------------------------------------------------

/// A failed tool call. Wrong parameters are the protocol's business; everything else the caller should read and adapt to.
#[derive(Debug, PartialEq, Eq)]
pub enum ToolError {
    Params(String),
    Tool(String),
}

pub enum ToolErrorModel {
    Params(Text),
    Tool(Text),
}

impl View for ToolError {
    type V = ToolErrorModel;

    open spec fn view(&self) -> ToolErrorModel {
        match self {
            ToolError::Params(e) => ToolErrorModel::Params(e@),
            ToolError::Tool(e) => ToolErrorModel::Tool(e@),
        }
    }
}

/// What the caller is told of a refused operation: on a version conflict, exactly how to recover.
pub open spec fn refusal(e: OpErrorModel) -> Text {
    match e {
        OpErrorModel::Store(StoreErrorModel::VersionConflict { actual, .. }) => {
            "version conflict: the board is now at version "@ + decimal(actual as nat)
                + " — call kanban_board and retry with expected_version="@ + decimal(actual as nat)
        },
        _ => e.message(),
    }
}

/// What the caller is told of a refused operation.
pub fn tool_error(e: &OpError) -> (r: ToolError)
    ensures
        r@ == ToolErrorModel::Tool(refusal(e@)),
{
    match e.version_conflict() {
        Some((_, actual)) => {
            let now: String = to_decimal(actual);
            ToolError::Tool(
                concat4(
                    "version conflict: the board is now at version ",
                    &now,
                    " — call kanban_board and retry with expected_version=",
                    &now,
                ),
            )
        },
        None => ToolError::Tool(e.to_string()),
    }
}

// ---- parameters -----------------------------------------------------------------------------------------------------

/// Reading the board.
#[derive(Debug)]
pub struct BoardParams {
    /// Restrict to one column. Omit for the whole board.
    pub column: Option<String>,
    /// Include the done tickets in full.
    pub include_done: Option<bool>,
}

/// Claiming a ticket.
#[derive(Debug)]
pub struct ClaimParams {
    pub ticket: String,
    /// Who is claiming it.
    pub agent: Option<String>,
    pub expected_version: u64,
}

/// Giving a ticket back.
#[derive(Debug)]
pub struct ReleaseParams {
    pub ticket: String,
    pub expected_version: u64,
}

/// Moving a ticket.
#[derive(Debug)]
pub struct MoveParams {
    pub ticket: String,
    /// The destination column.
    pub to: String,
    /// Position within it, 0 at the top. Omit for the bottom.
    pub position: Option<usize>,
    /// Record this branch, overriding whatever the ticket carried.
    pub branch: Option<String>,
    pub expected_version: u64,
}

/// Creating a ticket.
#[derive(Debug)]
pub struct CreateTicketParams {
    pub title: String,
    pub body: Option<String>,
    pub epic: Option<String>,
    pub labels: Option<Vec<String>>,
    pub model: Option<String>,
    pub effort: Option<String>,
    pub depends_on: Option<Vec<String>>,
    /// Defaults to review: the human promotes to ready.
    pub status: Option<String>,
    pub expected_version: u64,
}

/// Creating an epic.
#[derive(Debug)]
pub struct CreateEpicParams {
    pub title: String,
    pub color: Option<String>,
    pub body: Option<String>,
    pub status: Option<String>,
    pub expected_version: u64,
}

/// Noting progress.
#[derive(Debug)]
pub struct NoteParams {
    pub ticket: String,
    pub text: String,
    /// Who is writing.
    pub agent: Option<String>,
    pub expected_version: u64,
}

/// A ticket split off by a refinement.
#[derive(Debug)]
pub struct NewTicketParam {
    pub title: String,
    pub body: Option<String>,
    pub labels: Option<Vec<String>>,
    pub model: Option<String>,
    pub effort: Option<String>,
    /// Existing ids, or `new:<i>` for the i-th of the tickets split off.
    pub depends_on: Option<Vec<String>>,
    /// Omit to inherit the target's epic.
    pub epic: Option<String>,
}

/// An epic split off by a refinement.
#[derive(Debug)]
pub struct NewEpicParam {
    pub title: String,
    pub color: Option<String>,
    pub body: Option<String>,
    pub tickets: Option<Vec<NewTicketParam>>,
}

/// Recording a refinement.
#[derive(Debug)]
pub struct RefineParams {
    /// A ticket id or an epic id.
    pub target: String,
    pub title: Option<String>,
    pub body: String,
    pub split_tickets: Option<Vec<NewTicketParam>>,
    pub split_epics: Option<Vec<NewEpicParam>>,
    pub expected_version: u64,
}

/// Binding a ticket to an item elsewhere.
#[derive(Debug)]
pub struct BindExternalParams {
    pub ticket: String,
    pub provider: Option<String>,
    pub kind: Option<String>,
    pub number: Option<u64>,
    pub expected_version: u64,
}

/// Starting a worktree.
#[derive(Debug)]
pub struct WorktreeStartParams {
    pub ticket: String,
    pub slug: Option<String>,
    pub base: Option<String>,
}

/// Finishing a worktree.
#[derive(Debug)]
pub struct WorktreeFinishParams {
    pub ticket: String,
    pub force_discard: Option<bool>,
    pub merge: Option<bool>,
}

/// What an absent text stands for: the empty one.
pub open spec fn text_or_none(s: Option<String>) -> Text {
    match s {
        Some(t) => t@,
        None => Seq::empty(),
    }
}

fn or_empty(s: Option<String>) -> (r: String)
    ensures
        r@ == text_or_none(s),
{
    match s {
        Some(t) => t,
        None => String::new(),
    }
}

/// What an absent list stands for: the empty one.
pub open spec fn list_or_none(l: Option<Vec<String>>) -> Seq<Text> {
    match l {
        Some(v) => models(v@),
        None => Seq::empty(),
    }
}

fn list_or_empty(l: Option<Vec<String>>) -> (r: Vec<String>)
    ensures
        models(r@) == list_or_none(l),
{
    match l {
        Some(v) => v,
        None => Vec::new(),
    }
}

/// The agent named, or the assistant itself.
pub open spec fn agent_named(a: Option<String>) -> Text {
    match a {
        Some(s) => s@,
        None => assistant_name(),
    }
}

fn agent_or_default(a: Option<String>) -> (r: String)
    ensures
        r@ == agent_named(a),
{
    match a {
        Some(s) => s,
        None => assistant(),
    }
}

/// The status asked for, or the default; a word that is no status is refused.
pub open spec fn status_param(s: Option<Text>, default: Status) -> Result<Status, Text> {
    match s {
        None => Ok(default),
        Some(t) => match Status::named(t) {
            Some(v) => Ok(v),
            None => Err("'"@ + t + "' is not a status (draft/stub/review/ready)"@),
        },
    }
}

/// The status asked for, or the default.
pub fn parse_status_or(s: Option<&str>, default: Status) -> (r: Result<Status, ToolError>)
    ensures
        ({
            let asked = status_param(
                match s {
                    Some(t) => Some(t@),
                    None => None,
                },
                default,
            );
            match r {
                Ok(v) => asked == Ok::<Status, Text>(v),
                Err(e) => asked is Err && e@ == ToolErrorModel::Params(asked->Err_0),
            }
        }),
{
    match s {
        None => Ok(default),
        Some(t) => match Status::parse(t) {
            Ok(v) => Ok(v),
            Err(e) => Err(ToolError::Params(e)),
        },
    }
}

/// The effort asked for: an absent one is inherited, and a word that is no level is refused.
pub open spec fn effort_param(s: Option<String>) -> Result<Option<Effort>, Text> {
    match s {
        None => Ok(None),
        Some(t) => match Effort::named(t@) {
            Some(v) => Ok(Some(v)),
            None => Err("'"@ + t@ + "' is not an effort level (low/medium/high/xhigh/max)"@),
        },
    }
}

/// The effort asked for.
pub fn parse_effort(s: &Option<String>) -> (r: Result<Option<Effort>, ToolError>)
    ensures
        match r {
            Ok(v) => effort_param(*s) == Ok::<Option<Effort>, Text>(v),
            Err(e) => effort_param(*s) is Err && e@ == ToolErrorModel::Params(effort_param(*s)->Err_0),
        },
{
    match s {
        None => Ok(None),
        Some(t) => match Effort::parse(t) {
            Ok(v) => Ok(Some(v)),
            Err(e) => Err(ToolError::Params(e)),
        },
    }
}

// ---- the mutating tools ---------------------------------------------------------------------------------------------

/// Claim a ticket.
pub fn kanban_claim(p: ClaimParams) -> (r: Op)
    ensures
        r matches Op::Claim { id, agent } && id@ == p.ticket@ && agent@ == agent_named(p.agent),
{
    Op::Claim { id: TicketId(p.ticket), agent: agent_or_default(p.agent) }
}

/// Give a claimed ticket back.
pub fn kanban_release(p: ReleaseParams) -> (r: Op)
    ensures
        r matches Op::Release { id } && id@ == p.ticket@,
{
    Op::Release { id: TicketId(p.ticket) }
}

/// Why a ticket whose worktree still holds uncommitted changes is not closed out.
pub open spec fn unfinished(ticket: Text, path: Text) -> Text {
    ticket + "'s worktree at "@ + path + " has uncommitted changes — commit them, then move it to review"@
}

/// Move a ticket. Moving to review is the close-out of finished work, so it is refused while the ticket's worktree holds
/// uncommitted changes: `dirty` is that worktree's path, when there is one.
pub fn kanban_move(p: MoveParams, dirty: Option<&str>) -> (r: Result<Op, ToolError>)
    ensures
        match ColumnId::named(p.to@) {
            None => r matches Err(e) && e@ == ToolErrorModel::Params(
                "'"@ + p.to@ + "' is not a column (todo/doing/review/done)"@,
            ),
            Some(column) => match (column, dirty) {
                (ColumnId::Review, Some(path)) => r matches Err(e) && e@ == ToolErrorModel::Tool(
                    unfinished(p.ticket@, path@),
                ),
                _ => r matches Ok(op) && op matches Op::MoveTicket { id, to, position, owner, branch } && id@ == p.ticket@
                    && to == column && position == p.position && owner is None && branch == p.branch,
            },
        },
{
    match ColumnId::parse(&p.to) {
        Ok(to) => {
            if let ColumnId::Review = to {
                if let Some(path) = dirty {
                    return Err(
                        ToolError::Tool(
                            concat4(
                                &p.ticket,
                                "'s worktree at ",
                                path,
                                " has uncommitted changes — commit them, then move it to review",
                            ),
                        ),
                    );
                }
            }
            Ok(Op::MoveTicket { id: TicketId(p.ticket), to, position: p.position, owner: None, branch: p.branch })
        },
        Err(e) => Err(ToolError::Params(e)),
    }
}

fn ids_of(v: Vec<String>) -> (r: Vec<TicketId>)
    ensures
        models(r@) == models(v@),
{
    let mut out: Vec<TicketId> = Vec::new();
    let mut i: usize = 0;
    while i < v.len()
        invariant
            i <= v@.len(),
            out@.len() == i,
            forall|j: int| 0 <= j < i ==> (#[trigger] out@[j])@ == v@[j]@,
        decreases v@.len() - i,
    {
        out.push(TicketId(v[i].clone()));
        i = i + 1;
    }
    assert(models(out@) =~= models(v@));
    out
}

fn epic_of(e: Option<String>) -> (r: Option<EpicId>)
    ensures
        opt_model(r) == opt_model(e),
{
    match e {
        Some(e) => Some(EpicId(e)),
        None => None,
    }
}

/// `op` creates the ticket asked for.
pub open spec fn creates(p: CreateTicketParams, op: Op) -> bool {
    match op {
        Op::CreateTicket { title, body, epic, labels, depends_on, status, model, effort, auto_merge } => {
            &&& title@ == p.title@
            &&& body@ == text_or_none(p.body)
            &&& opt_model(epic) == opt_model(p.epic)
            &&& models(labels@) == list_or_none(p.labels)
            &&& models(depends_on@) == list_or_none(p.depends_on)
            &&& status_param(opt_model(p.status), Status::Review) == Ok::<Status, Text>(status)
            &&& model == p.model
            &&& effort_param(p.effort) == Ok::<Option<Effort>, Text>(effort)
            &&& !auto_merge
        },
        _ => false,
    }
}

/// Create a ticket at the bottom of todo, awaiting the human's verdict unless it says otherwise. A bad status is refused
/// before a bad effort.
pub fn kanban_create_ticket(p: CreateTicketParams) -> (r: Result<Op, ToolError>)
    ensures
        match r {
            Ok(op) => creates(p, op),
            Err(e) => match status_param(opt_model(p.status), Status::Review) {
                Err(text) => e@ == ToolErrorModel::Params(text),
                Ok(_) => effort_param(p.effort) is Err && e@ == ToolErrorModel::Params(effort_param(p.effort)->Err_0),
            },
        },
{
    let asked: Option<&str> = match &p.status {
        Some(s) => Some(s.as_str()),
        None => None,
    };
    let status: Status = match parse_status_or(asked, Status::Review) {
        Ok(s) => s,
        Err(e) => return Err(e),
    };
    let effort: Option<Effort> = match parse_effort(&p.effort) {
        Ok(e) => e,
        Err(e) => return Err(e),
    };
    Ok(
        Op::CreateTicket {
            title: p.title,
            body: or_empty(p.body),
            epic: epic_of(p.epic),
            labels: list_or_empty(p.labels),
            depends_on: ids_of(list_or_empty(p.depends_on)),
            status,
            model: p.model,
            effort,
            auto_merge: false,
        },
    )
}

/// Create an epic, awaiting the human's verdict unless it says otherwise.
pub fn kanban_create_epic(p: CreateEpicParams) -> (r: Result<Op, ToolError>)
    ensures
        match r {
            Ok(op) => op matches Op::CreateEpic { title, color, body, status, auto_merge } && title@ == p.title@ && color
                == p.color && body@ == text_or_none(p.body) && status_param(opt_model(p.status), Status::Review) == Ok::<
                Status,
                Text,
            >(status) && !auto_merge,
            Err(e) => ({
                let asked = status_param(opt_model(p.status), Status::Review);
                asked is Err && e@ == ToolErrorModel::Params(asked->Err_0)
            }),
        },
{
    let asked: Option<&str> = match &p.status {
        Some(s) => Some(s.as_str()),
        None => None,
    };
    match parse_status_or(asked, Status::Review) {
        Ok(status) => Ok(
            Op::CreateEpic { title: p.title, color: p.color, body: or_empty(p.body), status, auto_merge: false },
        ),
        Err(e) => Err(e),
    }
}

/// Append to a ticket's progress log.
pub fn kanban_note(p: NoteParams) -> (r: Op)
    ensures
        r matches Op::AddNote { id, text, author } && id@ == p.ticket@ && text == p.text && opt_model(author) == Some(
            agent_named(p.agent),
        ),
{
    Op::AddNote { id: TicketId(p.ticket), text: p.text, author: Some(agent_or_default(p.agent)) }
}

/// The binding asked for: all three parts or none.
pub open spec fn binding(p: BindExternalParams) -> Result<Option<ExternalModel>, Text> {
    match (p.provider, p.kind, p.number) {
        (Some(provider), Some(kind), Some(number)) => Ok(
            Some(
                ExternalModel {
                    provider: provider@,
                    kind: kind@,
                    number,
                    closed: false,
                    flag: None,
                    sub_issues: Seq::empty(),
                },
            ),
        ),
        (None, None, None) => Ok(None),
        _ => Err("provider, kind, and number must be given together (or all omitted to unbind)"@),
    }
}

/// Bind a ticket to an item elsewhere, or unbind it.
pub fn kanban_bind_external(p: BindExternalParams) -> (r: Result<Op, ToolError>)
    ensures
        match r {
            Ok(op) => op matches Op::BindExternal { id, external } && id@ == p.ticket@ && binding(p) == Ok::<
                Option<ExternalModel>,
                Text,
            >(opt_model(external)),
            Err(e) => binding(p) is Err && e@ == ToolErrorModel::Params(binding(p)->Err_0),
        },
{
    let external: Option<External> = match (p.provider, p.kind, p.number) {
        (Some(provider), Some(kind), Some(number)) => {
            let bound: External = External {
                provider,
                kind,
                number,
                closed: false,
                flag: None,
                sub_issues: Vec::new(),
            };
            assert(bound@.sub_issues =~= Seq::empty());
            Some(bound)
        },
        (None, None, None) => None,
        _ => return Err(
            ToolError::Params(
                "provider, kind, and number must be given together (or all omitted to unbind)".to_owned(),
            ),
        ),
    };
    Ok(Op::BindExternal { id: TicketId(p.ticket), external })
}

/// The options of starting a worktree by tool.
pub fn kanban_worktree_start(p: WorktreeStartParams) -> (r: (TicketId, StartOpts))
    ensures
        r.0@ == p.ticket@ && r.1.base == p.base && r.1.slug == p.slug && r.1.dir is None && !r.1.no_sparse,
{
    (TicketId(p.ticket), StartOpts { base: p.base, slug: p.slug, dir: None, no_sparse: false })
}

/// The ticket, and whether to discard changes and to merge: neither unless asked for.
pub fn kanban_worktree_finish(p: WorktreeFinishParams) -> (r: (TicketId, bool, bool))
    ensures
        r.0@ == p.ticket@ && r.1 == (p.force_discard == Some(true)) && r.2 == (p.merge == Some(true)),
{
    let force: bool = match p.force_discard {
        Some(b) => b,
        None => false,
    };
    let merge: bool = match p.merge {
        Some(b) => b,
        None => false,
    };
    (TicketId(p.ticket), force, merge)
}

// ---- refining -------------------------------------------------------------------------------------------------------

/// `s` is the ticket that `p` asks to split off.
pub open spec fn specifies(p: NewTicketParam, s: NewTicketSpec) -> bool {
    &&& s.title == p.title
    &&& s.body@ == text_or_none(p.body)
    &&& models(s.labels@) == list_or_none(p.labels)
    &&& models(s.depends_on@) == list_or_none(p.depends_on)
    &&& opt_model(s.epic) == opt_model(p.epic)
    &&& s.model == p.model
    &&& effort_param(p.effort) == Ok::<Option<Effort>, Text>(s.effort)
}

/// What is wrong with the first ticket that has anything wrong with it.
pub open spec fn ticket_trouble(ps: Seq<NewTicketParam>) -> Option<Text>
    decreases ps.len(),
{
    if ps.len() == 0 {
        None
    } else {
        match ticket_trouble(ps.drop_last()) {
            Some(e) => Some(e),
            None => match effort_param(ps.last().effort) {
                Err(e) => Some(e),
                Ok(_) => None,
            },
        }
    }
}

proof fn lemma_ticket_trouble(ps: Seq<NewTicketParam>, n: int)
    requires
        0 <= n <= ps.len(),
        ticket_trouble(ps.take(n)) is Some,
    ensures
        ticket_trouble(ps) == ticket_trouble(ps.take(n)),
    decreases ps.len() - n,
{
    if n < ps.len() {
        assert(ps.take(n + 1).drop_last() =~= ps.take(n));
        lemma_ticket_trouble(ps, n + 1);
    } else {
        assert(ps.take(n) =~= ps);
    }
}

/// `ss` are the tickets that `ps` ask to split off, in order.
pub open spec fn all_specified(ps: Seq<NewTicketParam>, ss: Seq<NewTicketSpec>) -> bool {
    ss.len() == ps.len() && forall|i: int| 0 <= i < ps.len() ==> specifies(#[trigger] ps[i], ss[i])
}

/// The tickets of an optional list.
pub open spec fn tickets_or_none(l: Option<Vec<NewTicketParam>>) -> Seq<NewTicketParam> {
    match l {
        Some(v) => v@,
        None => Seq::empty(),
    }
}

fn copy_opt(s: &Option<String>) -> (r: Option<String>)
    ensures
        r == *s,
{
    match s {
        Some(t) => Some(t.clone()),
        None => None,
    }
}

fn copy_list(l: &Option<Vec<String>>) -> (r: Vec<String>)
    ensures
        models(r@) == list_or_none(*l),
{
    match l {
        Some(v) => crate::seqs::clone_strings(v),
        None => Vec::new(),
    }
}

/// The ticket to split off, or what is wrong with it.
pub fn new_ticket_spec(p: &NewTicketParam) -> (r: Result<NewTicketSpec, ToolError>)
    ensures
        match r {
            Ok(s) => specifies(*p, s),
            Err(e) => effort_param(p.effort) is Err && e@ == ToolErrorModel::Params(effort_param(p.effort)->Err_0),
        },
{
    let effort: Option<Effort> = match parse_effort(&p.effort) {
        Ok(e) => e,
        Err(e) => return Err(e),
    };
    Ok(
        NewTicketSpec {
            title: p.title.clone(),
            body: or_empty(copy_opt(&p.body)),
            labels: copy_list(&p.labels),
            depends_on: copy_list(&p.depends_on),
            epic: epic_of(copy_opt(&p.epic)),
            model: copy_opt(&p.model),
            effort,
        },
    )
}

fn new_ticket_specs(l: &Option<Vec<NewTicketParam>>) -> (r: Result<Vec<NewTicketSpec>, ToolError>)
    ensures
        match r {
            Ok(ss) => ticket_trouble(tickets_or_none(*l)) is None && all_specified(tickets_or_none(*l), ss@),
            Err(e) => ticket_trouble(tickets_or_none(*l)) is Some && e@ == ToolErrorModel::Params(
                ticket_trouble(tickets_or_none(*l))->Some_0,
            ),
        },
{
    let mut out: Vec<NewTicketSpec> = Vec::new();
    let ps: &Vec<NewTicketParam> = match l {
        Some(ps) => ps,
        None => return Ok(out),
    };
    let mut i: usize = 0;
    while i < ps.len()
        invariant
            tickets_or_none(*l) == ps@,
            i <= ps@.len(),
            out@.len() == i,
            forall|j: int| 0 <= j < i ==> specifies(#[trigger] ps@[j], out@[j]),
            ticket_trouble(ps@.take(i as int)) is None,
        decreases ps@.len() - i,
    {
        proof {
            assert(ps@.take(i + 1).drop_last() =~= ps@.take(i as int));
            assert(ps@.take(i + 1).last() == ps@[i as int]);
        }
        match new_ticket_spec(&ps[i]) {
            Ok(s) => out.push(s),
            Err(e) => {
                proof {
                    lemma_ticket_trouble(ps@, i + 1);
                }
                return Err(e);
            },
        }
        i = i + 1;
    }
    assert(ps@.take(ps@.len() as int) =~= ps@);
    Ok(out)
}

/// `s` is the epic that `p` asks to split off.
pub open spec fn specifies_epic(p: NewEpicParam, s: NewEpicSpec) -> bool {
    s.title == p.title && s.color == p.color && s.body@ == text_or_none(p.body) && all_specified(
        tickets_or_none(p.tickets),
        s.tickets@,
    )
}

/// What is wrong with the first epic that has anything wrong with it.
pub open spec fn epic_trouble(ps: Seq<NewEpicParam>) -> Option<Text>
    decreases ps.len(),
{
    if ps.len() == 0 {
        None
    } else {
        match epic_trouble(ps.drop_last()) {
            Some(e) => Some(e),
            None => ticket_trouble(tickets_or_none(ps.last().tickets)),
        }
    }
}

proof fn lemma_epic_trouble(ps: Seq<NewEpicParam>, n: int)
    requires
        0 <= n <= ps.len(),
        epic_trouble(ps.take(n)) is Some,
    ensures
        epic_trouble(ps) == epic_trouble(ps.take(n)),
    decreases ps.len() - n,
{
    if n < ps.len() {
        assert(ps.take(n + 1).drop_last() =~= ps.take(n));
        lemma_epic_trouble(ps, n + 1);
    } else {
        assert(ps.take(n) =~= ps);
    }
}

/// `ss` are the epics that `ps` ask to split off, in order.
pub open spec fn all_epics_specified(ps: Seq<NewEpicParam>, ss: Seq<NewEpicSpec>) -> bool {
    ss.len() == ps.len() && forall|i: int| 0 <= i < ps.len() ==> specifies_epic(#[trigger] ps[i], ss[i])
}

/// The epics of an optional list.
pub open spec fn epics_or_none(l: Option<Vec<NewEpicParam>>) -> Seq<NewEpicParam> {
    match l {
        Some(v) => v@,
        None => Seq::empty(),
    }
}

/// The epic to split off, with its tickets, or what is wrong with one of them.
pub fn new_epic_spec(p: &NewEpicParam) -> (r: Result<NewEpicSpec, ToolError>)
    ensures
        match r {
            Ok(s) => ticket_trouble(tickets_or_none(p.tickets)) is None && specifies_epic(*p, s),
            Err(e) => ticket_trouble(tickets_or_none(p.tickets)) is Some && e@ == ToolErrorModel::Params(
                ticket_trouble(tickets_or_none(p.tickets))->Some_0,
            ),
        },
{
    let tickets: Vec<NewTicketSpec> = match new_ticket_specs(&p.tickets) {
        Ok(t) => t,
        Err(e) => return Err(e),
    };
    Ok(NewEpicSpec { title: p.title.clone(), color: copy_opt(&p.color), body: or_empty(copy_opt(&p.body)), tickets })
}

fn new_epic_specs(l: &Option<Vec<NewEpicParam>>) -> (r: Result<Vec<NewEpicSpec>, ToolError>)
    ensures
        match r {
            Ok(ss) => epic_trouble(epics_or_none(*l)) is None && all_epics_specified(epics_or_none(*l), ss@),
            Err(e) => epic_trouble(epics_or_none(*l)) is Some && e@ == ToolErrorModel::Params(
                epic_trouble(epics_or_none(*l))->Some_0,
            ),
        },
{
    let mut out: Vec<NewEpicSpec> = Vec::new();
    let ps: &Vec<NewEpicParam> = match l {
        Some(ps) => ps,
        None => return Ok(out),
    };
    let mut i: usize = 0;
    while i < ps.len()
        invariant
            epics_or_none(*l) == ps@,
            i <= ps@.len(),
            out@.len() == i,
            forall|j: int| 0 <= j < i ==> specifies_epic(#[trigger] ps@[j], out@[j]),
            epic_trouble(ps@.take(i as int)) is None,
        decreases ps@.len() - i,
    {
        proof {
            assert(ps@.take(i + 1).drop_last() =~= ps@.take(i as int));
            assert(ps@.take(i + 1).last() == ps@[i as int]);
        }
        match new_epic_spec(&ps[i]) {
            Ok(s) => out.push(s),
            Err(e) => {
                proof {
                    lemma_epic_trouble(ps@, i + 1);
                }
                return Err(e);
            },
        }
        i = i + 1;
    }
    assert(ps@.take(ps@.len() as int) =~= ps@);
    Ok(out)
}

/// `op` records the refinement asked for. An id that begins with `EP-` is an epic's.
pub open spec fn refines(p: RefineParams, op: Op) -> bool {
    match op {
        Op::Refine { target, title, body, split_tickets, split_epics } => {
            &&& match target {
                RefineTarget::Epic(id) => has_prefix(p.target@, "EP-"@) && id@ == p.target@,
                RefineTarget::Ticket(id) => !has_prefix(p.target@, "EP-"@) && id@ == p.target@,
            }
            &&& title == p.title
            &&& body == p.body
            &&& all_specified(tickets_or_none(p.split_tickets), split_tickets@)
            &&& all_epics_specified(epics_or_none(p.split_epics), split_epics@)
        },
        _ => false,
    }
}

/// Record a refinement. Trouble with a ticket to split off is reported before trouble with an epic.
pub fn kanban_refine(p: RefineParams) -> (r: Result<Op, ToolError>)
    ensures
        ({
            let trouble = match ticket_trouble(tickets_or_none(p.split_tickets)) {
                Some(e) => Some(e),
                None => epic_trouble(epics_or_none(p.split_epics)),
            };
            match r {
                Ok(op) => trouble is None && refines(p, op),
                Err(e) => trouble is Some && e@ == ToolErrorModel::Params(trouble->Some_0),
            }
        }),
{
    let split_tickets: Vec<NewTicketSpec> = match new_ticket_specs(&p.split_tickets) {
        Ok(t) => t,
        Err(e) => return Err(e),
    };
    let split_epics: Vec<NewEpicSpec> = match new_epic_specs(&p.split_epics) {
        Ok(t) => t,
        Err(e) => return Err(e),
    };
    let target: RefineTarget = if starts_with(&p.target, "EP-") {
        RefineTarget::Epic(EpicId(p.target))
    } else {
        RefineTarget::Ticket(TicketId(p.target))
    };
    Ok(Op::Refine { target, title: p.title, body: p.body, split_tickets, split_epics })
}

// ---- board shaping --------------------------------------------------------------------------------------------------

/// What replaces omitted done tickets says how to get them back.
pub const DONE_OMITTED_NOTE: &'static str =
    "done tickets omitted — call kanban_board with include_done=true, or column=\"done\", to read them";

/// What stands in for omitted done tickets. Landed and discarded are kept apart: a discarded ticket never satisfies a
/// dependency.
#[derive(Debug)]
pub struct DoneSummary {
    pub count: usize,
    pub landed: Vec<String>,
    pub discarded: Vec<String>,
    pub note: &'static str,
}

pub struct DoneSummaryModel {
    pub count: nat,
    pub landed: Seq<Text>,
    pub discarded: Seq<Text>,
    pub note: Text,
}

impl View for DoneSummary {
    type V = DoneSummaryModel;

    open spec fn view(&self) -> DoneSummaryModel {
        DoneSummaryModel {
            count: self.count as nat,
            landed: models(self.landed@),
            discarded: models(self.discarded@),
            note: self.note@,
        }
    }
}

/// A board read: what is left of the view, and what was left out.
#[derive(Debug)]
pub struct Shaped {
    pub view: BoardView,
    pub done: Option<DoneSummary>,
}

pub struct ShapedModel {
    pub view: BoardViewModel,
    pub done: Option<DoneSummaryModel>,
}

impl View for Shaped {
    type V = ShapedModel;

    open spec fn view(&self) -> ShapedModel {
        ShapedModel { view: self.view@, done: opt_model(self.done) }
    }
}

/// The tickets in one column, or in every column but it.
pub open spec fn tickets_of(ts: Seq<TicketViewModel>, col: ColumnId, within: bool) -> Seq<TicketViewModel>
    decreases ts.len(),
{
    if ts.len() == 0 {
        Seq::empty()
    } else {
        let before = tickets_of(ts.drop_last(), col, within);
        if (ts.last().ticket.column.id() == col) == within {
            before.push(ts.last())
        } else {
            before
        }
    }
}

/// The epics whose derived column is that one.
pub open spec fn epics_of(es: Seq<EpicViewModel>, col: ColumnId) -> Seq<EpicViewModel>
    decreases es.len(),
{
    if es.len() == 0 {
        Seq::empty()
    } else {
        let before = epics_of(es.drop_last(), col);
        if es.last().column == col {
            before.push(es.last())
        } else {
            before
        }
    }
}

/// A done ticket on the given side of the discarded line.
pub open spec fn is_done(c: ColumnModel, want_discarded: bool) -> bool {
    c matches ColumnModel::Done { discarded, .. } && discarded == want_discarded
}

/// The ids of the done tickets on one side of the discarded line, in board order.
pub open spec fn done_names(ts: Seq<TicketViewModel>, discarded: bool) -> Seq<Text>
    decreases ts.len(),
{
    if ts.len() == 0 {
        Seq::empty()
    } else {
        let before = done_names(ts.drop_last(), discarded);
        if is_done(ts.last().ticket.column, discarded) {
            before.push(ts.last().ticket.id)
        } else {
            before
        }
    }
}

/// A board read: one column verbatim where one was asked for; else everything, but for done tickets unless they were asked
/// for too, with a summary in their place. The version and the columns are always the board's.
pub open spec fn shape_spec(v: BoardViewModel, column: Option<ColumnId>, include_done: bool) -> ShapedModel {
    match column {
        Some(col) => ShapedModel {
            view: BoardViewModel { tickets: tickets_of(v.tickets, col, true), epics: epics_of(v.epics, col), ..v },
            done: None,
        },
        None => if include_done {
            ShapedModel { view: v, done: None }
        } else {
            let (landed, discarded) = (done_names(v.tickets, false), done_names(v.tickets, true));
            ShapedModel {
                view: BoardViewModel { tickets: tickets_of(v.tickets, ColumnId::Done, false), ..v },
                done: Some(
                    DoneSummaryModel {
                        count: landed.len() + discarded.len(),
                        landed,
                        discarded,
                        note: DONE_OMITTED_NOTE@,
                    },
                ),
            }
        },
    }
}

fn keep_tickets(tickets: &mut Vec<TicketView>, col: ColumnId, within: bool)
    ensures
        models(final(tickets)@) == tickets_of(models(old(tickets)@), col, within),
{
    let ghost all = models(tickets@);
    let ghost mut done: int = 0;
    let mut i: usize = 0;
    proof {
        assert(tickets_of(all.take(0), col, within) + all.subrange(0, all.len() as int) =~= all);
    }
    while i < tickets.len()
        invariant
            0 <= done <= all.len(),
            i == tickets_of(all.take(done), col, within).len(),
            models(tickets@) == tickets_of(all.take(done), col, within) + all.subrange(done, all.len() as int),
        decreases all.len() - done,
    {
        let ghost kept = tickets_of(all.take(done), col, within);
        let ghost before = models(tickets@);
        proof {
            assert(before[i as int] == tickets@[i as int]@);
            assert(before[i as int] == all[done]);
            assert(all.take(done + 1).drop_last() =~= all.take(done));
            assert(all.take(done + 1).last() == all[done]);
        }
        if (tickets[i].ticket.column.id() == col) == within {
            proof {
                assert(kept + all.subrange(done, all.len() as int) =~= kept.push(all[done]) + all.subrange(
                    done + 1,
                    all.len() as int,
                ));
            }
            i = i + 1;
        } else {
            tickets.remove(i);
            proof {
                assert(before.remove(i as int) =~= kept + all.subrange(done + 1, all.len() as int));
            }
        }
        proof {
            done = done + 1;
        }
    }
    proof {
        assert(models(tickets@).len() == i);
        assert(done == all.len());
        assert(all.take(done) =~= all);
        assert(tickets_of(all, col, within) + all.subrange(done, all.len() as int) =~= tickets_of(all, col, within));
    }
}

fn keep_epics(epics: &mut Vec<EpicView>, col: ColumnId)
    ensures
        models(final(epics)@) == epics_of(models(old(epics)@), col),
{
    let ghost all = models(epics@);
    let ghost mut done: int = 0;
    let mut i: usize = 0;
    proof {
        assert(epics_of(all.take(0), col) + all.subrange(0, all.len() as int) =~= all);
    }
    while i < epics.len()
        invariant
            0 <= done <= all.len(),
            i == epics_of(all.take(done), col).len(),
            models(epics@) == epics_of(all.take(done), col) + all.subrange(done, all.len() as int),
        decreases all.len() - done,
    {
        let ghost kept = epics_of(all.take(done), col);
        let ghost before = models(epics@);
        proof {
            assert(before[i as int] == epics@[i as int]@);
            assert(before[i as int] == all[done]);
            assert(all.take(done + 1).drop_last() =~= all.take(done));
            assert(all.take(done + 1).last() == all[done]);
        }
        if epics[i].column == col {
            proof {
                assert(kept + all.subrange(done, all.len() as int) =~= kept.push(all[done]) + all.subrange(
                    done + 1,
                    all.len() as int,
                ));
            }
            i = i + 1;
        } else {
            epics.remove(i);
            proof {
                assert(before.remove(i as int) =~= kept + all.subrange(done + 1, all.len() as int));
            }
        }
        proof {
            done = done + 1;
        }
    }
    proof {
        assert(models(epics@).len() == i);
        assert(done == all.len());
        assert(all.take(done) =~= all);
        assert(epics_of(all, col) + all.subrange(done, all.len() as int) =~= epics_of(all, col));
    }
}

/// The ids of the done tickets on one side of the discarded line.
pub fn done_ids(view: &BoardView, want_discarded: bool) -> (r: Vec<String>)
    ensures
        models(r@) == done_names(view@.tickets, want_discarded),
{
    let ghost all = view@.tickets;
    let mut out: Vec<String> = Vec::new();
    let mut i: usize = 0;
    while i < view.tickets.len()
        invariant
            all == models(view.tickets@),
            i <= view.tickets@.len(),
            models(out@) == done_names(all.take(i as int), want_discarded),
        decreases view.tickets@.len() - i,
    {
        proof {
            assert(all.take(i + 1).drop_last() =~= all.take(i as int));
            assert(all.take(i + 1).last() == view.tickets@[i as int]@);
        }
        let t: &Ticket = &view.tickets[i].ticket;
        match &t.column {
            Column::Done { discarded, .. } => {
                if *discarded == want_discarded {
                    out.push(t.id.to_string());
                }
            },
            _ => {},
        }
        i = i + 1;
    }
    assert(all.take(all.len() as int) =~= all);
    out
}

proof fn lemma_done_count(ts: Seq<TicketViewModel>)
    ensures
        done_names(ts, false).len() + done_names(ts, true).len() <= ts.len(),
    decreases ts.len(),
{
    if ts.len() > 0 {
        lemma_done_count(ts.drop_last());
    }
}

/// Keep only what sits in one column; epics by their derived column.
pub fn restrict_to_column(view: BoardView, col: ColumnId) -> (r: BoardView)
    ensures
        r@ == shape_spec(view@, Some(col), false).view,
{
    let mut view: BoardView = view;
    keep_tickets(&mut view.tickets, col, true);
    keep_epics(&mut view.epics, col);
    view
}

/// Drop the done tickets and put a summary in their place. Epics stay: that one is done is legitimate.
pub fn omit_done(view: BoardView) -> (r: Shaped)
    ensures
        r@ == shape_spec(view@, None, false),
{
    let landed: Vec<String> = done_ids(&view, false);
    let discarded: Vec<String> = done_ids(&view, true);
    let total: usize = view.tickets.len();
    proof {
        lemma_done_count(view@.tickets);
        assert(models(landed@).len() + models(discarded@).len() <= total);
    }
    let count: usize = landed.len() + discarded.len();
    let mut view: BoardView = view;
    keep_tickets(&mut view.tickets, ColumnId::Done, false);
    Shaped { view, done: Some(DoneSummary { count, landed, discarded, note: DONE_OMITTED_NOTE }) }
}

/// Shape a board read for the wire.
pub fn shape(view: BoardView, column: Option<ColumnId>, include_done: bool) -> (r: Shaped)
    ensures
        r@ == shape_spec(view@, column, include_done),
{
    match column {
        Some(col) => Shaped { view: restrict_to_column(view, col), done: None },
        None => {
            if include_done {
                Shaped { view, done: None }
            } else {
                omit_done(view)
            }
        },
    }
}

// ---- the server -----------------------------------------------------------------------------------------------------

/// A board read as a tool answers it.
#[derive(Debug)]
pub struct BoardAnswer {
    pub shaped: Shaped,
    /// How many tickets a work loop may drive at once.
    pub max_workers: usize,
    /// How many seconds a work loop sleeps when nothing is eligible.
    pub idle_time: u64,
}

/// What to do with the next ticket: build it, or write its spec.
#[derive(Debug, Clone, Copy, PartialEq, Eq, Structural)]
pub enum Action {
    Implement,
    Refine,
}

impl Action {
    pub fn as_str(self) -> (r: &'static str)
        ensures
            r@ == match self {
                Action::Implement => "implement"@,
                Action::Refine => "refine"@,
            },
    {
        match self {
            Action::Implement => "implement",
            Action::Refine => "refine",
        }
    }
}

/// Why there is no next ticket.
pub const NOTHING_ELIGIBLE: &'static str =
    "no eligible ticket: nothing in todo is ready or stub, unblocked, unclaimed, and non-external";

/// The next thing to work on.
#[derive(Debug)]
pub struct NextAnswer {
    pub version: u64,
    pub offer: Option<(Ticket, Action)>,
}

/// The tools' face of a store.
#[derive(Debug)]
pub struct KanbanServer {
    pub store: Store,
}

/// `answer` names the highest eligible ticket of the board, to be refined when it is a stub; or none is eligible.
pub open spec fn answers_next(answer: NextAnswer, b: BoardModel, claims: Seq<crate::store::claims::ClaimModel>) -> bool {
    &&& answer.version == b.version
    &&& match answer.offer {
        Some(o) => highest_offered(b, claims, o.0@) && o.1 == if o.0@.status == Status::Stub {
            Action::Refine
        } else {
            Action::Implement
        },
        None => forall|i: int| !(#[trigger] crate::store::derive::offered(b, claims, i)),
    }
}

/// The column a read is restricted to.
pub open spec fn column_param(c: Option<String>) -> Result<Option<ColumnId>, Text> {
    match c {
        None => Ok(None),
        Some(t) => match ColumnId::named(t@) {
            Some(col) => Ok(Some(col)),
            None => Err("'"@ + t@ + "' is not a column (todo/doing/review/done)"@),
        },
    }
}

impl KanbanServer {
    /// Read the board. A word that is no column is refused before anything is read.
    pub fn kanban_board(&self, p: &BoardParams, config: &Config, gone: &Vec<String>, now: Timestamp) -> (r: Result<
        BoardAnswer,
        ToolError,
    >)
        requires
            self.store@.fits(),
        ensures
            match (column_param(p.column), self.store@.readable(), r) {
                (Err(e), _, Err(got)) => got@ == ToolErrorModel::Params(e),
                (Ok(_), Err(e), Err(got)) => got@ == ToolErrorModel::Tool(refusal(OpErrorModel::Store(e))),
                (Ok(column), Ok(b), Ok(a)) => a.shaped@ == shape_spec(
                    board_view_spec(b, self.store@.claims, models(gone@), now),
                    column,
                    p.include_done == Some(true),
                ) && a.max_workers == config@.workers() && a.idle_time == config@.idle(),
                _ => false,
            },
    {
        let column: Option<ColumnId> = match &p.column {
            None => None,
            Some(c) => match ColumnId::parse(c) {
                Ok(col) => Some(col),
                Err(e) => return Err(ToolError::Params(e)),
            },
        };
        let include_done: bool = match p.include_done {
            Some(b) => b,
            None => false,
        };
        let board: Board = match self.store.read_board() {
            Ok(b) => b,
            Err(e) => return Err(tool_error(&OpError::Store(e))),
        };
        let claims: Vec<Claim> = match self.store.read_claims() {
            Ok(c) => c,
            Err(e) => return Err(tool_error(&OpError::Store(e))),
        };
        let view: BoardView = board_view(&board, &claims, gone, now);
        Ok(
            BoardAnswer {
                shaped: shape(view, column, include_done),
                max_workers: config.max_workers(),
                idle_time: config.idle_time(),
            },
        )
    }

    /// The next thing to work on. What has reached the main branch should be landed first, so that dependents unblock.
    pub fn kanban_next(&self) -> (r: Result<NextAnswer, ToolError>)
        requires
            self.store@.fits(),
        ensures
            match (self.store@.readable(), r) {
                (Err(e), Err(got)) => got@ == ToolErrorModel::Tool(refusal(OpErrorModel::Store(e))),
                (Ok(b), Ok(a)) => answers_next(a, b, self.store@.claims),
                _ => false,
            },
    {
        let board: Board = match self.store.read_board() {
            Ok(b) => b,
            Err(e) => return Err(tool_error(&OpError::Store(e))),
        };
        let claims: Vec<Claim> = match self.store.read_claims() {
            Ok(c) => c,
            Err(e) => return Err(tool_error(&OpError::Store(e))),
        };
        let offer: Option<(Ticket, Action)> = match next_ticket(&board, &claims) {
            Some(t) => {
                let action: Action = if t.status == Status::Stub { Action::Refine } else { Action::Implement };
                Some((t.clone(), action))
            },
            None => None,
        };
        Ok(NextAnswer { version: board.version, offer })
    }

    /// Apply one operation at the version the caller saw. A refusal leaves the store as it was.
    pub fn apply(&mut self, expected_version: Option<u64>, op: Op) -> (r: Result<Applied, ToolError>)
        requires
            room_for(old(self).store@, expected_version, op),
        ensures
            exists|now: Timestamp|
                match #[trigger] apply_spec(old(self).store@, expected_version, op, now) {
                    Ok(done) => r is Ok && final(self).store@ == done.0 && models(r->Ok_0.created_ids@) == done.1.created_ids
                        && r->Ok_0.result@ == done.1.result && r->Ok_0.version == done.0.board->0.version,
                    Err(e) => r is Err && r->Err_0@ == ToolErrorModel::Tool(refusal(e)) && final(self).store@ == old(
                        self,
                    ).store@,
                },
    {
        match apply(&mut self.store, expected_version, op) {
            Ok(a) => Ok(a),
            Err(e) => Err(tool_error(&e)),
        }
    }
}

// ---- laws -----------------------------------------------------------------------------------------------------------

/// Whatever the shape, the version is the board's own, and so it is good as an expected version.
pub proof fn the_version_survives_shaping(v: BoardViewModel, column: Option<ColumnId>, include_done: bool)
    ensures
        shape_spec(v, column, include_done).view.version == v.version,
        shape_spec(v, column, include_done).view.columns == v.columns,
{
}

/// Asking for done tickets gives the whole board, and nothing to account for.
pub proof fn nothing_is_left_out_on_request(v: BoardViewModel)
    ensures
        shape_spec(v, None, true).view == v,
        shape_spec(v, None, true).done is None,
{
}

/// Epics are never left out of a read of the whole board.
pub proof fn epics_survive_the_default_read(v: BoardViewModel, include_done: bool)
    ensures
        shape_spec(v, None, include_done).view.epics == v.epics,
{
}

/// A default read accounts for every ticket: those that are not done are there, a landed one is named as landed, and a
/// discarded one as discarded.
pub proof fn the_default_read_accounts_for_every_ticket(v: BoardViewModel, i: int)
    requires
        0 <= i < v.tickets.len(),
    ensures
        ({
            let t = v.tickets[i];
            let s = shape_spec(v, None, false);
            match t.ticket.column {
                ColumnModel::Done { discarded, .. } => if discarded {
                    s.done->Some_0.discarded.contains(t.ticket.id)
                } else {
                    s.done->Some_0.landed.contains(t.ticket.id)
                },
                _ => s.view.tickets.contains(t),
            }
        }),
{
    if v.tickets[i].ticket.column.id() != ColumnId::Done {
        lemma_kept(v.tickets, ColumnId::Done, false, i);
    }
    lemma_named(v.tickets, i);
}

/// A default read shows no done ticket, and counts as done exactly those that it left out.
pub proof fn the_default_read_counts_what_it_left_out(v: BoardViewModel)
    ensures
        ({
            let s = shape_spec(v, None, false);
            s.view.tickets.len() + s.done->Some_0.count == v.tickets.len()
        }),
    decreases v.tickets.len(),
{
    if v.tickets.len() > 0 {
        the_default_read_counts_what_it_left_out(BoardViewModel { tickets: v.tickets.drop_last(), ..v });
    }
}

proof fn lemma_kept(ts: Seq<TicketViewModel>, col: ColumnId, within: bool, i: int)
    requires
        0 <= i < ts.len(),
        (ts[i].ticket.column.id() == col) == within,
    ensures
        tickets_of(ts, col, within).contains(ts[i]),
    decreases ts.len(),
{
    let all = tickets_of(ts, col, within);
    let before = tickets_of(ts.drop_last(), col, within);
    if i < ts.len() - 1 {
        lemma_kept(ts.drop_last(), col, within, i);
        let k = before.index_of(ts[i]);
        assert(all[k] == ts[i]);
    } else {
        assert(all[all.len() - 1] == ts[i]);
    }
}

proof fn lemma_named(ts: Seq<TicketViewModel>, i: int)
    requires
        0 <= i < ts.len(),
    ensures
        ts[i].ticket.column matches ColumnModel::Done { discarded, .. } ==> done_names(ts, discarded).contains(
            ts[i].ticket.id,
        ),
    decreases ts.len(),
{
    match ts[i].ticket.column {
        ColumnModel::Done { discarded, .. } => {
            let all = done_names(ts, discarded);
            let before = done_names(ts.drop_last(), discarded);
            if i < ts.len() - 1 {
                lemma_named(ts.drop_last(), i);
                let k = before.index_of(ts[i].ticket.id);
                assert(all[k] == ts[i].ticket.id);
            } else {
                assert(all[all.len() - 1] == ts[i].ticket.id);
            }
        },
        _ => {},
    }
}

/// What the next ticket is: the highest of those on offer, to be refined exactly when it is a stub. None is named exactly
/// when none is on offer.
pub proof fn the_next_ticket_is_the_highest_on_offer(
    answer: NextAnswer,
    b: BoardModel,
    claims: Seq<crate::store::claims::ClaimModel>,
)
    requires
        answers_next(answer, b, claims),
    ensures
        answer.version == b.version,
        answer.offer is None <==> forall|i: int|
            0 <= i < b.tickets.len() ==> !(#[trigger] crate::store::derive::offered(b, claims, i)),
        answer.offer matches Some(o) ==> (o.1 == Action::Refine <==> o.0@.status == Status::Stub) && exists|i: int|
            0 <= i < b.tickets.len() && #[trigger] b.tickets[i] == o.0@ && crate::store::derive::offered(b, claims, i) && (
            forall|k: int| 0 <= k < i ==> !(#[trigger] crate::store::derive::offered(b, claims, k))),
{
}

/// A read of one column shows its tickets, and the epics that stand there, in board order; a default read shows every ticket
/// that is not done and names the others, landed apart from discarded.
pub proof fn a_read_shows_what_was_asked_for(v: BoardViewModel, column: ColumnId)
    ensures
        ({
            let s = shape_spec(v, Some(column), false);
            &&& s == shape_spec(v, Some(column), true)
            &&& s.done is None
            &&& s.view.tickets == v.tickets.filter(|t: TicketViewModel| t.ticket.column.id() == column)
            &&& s.view.epics == v.epics.filter(|e: EpicViewModel| e.column == column)
        }),
        ({
            let s = shape_spec(v, None, false);
            &&& s.view.tickets == v.tickets.filter(|t: TicketViewModel| !(t.ticket.column is Done))
            &&& s.done is Some
            &&& (s.done->0).landed == v.tickets.filter(
                |t: TicketViewModel| t.ticket.column is Done && !t.ticket.column->discarded,
            ).map_values(|t: TicketViewModel| t.ticket.id)
            &&& (s.done->0).discarded == v.tickets.filter(
                |t: TicketViewModel| t.ticket.column is Done && t.ticket.column->discarded,
            ).map_values(|t: TicketViewModel| t.ticket.id)
            &&& (s.done->0).note
                == "done tickets omitted — call kanban_board with include_done=true, or column=\"done\", to read them"@
        }),
{
    lemma_column_kept(v.tickets, column);
    lemma_epics_kept(v.epics, column);
    lemma_undone_kept(v.tickets);
    lemma_landed_named(v.tickets);
    lemma_discarded_named(v.tickets);
}

proof fn lemma_column_kept(ts: Seq<TicketViewModel>, column: ColumnId)
    ensures
        tickets_of(ts, column, true) == ts.filter(|t: TicketViewModel| t.ticket.column.id() == column),
    decreases ts.len(),
{
    reveal(Seq::filter);
    if ts.len() > 0 {
        lemma_column_kept(ts.drop_last(), column);
    }
}

proof fn lemma_epics_kept(es: Seq<EpicViewModel>, column: ColumnId)
    ensures
        epics_of(es, column) == es.filter(|e: EpicViewModel| e.column == column),
    decreases es.len(),
{
    reveal(Seq::filter);
    if es.len() > 0 {
        lemma_epics_kept(es.drop_last(), column);
    }
}

proof fn lemma_undone_kept(ts: Seq<TicketViewModel>)
    ensures
        tickets_of(ts, ColumnId::Done, false) == ts.filter(|t: TicketViewModel| !(t.ticket.column is Done)),
    decreases ts.len(),
{
    reveal(Seq::filter);
    if ts.len() > 0 {
        lemma_undone_kept(ts.drop_last());
    }
}

proof fn lemma_landed_named(ts: Seq<TicketViewModel>)
    ensures
        done_names(ts, false) == ts.filter(
            |t: TicketViewModel| t.ticket.column is Done && !t.ticket.column->discarded,
        ).map_values(|t: TicketViewModel| t.ticket.id),
    decreases ts.len(),
{
    reveal(Seq::filter);
    let kept = |t: TicketViewModel| t.ticket.column is Done && !t.ticket.column->discarded;
    let name = |t: TicketViewModel| t.ticket.id;
    if ts.len() > 0 {
        lemma_landed_named(ts.drop_last());
        let before = ts.drop_last().filter(kept);
        if kept(ts.last()) {
            assert(before.push(ts.last()).map_values(name) =~= before.map_values(name).push(name(ts.last())));
        }
    } else {
        assert(ts.filter(kept).map_values(name) =~= Seq::<Text>::empty());
    }
}

proof fn lemma_discarded_named(ts: Seq<TicketViewModel>)
    ensures
        done_names(ts, true) == ts.filter(
            |t: TicketViewModel| t.ticket.column is Done && t.ticket.column->discarded,
        ).map_values(|t: TicketViewModel| t.ticket.id),
    decreases ts.len(),
{
    reveal(Seq::filter);
    let kept = |t: TicketViewModel| t.ticket.column is Done && t.ticket.column->discarded;
    let name = |t: TicketViewModel| t.ticket.id;
    if ts.len() > 0 {
        lemma_discarded_named(ts.drop_last());
        let before = ts.drop_last().filter(kept);
        if kept(ts.last()) {
            assert(before.push(ts.last()).map_values(name) =~= before.map_values(name).push(name(ts.last())));
        }
    } else {
        assert(ts.filter(kept).map_values(name) =~= Seq::<Text>::empty());
    }
}

/// A created ticket is handed on as it was asked for: what was left out is empty, a ticket awaits the human's verdict unless
/// it says otherwise, and nothing created here may land unseen.
pub proof fn a_ticket_is_created_as_asked(p: CreateTicketParams, op: Op)
    requires
        creates(p, op),
    ensures
        op is CreateTicket,
        op->CreateTicket_title@ == p.title@,
        op->CreateTicket_body@ == if p.body is Some {
            (p.body->0)@
        } else {
            Seq::empty()
        },
        opt_model(op->CreateTicket_epic) == opt_model(p.epic),
        models(op->CreateTicket_labels@) == if p.labels is Some {
            models((p.labels->0)@)
        } else {
            Seq::empty()
        },
        models(op->CreateTicket_depends_on@) == if p.depends_on is Some {
            models((p.depends_on->0)@)
        } else {
            Seq::empty()
        },
        p.status is None ==> op->CreateTicket_status == Status::Review,
        p.status matches Some(s) ==> Status::named(s@) == Some(op->CreateTicket_status),
        op->CreateTicket_model == p.model,
        p.effort is None ==> op->CreateTicket_effort is None,
        p.effort matches Some(s) ==> Effort::named(s@) == op->CreateTicket_effort && op->CreateTicket_effort is Some,
        !op->CreateTicket_auto_merge,
{
}

/// A word that is no status, no effort or no column is refused, and only such a word is; where none is given, the default
/// stands.
pub proof fn unknown_words_are_refused(s: Option<String>, default: Status)
    ensures
        s is None ==> status_param(opt_model(s), default) == Ok::<Status, Text>(default) && effort_param(s) == Ok::<
            Option<Effort>,
            Text,
        >(None) && column_param(s) == Ok::<Option<ColumnId>, Text>(None),
        s matches Some(w) ==> {
            &&& status_param(opt_model(s), default) is Ok <==> Status::named(w@) is Some
            &&& effort_param(s) is Ok <==> Effort::named(w@) is Some
            &&& column_param(s) is Ok <==> ColumnId::named(w@) is Some
            &&& status_param(opt_model(s), default) matches Ok(v) ==> w@ == v.name()
            &&& effort_param(s) matches Ok(v) ==> v is Some && w@ == (v->0).name()
            &&& column_param(s) matches Ok(v) ==> v is Some && w@ == (v->0).name()
        },
{
}

/// A binding names where the work is, of what kind and which, all three; it starts open, without a flag and without parts.
/// Naming none of the three unbinds, and anything between is refused.
pub proof fn a_binding_is_whole(p: BindExternalParams)
    ensures
        p.provider is Some && p.kind is Some && p.number is Some ==> (binding(p) matches Ok(Some(e)) && e.provider
            == (p.provider->0)@ && e.kind == (p.kind->0)@ && Some(e.number) == p.number && !e.closed && e.flag is None
            && e.sub_issues.len() == 0),
        p.provider is None && p.kind is None && p.number is None ==> binding(p) == Ok::<Option<ExternalModel>, Text>(None),
        binding(p) is Err <==> !(p.provider is Some && p.kind is Some && p.number is Some) && !(p.provider is None && p.kind is None
            && p.number is None),
{
}

/// A ticket to split off is handed on as it was asked for.
pub proof fn a_split_ticket_is_what_was_asked(p: NewTicketParam, s: NewTicketSpec)
    requires
        specifies(p, s),
    ensures
        s.title@ == p.title@,
        s.body@ == if p.body is Some {
            (p.body->0)@
        } else {
            Seq::empty()
        },
        models(s.labels@) == if p.labels is Some {
            models((p.labels->0)@)
        } else {
            Seq::empty()
        },
        models(s.depends_on@) == if p.depends_on is Some {
            models((p.depends_on->0)@)
        } else {
            Seq::empty()
        },
        opt_model(s.epic) == opt_model(p.epic),
        s.model == p.model,
        p.effort is None ==> s.effort is None,
        p.effort matches Some(w) ==> Effort::named(w@) == s.effort && s.effort is Some,
{
}

/// An epic to split off is handed on as it was asked for, with every one of its tickets in order.
pub proof fn a_split_epic_is_what_was_asked(p: NewEpicParam, s: NewEpicSpec)
    requires
        specifies_epic(p, s),
    ensures
        s.title@ == p.title@ && s.color == p.color,
        s.body@ == if p.body is Some {
            (p.body->0)@
        } else {
            Seq::empty()
        },
        s.tickets@.len() == if p.tickets is Some {
            (p.tickets->0)@.len()
        } else {
            0
        },
        forall|i: int| 0 <= i < s.tickets@.len() ==> specifies((p.tickets->0)@[i], #[trigger] s.tickets@[i]),
{
    if p.tickets is Some {
        assert forall|i: int| 0 <= i < s.tickets@.len() implies specifies((p.tickets->0)@[i], #[trigger] s.tickets@[i]) by {
            assert(specifies(tickets_or_none(p.tickets)[i], s.tickets@[i]));
        }
    }
}

/// A refinement aims at the epic or the ticket that its id names, and hands on every part in order.
pub proof fn a_refinement_is_what_was_asked(p: RefineParams, op: Op)
    requires
        refines(p, op),
    ensures
        op is Refine,
        has_prefix(p.target@, "EP-"@) ==> (op->Refine_target matches RefineTarget::Epic(id) && id@ == p.target@),
        !has_prefix(p.target@, "EP-"@) ==> (op->Refine_target matches RefineTarget::Ticket(id) && id@ == p.target@),
        op->Refine_title == p.title && op->Refine_body == p.body,
        op->split_tickets@.len() == if p.split_tickets is Some {
            (p.split_tickets->0)@.len()
        } else {
            0
        },
        forall|i: int|
            0 <= i < op->split_tickets@.len() ==> specifies((p.split_tickets->0)@[i], #[trigger] op->split_tickets@[i]),
        op->split_epics@.len() == if p.split_epics is Some {
            (p.split_epics->0)@.len()
        } else {
            0
        },
        forall|i: int|
            0 <= i < op->split_epics@.len() ==> specifies_epic((p.split_epics->0)@[i], #[trigger] op->split_epics@[i]),
{
    if p.split_tickets is Some {
        assert forall|i: int| 0 <= i < op->split_tickets@.len() implies specifies(
            (p.split_tickets->0)@[i],
            #[trigger] op->split_tickets@[i],
        ) by {
            assert(specifies(tickets_or_none(p.split_tickets)[i], op->split_tickets@[i]));
        }
    }
    if p.split_epics is Some {
        assert forall|i: int| 0 <= i < op->split_epics@.len() implies specifies_epic(
            (p.split_epics->0)@[i],
            #[trigger] op->split_epics@[i],
        ) by {
            assert(specifies_epic(epics_or_none(p.split_epics)[i], op->split_epics@[i]));
        }
    }
}

/// The trouble reported is that of the first ticket with an effort that is none; without such a ticket there is none.
pub proof fn the_first_trouble_is_reported(ps: Seq<NewTicketParam>)
    ensures
        ticket_trouble(ps) is None <==> forall|i: int| 0 <= i < ps.len() ==> effort_param((#[trigger] ps[i]).effort) is Ok,
        forall|i: int|
            0 <= i < ps.len() && effort_param((#[trigger] ps[i]).effort) is Err && (forall|k: int|
                0 <= k < i ==> effort_param((#[trigger] ps[k]).effort) is Ok) ==> ticket_trouble(ps) == Some(
                effort_param(ps[i].effort)->Err_0,
            ),
    decreases ps.len(),
{
    if ps.len() > 0 {
        let before = ps.drop_last();
        the_first_trouble_is_reported(before);
        assert forall|i: int|
            0 <= i < ps.len() && effort_param((#[trigger] ps[i]).effort) is Err && (forall|k: int|
                0 <= k < i ==> effort_param((#[trigger] ps[k]).effort) is Ok) implies ticket_trouble(ps) == Some(
            effort_param(ps[i].effort)->Err_0,
        ) by {
            if i < before.len() {
                assert(before[i] == ps[i]);
                assert forall|k: int| 0 <= k < i implies effort_param((#[trigger] before[k]).effort) is Ok by {
                    assert(before[k] == ps[k]);
                }
            } else {
                assert forall|k: int| 0 <= k < before.len() implies effort_param((#[trigger] before[k]).effort) is Ok by {
                    assert(before[k] == ps[k]);
                }
            }
        }
        if ticket_trouble(ps) is None {
            assert forall|i: int| 0 <= i < ps.len() implies effort_param((#[trigger] ps[i]).effort) is Ok by {
                if i < before.len() {
                    assert(before[i] == ps[i]);
                }
            }
        } else if ticket_trouble(before) is Some {
            let i = choose|i: int| 0 <= i < before.len() && effort_param((#[trigger] before[i]).effort) is Err;
            assert(effort_param(ps[i].effort) is Err);
        } else {
            assert(effort_param(ps[ps.len() - 1].effort) is Err);
        }
    }
}

/// A conflict of versions is answered with the version to retry at, every other refusal with what it says itself.
pub proof fn a_conflict_names_the_version(expected: u64, actual: u64, e: OpErrorModel)
    ensures
        refusal(OpErrorModel::Store(StoreErrorModel::VersionConflict { expected, actual }))
            == "version conflict: the board is now at version "@ + decimal(actual as nat)
            + " — call kanban_board and retry with expected_version="@ + decimal(actual as nat),
        !(e is Store && e->Store_0 is VersionConflict) ==> refusal(e) == e.message(),
{
}

/// Who acts is who is named, and the assistant where nobody is.
pub proof fn an_agent_has_a_name(a: Option<String>)
    ensures
        a matches Some(s) ==> agent_named(a) == s@,
        a is None ==> agent_named(a) == assistant_name(),
{
}

/// The trouble with epics is that of the first epic that has a ticket in trouble.
pub proof fn the_first_epic_in_trouble_is_reported(ps: Seq<NewEpicParam>, i: int)
    requires
        0 <= i <= ps.len(),
        i < ps.len() ==> ticket_trouble(tickets_or_none(ps[i].tickets)) is Some,
        forall|k: int| 0 <= k < i ==> ticket_trouble(tickets_or_none((#[trigger] ps[k]).tickets)) is None,
    ensures
        i < ps.len() ==> epic_trouble(ps) == ticket_trouble(tickets_or_none(ps[i].tickets)),
        i == ps.len() ==> epic_trouble(ps) is None,
    decreases ps.len(),
{
    if ps.len() > 0 {
        let before = ps.drop_last();
        let j = if i < before.len() {
            i
        } else {
            before.len() as int
        };
        assert(ps.last() == ps[ps.len() - 1]);
        assert forall|k: int| 0 <= k < j implies ticket_trouble(tickets_or_none((#[trigger] before[k]).tickets)) is None by {
            assert(before[k] == ps[k]);
        }
        if j < before.len() {
            assert(before[j] == ps[j]);
        }
        the_first_epic_in_trouble_is_reported(before, j);
        if i == ps.len() {
            assert(ticket_trouble(tickets_or_none(ps[ps.len() - 1].tickets)) is None);
        }
    }
}

} // verus!
