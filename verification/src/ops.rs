//! The single write funnel: every board mutation is one [`Op`] applied by [`apply`].
//!
//! [`apply`] adds to the store's write discipline the semantic rules: what a move does to a ticket's column data, what
//! claiming requires, what a refinement creates.
use vstd::prelude::*;

use crate::seqs::{lemma_position_least, models, opt_model, position};
use crate::store::claims::{find, found, remove, removed, upsert, upserted, Claim, ClaimKind, ClaimModel};
use crate::store::derive::{blocked, is_blocked};
use crate::store::model::{
    clone_epic_ref, clone_external, clone_ids, clone_opt, clone_pr, epic_name, is_epic, ticket_ids, ticket_name, Board,
    BoardModel, Column, ColumnId, ColumnModel, Effort, Epic, EpicId, EpicModel, External, ExternalModel, Note,
    NoteModel, PrModel, PrRef, Status, Ticket, TicketId, TicketModel,
};
use crate::store::{Store, StoreError, StoreErrorModel, StoreModel};
use crate::text::{
    concat2, concat3, concat4, join, join_spec, number_upto, parse_upto, same, same_opt, strip_prefix,
    strip_prefix_spec, trim, trim_spec, Text,
};
use crate::time::Timestamp;

verus! {

broadcast use crate::seqs::group_models;

// ---- operations -----------------------------------------------------------------------------------------------------

/// Every mutation the board supports.
#[derive(Debug)]
#[allow(inconsistent_fields)]
pub enum Op {
    /// Create a ticket at the bottom of `todo`.
    CreateTicket {
        title: String,
        body: String,
        epic: Option<EpicId>,
        labels: Vec<String>,
        depends_on: Vec<TicketId>,
        status: Status,
        model: Option<String>,
        effort: Option<Effort>,
        auto_merge: bool,
    },
    /// Create an epic. Without a colour it gets the next of the palette.
    CreateEpic { title: String, color: Option<String>, body: String, status: Status, auto_merge: bool },
    /// Patch a ticket's descriptive fields.
    UpdateTicket { id: TicketId, patch: TicketPatch },
    /// Patch an epic's descriptive fields.
    UpdateEpic { id: EpicId, patch: EpicPatch },
    /// Delete a ticket, removing it from other tickets' dependencies and dropping its claim.
    DeleteTicket { id: TicketId },
    /// Delete an epic and every ticket in it, likewise.
    DeleteEpic { id: EpicId },
    /// Move a ticket to a column at a position (`None` = bottom). Entering `doing` needs an owner; entering `review` or
    /// `done` drops the claim; entering `done` stamps the time. `branch` overrides the branch recorded so far.
    MoveTicket { id: TicketId, to: ColumnId, position: Option<usize>, owner: Option<String>, branch: Option<String> },
    SetTicketStatus { id: TicketId, status: Status },
    SetEpicStatus { id: EpicId, status: Status },
    /// Take a ticket: it must be `ready` or `stub`, unblocked, unclaimed and not done.
    Claim { id: TicketId, agent: String },
    /// Give a ticket back: drops the claim and returns the card to the top of `todo`.
    Release { id: TicketId },
    /// Append to the ticket's progress log.
    AddNote { id: TicketId, text: String, author: Option<String> },
    /// Bind a ticket to a work item in another system, or unbind it.
    BindExternal { id: TicketId, external: Option<External> },
    /// Hand a ticket in `doing` to a delegate: bind it, make the delegate its owner and claimant, and note it. Refused
    /// when the ticket has moved on in the meantime.
    Delegate { id: TicketId, external: External, agent: String, note: String },
    /// Mirror the items a delegated work item was split into: each becomes a ticket in `doing` owned by the delegate,
    /// and the parent waits for them in `review`.
    MirrorSubIssues { parent: TicketId, agent: String, children: Vec<SubIssueSpec> },
    /// Record a refinement: replace the target's spec, split off new tickets and epics, and leave everything touched or
    /// created awaiting the user's verdict.
    Refine {
        target: RefineTarget,
        title: Option<String>,
        body: String,
        split_tickets: Vec<NewTicketSpec>,
        split_epics: Vec<NewEpicSpec>,
    },
    /// Land a review ticket because its code has reached the main branch. Refused when the ticket is no longer in review
    /// or its branch changed since the evidence was gathered.
    LandTicket { id: TicketId, expected_branch: Option<String>, reason: String },
    /// Retire a review ticket without landing it.
    DiscardTicket { id: TicketId, reason: String },
    /// Send a review ticket back for another round: it returns to `doing`, unclaimed, with the comment on its log. Refused
    /// for external tickets, whose verdict belongs with the delegate, and without a comment to work from.
    RequestChanges { id: TicketId, comment: String, author: String },
    /// Record or clear the ticket's bound pull request.
    SetPr { id: TicketId, pr: Option<PrRef> },
    /// Stamp a started worktree's branch onto the ticket and its path onto the live claim.
    StampWorktree { id: TicketId, branch: String, path: String },
    /// Drop the worktree path from the live claim; the claim itself survives.
    ClearWorktreePath { id: TicketId },
}

/// What `Refine` refines.
#[derive(Debug)]
pub enum RefineTarget {
    Ticket(TicketId),
    Epic(EpicId),
}

/// Descriptive fields of a ticket that `UpdateTicket` may change. `None` leaves a field alone; the nested options tell
/// clearing a field from leaving it alone.
#[derive(Debug)]
pub struct TicketPatch {
    pub title: Option<String>,
    pub body: Option<String>,
    pub labels: Option<Vec<String>>,
    pub depends_on: Option<Vec<TicketId>>,
    pub epic: Option<Option<EpicId>>,
    pub model: Option<Option<String>>,
    pub effort: Option<Option<Effort>>,
    pub auto_merge: Option<bool>,
}

impl Default for TicketPatch {
    fn default() -> (r: TicketPatch)
        ensures
            r.title is None && r.body is None && r.labels is None && r.depends_on is None && r.epic is None && r.model is None
                && r.effort is None && r.auto_merge is None,
    {
        TicketPatch {
            title: None,
            body: None,
            labels: None,
            depends_on: None,
            epic: None,
            model: None,
            effort: None,
            auto_merge: None,
        }
    }
}

/// Descriptive fields of an epic that `UpdateEpic` may change.
#[derive(Debug)]
pub struct EpicPatch {
    pub title: Option<String>,
    pub color: Option<String>,
    pub body: Option<String>,
    pub auto_merge: Option<bool>,
}

impl Default for EpicPatch {
    fn default() -> (r: EpicPatch)
        ensures
            r.title is None && r.color is None && r.body is None && r.auto_merge is None,
    {
        EpicPatch { title: None, color: None, body: None, auto_merge: None }
    }
}

/// A ticket created by `Refine`. A dependency is the id of a ticket on the board, or `new:<i>` for the i-th of the
/// refinement's `split_tickets`.
#[derive(Debug)]
pub struct NewTicketSpec {
    pub title: String,
    pub body: String,
    pub labels: Vec<String>,
    pub depends_on: Vec<String>,
    /// `None` inherits the refine target's epic.
    pub epic: Option<EpicId>,
    pub model: Option<String>,
    pub effort: Option<Effort>,
}

/// An epic created by `Refine`, with its own tickets.
#[derive(Debug)]
pub struct NewEpicSpec {
    pub title: String,
    pub color: Option<String>,
    pub body: String,
    pub tickets: Vec<NewTicketSpec>,
}

/// One item that a delegated work item was split into.
#[derive(Debug)]
pub struct SubIssueSpec {
    pub number: u64,
    pub title: String,
    pub body: String,
}

pub struct SubIssueModel {
    pub number: u64,
    pub title: Text,
    pub body: Text,
}

impl View for SubIssueSpec {
    type V = SubIssueModel;

    open spec fn view(&self) -> SubIssueModel {
        SubIssueModel { number: self.number, title: self.title@, body: self.body@ }
    }
}

impl Clone for SubIssueSpec {
    fn clone(&self) -> (r: SubIssueSpec)
        ensures
            r@ == self@,
    {
        SubIssueSpec { number: self.number, title: self.title.clone(), body: self.body.clone() }
    }
}

/// What an operation reports about itself.
#[derive(Debug)]
#[allow(inconsistent_fields)]
pub enum Payload {
    Touched { id: String },
    Deleted { id: TicketId },
    DeletedEpic { id: EpicId, tickets: Vec<TicketId> },
    Moved { id: TicketId, column: ColumnId },
    Landed { id: TicketId },
    Discarded { id: TicketId },
    Pr { id: TicketId, pr: Option<PrRef> },
    StatusSet { id: String, status: Status },
    Claimed { id: TicketId, owner: String, refining: bool },
    Noted { id: TicketId, notes: usize },
    Bound { id: TicketId, external: Option<External> },
    Refined { target: String, created: Vec<String> },
    Stamped { id: TicketId, branch: String, path: String },
}

pub enum PayloadModel {
    Touched { id: Text },
    Deleted { id: Text },
    DeletedEpic { id: Text, tickets: Seq<Text> },
    Moved { id: Text, column: ColumnId },
    Landed { id: Text },
    Discarded { id: Text },
    Pr { id: Text, pr: Option<PrModel> },
    StatusSet { id: Text, status: Status },
    Claimed { id: Text, owner: Text, refining: bool },
    Noted { id: Text, notes: nat },
    Bound { id: Text, external: Option<ExternalModel> },
    Refined { target: Text, created: Seq<Text> },
    Stamped { id: Text, branch: Text, path: Text },
}

impl View for Payload {
    type V = PayloadModel;

    open spec fn view(&self) -> PayloadModel {
        match *self {
            Payload::Touched { id } => PayloadModel::Touched { id: id@ },
            Payload::Deleted { id } => PayloadModel::Deleted { id: id@ },
            Payload::DeletedEpic { id, tickets } => PayloadModel::DeletedEpic { id: id@, tickets: models(tickets@) },
            Payload::Moved { id, column } => PayloadModel::Moved { id: id@, column },
            Payload::Landed { id } => PayloadModel::Landed { id: id@ },
            Payload::Discarded { id } => PayloadModel::Discarded { id: id@ },
            Payload::Pr { id, pr } => PayloadModel::Pr { id: id@, pr: opt_model(pr) },
            Payload::StatusSet { id, status } => PayloadModel::StatusSet { id: id@, status },
            Payload::Claimed { id, owner, refining } => PayloadModel::Claimed { id: id@, owner: owner@, refining },
            Payload::Noted { id, notes } => PayloadModel::Noted { id: id@, notes: notes as nat },
            Payload::Bound { id, external } => PayloadModel::Bound { id: id@, external: opt_model(external) },
            Payload::Refined { target, created } => PayloadModel::Refined { target: target@, created: models(created@) },
            Payload::Stamped { id, branch, path } => PayloadModel::Stamped { id: id@, branch: branch@, path: path@ },
        }
    }
}

/// What a successful [`apply`] reports back.
#[derive(Debug)]
pub struct Applied {
    /// The board's new version.
    pub version: u64,
    /// Ids minted by the operation, in creation order.
    pub created_ids: Vec<String>,
    /// What the operation reports about itself.
    pub result: Payload,
}

/// A transition's output before the store stamps the new version on it.
pub struct OpOutput {
    pub created_ids: Vec<String>,
    pub result: Payload,
}

pub struct OutputModel {
    pub created_ids: Seq<Text>,
    pub result: PayloadModel,
}

impl View for OpOutput {
    type V = OutputModel;

    open spec fn view(&self) -> OutputModel {
        OutputModel { created_ids: models(self.created_ids@), result: self.result@ }
    }
}

/// An output that reports `result` and created nothing.
pub open spec fn plain_output(result: PayloadModel) -> OutputModel {
    OutputModel { created_ids: Seq::empty(), result }
}

fn plain(result: Payload) -> (r: OpOutput)
    ensures
        r@ == plain_output(result@),
{
    OpOutput { created_ids: Vec::new(), result }
}

/// Everything an operation can refuse for.
#[derive(Debug)]
pub enum OpError {
    NotFound(String),
    Invalid(String),
    AlreadyClaimed { id: TicketId, agent: String },
    External(TicketId),
    Store(StoreError),
}

pub enum OpErrorModel {
    NotFound(Text),
    Invalid(Text),
    AlreadyClaimed { id: Text, agent: Text },
    External(Text),
    Store(StoreErrorModel),
}

impl View for OpError {
    type V = OpErrorModel;

    open spec fn view(&self) -> OpErrorModel {
        match *self {
            OpError::NotFound(what) => OpErrorModel::NotFound(what@),
            OpError::Invalid(why) => OpErrorModel::Invalid(why@),
            OpError::AlreadyClaimed { id, agent } => OpErrorModel::AlreadyClaimed { id: id@, agent: agent@ },
            OpError::External(id) => OpErrorModel::External(id@),
            OpError::Store(e) => OpErrorModel::Store(e@),
        }
    }
}

impl OpErrorModel {
    /// The sentence a reader gets.
    pub open spec fn message(self) -> Text {
        match self {
            OpErrorModel::NotFound(what) => what + " not found"@,
            OpErrorModel::Invalid(why) => why,
            OpErrorModel::AlreadyClaimed { id, agent } => id + " is already claimed by "@ + agent,
            OpErrorModel::External(id) => id + " is external — it is worked elsewhere and never gets a worktree here"@,
            OpErrorModel::Store(e) => e.message(),
        }
    }
}

impl OpError {
    /// The sentence a reader gets.
    pub fn to_string(&self) -> (r: String)
        ensures
            r@ == self@.message(),
    {
        match self {
            OpError::NotFound(what) => concat2(what, " not found"),
            OpError::Invalid(why) => why.clone(),
            OpError::AlreadyClaimed { id, agent } => concat3(&id.0, " is already claimed by ", agent),
            OpError::External(id) => concat2(&id.0, " is external — it is worked elsewhere and never gets a worktree here"),
            OpError::Store(e) => e.to_string(),
        }
    }

    /// The expected and the actual version, when this is an optimistic-concurrency conflict.
    pub fn version_conflict(&self) -> (r: Option<(u64, u64)>)
        ensures
            r == match self@ {
                OpErrorModel::Store(StoreErrorModel::VersionConflict { expected, actual }) => Some((expected, actual)),
                _ => None,
            },
    {
        match self {
            OpError::Store(StoreError::VersionConflict { expected, actual }) => Some((*expected, *actual)),
            _ => None,
        }
    }
}

impl Op {
    /// The name of the operation, without its payload.
    pub open spec fn called(self) -> Text {
        match self {
            Op::CreateTicket { .. } => "create_ticket"@,
            Op::CreateEpic { .. } => "create_epic"@,
            Op::UpdateTicket { .. } => "update_ticket"@,
            Op::UpdateEpic { .. } => "update_epic"@,
            Op::DeleteTicket { .. } => "delete_ticket"@,
            Op::DeleteEpic { .. } => "delete_epic"@,
            Op::MoveTicket { .. } => "move_ticket"@,
            Op::SetTicketStatus { .. } => "set_ticket_status"@,
            Op::SetEpicStatus { .. } => "set_epic_status"@,
            Op::Claim { .. } => "claim"@,
            Op::Release { .. } => "release"@,
            Op::AddNote { .. } => "add_note"@,
            Op::BindExternal { .. } => "bind_external"@,
            Op::Delegate { .. } => "delegate"@,
            Op::MirrorSubIssues { .. } => "mirror_sub_issues"@,
            Op::Refine { .. } => "refine"@,
            Op::LandTicket { .. } => "land_ticket"@,
            Op::DiscardTicket { .. } => "discard_ticket"@,
            Op::RequestChanges { .. } => "send_back"@,
            Op::SetPr { .. } => "set_pr"@,
            Op::StampWorktree { .. } => "stamp_worktree"@,
            Op::ClearWorktreePath { .. } => "clear_worktree_path"@,
        }
    }

    /// The operation's name for log lines.
    pub fn name(&self) -> (r: &'static str)
        ensures
            r@ == self.called(),
    {
        match self {
            Op::CreateTicket { .. } => "create_ticket",
            Op::CreateEpic { .. } => "create_epic",
            Op::UpdateTicket { .. } => "update_ticket",
            Op::UpdateEpic { .. } => "update_epic",
            Op::DeleteTicket { .. } => "delete_ticket",
            Op::DeleteEpic { .. } => "delete_epic",
            Op::MoveTicket { .. } => "move_ticket",
            Op::SetTicketStatus { .. } => "set_ticket_status",
            Op::SetEpicStatus { .. } => "set_epic_status",
            Op::Claim { .. } => "claim",
            Op::Release { .. } => "release",
            Op::AddNote { .. } => "add_note",
            Op::BindExternal { .. } => "bind_external",
            Op::Delegate { .. } => "delegate",
            Op::MirrorSubIssues { .. } => "mirror_sub_issues",
            Op::Refine { .. } => "refine",
            Op::LandTicket { .. } => "land_ticket",
            Op::DiscardTicket { .. } => "discard_ticket",
            Op::RequestChanges { .. } => "send_back",
            Op::SetPr { .. } => "set_pr",
            Op::StampWorktree { .. } => "stamp_worktree",
            Op::ClearWorktreePath { .. } => "clear_worktree_path",
        }
    }
}

// ---- what an operation makes of the board ---------------------------------------------------------------------------

/// A board and its claims.
pub struct StateModel {
    pub board: BoardModel,
    pub claims: Seq<ClaimModel>,
}

/// The board with `t` in place of the ticket `id`.
pub open spec fn with_ticket(b: BoardModel, id: Text, t: TicketModel) -> BoardModel {
    BoardModel { tickets: b.tickets.update(b.ticket_at(id), t), ..b }
}

/// The board with `e` in place of the epic `id`.
pub open spec fn with_epic(b: BoardModel, id: Text, e: EpicModel) -> BoardModel {
    BoardModel { epics: b.epics.update(b.epic_at(id), e), ..b }
}

/// The board with `t` at the bottom, under the next ticket id.
pub open spec fn with_new_ticket(b: BoardModel, t: TicketModel) -> BoardModel {
    let minted = b.minted_ticket();
    BoardModel { tickets: b.tickets.push(t), ..minted }
}

/// The default epic colours, by turns.
pub open spec fn palette(n: nat) -> Text {
    let k = n % 8;
    if k == 0 {
        "#7c9cf5"@
    } else if k == 1 {
        "#5cb8a7"@
    } else if k == 2 {
        "#d4a45c"@
    } else if k == 3 {
        "#c98bc9"@
    } else if k == 4 {
        "#e08787"@
    } else if k == 5 {
        "#8fb965"@
    } else if k == 6 {
        "#5eb3d6"@
    } else {
        "#a58fd6"@
    }
}

fn palette_colour(n: usize) -> (r: String)
    ensures
        r@ == palette(n as nat),
{
    let k: usize = n % 8;
    let colour: &str = if k == 0 {
        "#7c9cf5"
    } else if k == 1 {
        "#5cb8a7"
    } else if k == 2 {
        "#d4a45c"
    } else if k == 3 {
        "#c98bc9"
    } else if k == 4 {
        "#e08787"
    } else if k == 5 {
        "#8fb965"
    } else if k == 6 {
        "#5eb3d6"
    } else {
        "#a58fd6"
    };
    colour.to_owned()
}

/// The chosen colour, or the next of the palette on a board with `n` epics.
pub open spec fn colour_or_next(color: Option<Text>, n: nat) -> Text {
    match color {
        Some(c) => c,
        None => palette(n),
    }
}

/// The board with `e` last, under the next epic id.
pub open spec fn with_new_epic(b: BoardModel, title: Text, color: Option<Text>, body: Text, status: Status, auto_merge: bool) -> BoardModel {
    let e = EpicModel {
        id: epic_name(b.epic_seq()),
        title,
        color: colour_or_next(color, b.epics.len()),
        status,
        body,
        auto_merge,
    };
    BoardModel { epics: b.epics.push(e), ..b.minted_epic() }
}

/// A ticket as it is created: in `todo`, with no history.
pub open spec fn new_ticket(
    id: Text,
    title: Text,
    epic: Option<Text>,
    status: Status,
    body: Text,
    labels: Seq<Text>,
    model: Option<Text>,
    effort: Option<Effort>,
    auto_merge: bool,
    depends_on: Seq<Text>,
) -> TicketModel {
    TicketModel {
        id,
        title,
        epic,
        status,
        body,
        labels,
        model,
        effort,
        auto_merge,
        depends_on,
        notes: Seq::empty(),
        external: None,
        pr: None,
        changes_requested: false,
        accepted: false,
        landing_blocked: false,
        column: ColumnModel::Todo,
    }
}

/// A value, or what stands in for it when it is left alone.
pub open spec fn or_else<A>(new: Option<A>, old_value: A) -> A {
    match new {
        Some(v) => v,
        None => old_value,
    }
}

/// The ticket with the patched fields, every other field as it was.
pub open spec fn patched(t: TicketModel, p: TicketPatch) -> TicketModel {
    TicketModel {
        title: or_else(opt_model(p.title), t.title),
        body: or_else(opt_model(p.body), t.body),
        labels: match p.labels {
            Some(l) => models(l@),
            None => t.labels,
        },
        depends_on: match p.depends_on {
            Some(d) => models(d@),
            None => t.depends_on,
        },
        epic: match p.epic {
            Some(e) => opt_model(e),
            None => t.epic,
        },
        model: match p.model {
            Some(m) => opt_model(m),
            None => t.model,
        },
        effort: or_else(p.effort, t.effort),
        auto_merge: or_else(p.auto_merge, t.auto_merge),
        ..t
    }
}

/// The epic with the patched fields, every other field as it was.
pub open spec fn patched_epic(e: EpicModel, p: EpicPatch) -> EpicModel {
    EpicModel {
        title: or_else(opt_model(p.title), e.title),
        color: or_else(opt_model(p.color), e.color),
        body: or_else(opt_model(p.body), e.body),
        auto_merge: or_else(p.auto_merge, e.auto_merge),
        ..e
    }
}

fn create_ticket(board: &mut Board, new: Ticket) -> (r: OpOutput)
    requires
        old(board)@.ticket_seq() < u64::MAX,
    ensures
        final(board)@ == with_new_ticket(
            old(board)@,
            TicketModel { id: ticket_name(old(board)@.ticket_seq()), ..new@ },
        ),
        r@ == (OutputModel {
            created_ids: seq![ticket_name(old(board)@.ticket_seq())],
            result: PayloadModel::Touched { id: ticket_name(old(board)@.ticket_seq()) },
        }),
{
    let id: TicketId = board.mint_ticket_id();
    let mut created: Vec<String> = Vec::new();
    created.push(id.to_string());
    let named: String = id.to_string();
    let mut ticket: Ticket = new;
    ticket.id = id;
    board.tickets.push(ticket);
    let out: OpOutput = OpOutput { created_ids: created, result: Payload::Touched { id: named } };
    assert(out@.created_ids =~= seq![ticket_name(old(board)@.ticket_seq())]);
    out
}

fn create_epic(board: &mut Board, title: String, color: Option<String>, body: String, status: Status, auto_merge: bool) -> (r: EpicId)
    requires
        old(board)@.epic_seq() < u64::MAX,
    ensures
        final(board)@ == with_new_epic(old(board)@, title@, opt_model(color), body@, status, auto_merge),
        r@ == epic_name(old(board)@.epic_seq()),
{
    let id: EpicId = board.mint_epic_id();
    let color: String = match color {
        Some(c) => c,
        None => palette_colour(board.epics.len()),
    };
    board.epics.push(Epic { id: id.clone(), title, color, status, body, auto_merge });
    id
}

fn patch_ticket(t: &mut Ticket, patch: TicketPatch)
    ensures
        final(t)@ == patched(old(t)@, patch),
{
    if let Some(title) = patch.title {
        t.title = title;
    }
    if let Some(body) = patch.body {
        t.body = body;
    }
    if let Some(labels) = patch.labels {
        t.labels = labels;
    }
    if let Some(depends_on) = patch.depends_on {
        t.depends_on = depends_on;
    }
    if let Some(epic) = patch.epic {
        t.epic = epic;
    }
    if let Some(model) = patch.model {
        t.model = model;
    }
    if let Some(effort) = patch.effort {
        t.effort = effort;
    }
    if let Some(auto_merge) = patch.auto_merge {
        t.auto_merge = auto_merge;
    }
}

fn patch_epic(e: &mut Epic, patch: EpicPatch)
    ensures
        final(e)@ == patched_epic(old(e)@, patch),
{
    if let Some(title) = patch.title {
        e.title = title;
    }
    if let Some(color) = patch.color {
        e.color = color;
    }
    if let Some(body) = patch.body {
        e.body = body;
    }
    if let Some(auto_merge) = patch.auto_merge {
        e.auto_merge = auto_merge;
    }
}

fn update_ticket(board: &mut Board, id: &TicketId, patch: TicketPatch) -> (r: Result<OpOutput, OpError>)
    ensures
        match r {
            Ok(out) => old(board)@.has_ticket(id@) && final(board)@ == with_ticket(
                old(board)@,
                id@,
                patched(old(board)@.ticket(id@)->0, patch),
            ) && out@ == plain_output(PayloadModel::Touched { id: id@ }),
            Err(e) => !old(board)@.has_ticket(id@) && e@ == OpErrorModel::NotFound(id@) && final(board)@ == old(board)@,
        },
{
    let i: usize = match board.ticket_index(id) {
        Some(i) => i,
        None => return Err(OpError::NotFound(id.to_string())),
    };
    patch_ticket(&mut board.tickets[i], patch);
    Ok(plain(Payload::Touched { id: id.to_string() }))
}

fn update_epic(board: &mut Board, id: &EpicId, patch: EpicPatch) -> (r: Result<OpOutput, OpError>)
    ensures
        match r {
            Ok(out) => old(board)@.has_epic(id@) && final(board)@ == with_epic(
                old(board)@,
                id@,
                patched_epic(old(board)@.epic(id@)->0, patch),
            ) && out@ == plain_output(PayloadModel::Touched { id: id@ }),
            Err(e) => !old(board)@.has_epic(id@) && e@ == OpErrorModel::NotFound(id@) && final(board)@ == old(board)@,
        },
{
    let i: usize = match board.epic_index(id) {
        Some(i) => i,
        None => return Err(OpError::NotFound(id.to_string())),
    };
    patch_epic(&mut board.epics[i], patch);
    Ok(plain(Payload::Touched { id: id.to_string() }))
}

// ---- deleting -------------------------------------------------------------------------------------------------------

/// The texts of `s` that are not among `doomed`, in order.
pub open spec fn texts_without(s: Seq<Text>, doomed: Seq<Text>) -> Seq<Text>
    decreases s.len(),
{
    if s.len() == 0 {
        Seq::empty()
    } else {
        let before = texts_without(s.drop_last(), doomed);
        if doomed.contains(s.last()) {
            before
        } else {
            before.push(s.last())
        }
    }
}

/// The tickets that survive the deletion of `doomed`, in order, none depending on a deleted one any more.
pub open spec fn tickets_without(ts: Seq<TicketModel>, doomed: Seq<Text>) -> Seq<TicketModel>
    decreases ts.len(),
{
    if ts.len() == 0 {
        Seq::empty()
    } else {
        let before = tickets_without(ts.drop_last(), doomed);
        let t = ts.last();
        if doomed.contains(t.id) {
            before
        } else {
            before.push(TicketModel { depends_on: texts_without(t.depends_on, doomed), ..t })
        }
    }
}

/// The claims on tickets that are not among `doomed`, in order.
pub open spec fn claims_without(cs: Seq<ClaimModel>, doomed: Seq<Text>) -> Seq<ClaimModel>
    decreases cs.len(),
{
    if cs.len() == 0 {
        Seq::empty()
    } else {
        let before = claims_without(cs.drop_last(), doomed);
        if doomed.contains(cs.last().ticket) {
            before
        } else {
            before.push(cs.last())
        }
    }
}

/// The epics other than `id`, in order.
pub open spec fn epics_without(es: Seq<EpicModel>, id: Text) -> Seq<EpicModel>
    decreases es.len(),
{
    if es.len() == 0 {
        Seq::empty()
    } else {
        let before = epics_without(es.drop_last(), id);
        if es.last().id == id {
            before
        } else {
            before.push(es.last())
        }
    }
}

/// The ids of the tickets that belong to `epic`, in board order.
pub open spec fn ids_in_epic(ts: Seq<TicketModel>, epic: Text) -> Seq<Text>
    decreases ts.len(),
{
    if ts.len() == 0 {
        Seq::empty()
    } else {
        let before = ids_in_epic(ts.drop_last(), epic);
        if ts.last().epic == Some(epic) {
            before.push(ts.last().id)
        } else {
            before
        }
    }
}

fn is_doomed(doomed: &Vec<TicketId>, id: &TicketId) -> (r: bool)
    ensures
        r == models(doomed@).contains(id@),
{
    let ghost all = models(doomed@);
    let mut i: usize = 0;
    while i < doomed.len()
        invariant
            all == models(doomed@),
            i <= doomed@.len(),
            forall|j: int| 0 <= j < i ==> all[j] != id@,
        decreases doomed@.len() - i,
    {
        if doomed[i].same(id) {
            assert(all[i as int] == id@);
            return true;
        }
        i = i + 1;
    }
    false
}

fn ids_without(ids: &Vec<TicketId>, doomed: &Vec<TicketId>) -> (r: Vec<TicketId>)
    ensures
        models(r@) == texts_without(models(ids@), models(doomed@)),
{
    let ghost all = models(ids@);
    let mut out: Vec<TicketId> = Vec::new();
    let mut i: usize = 0;
    while i < ids.len()
        invariant
            all == models(ids@),
            i <= ids@.len(),
            models(out@) == texts_without(all.take(i as int), models(doomed@)),
        decreases ids@.len() - i,
    {
        proof {
            assert(all.take(i + 1).drop_last() =~= all.take(i as int));
            assert(all.take(i + 1).last() == ids@[i as int]@);
        }
        if !is_doomed(doomed, &ids[i]) {
            out.push(ids[i].clone());
        }
        i = i + 1;
    }
    assert(all.take(all.len() as int) =~= all);
    out
}

/// Remove the tickets `doomed`, their claims, and other tickets' dependencies on them.
fn remove_tickets(board: &mut Board, claims: &mut Vec<Claim>, doomed: &Vec<TicketId>)
    ensures
        final(board)@ == (BoardModel {
            tickets: tickets_without(old(board)@.tickets, models(doomed@)),
            ..old(board)@
        }),
        models(final(claims)@) == claims_without(models(old(claims)@), models(doomed@)),
{
    let ghost gone = models(doomed@);
    let ghost ts = board@.tickets;
    let mut kept: Vec<Ticket> = Vec::new();
    let mut i: usize = 0;
    while i < board.tickets.len()
        invariant
            gone == models(doomed@),
            ts == board@.tickets,
            *board == *old(board),
            i <= board.tickets@.len(),
            models(kept@) == tickets_without(ts.take(i as int), gone),
        decreases board.tickets@.len() - i,
    {
        proof {
            assert(ts.take(i + 1).drop_last() =~= ts.take(i as int));
            assert(ts.take(i + 1).last() == board.tickets@[i as int]@);
        }
        if !is_doomed(doomed, &board.tickets[i].id) {
            let mut t: Ticket = board.tickets[i].clone();
            t.depends_on = ids_without(&t.depends_on, doomed);
            kept.push(t);
        }
        i = i + 1;
    }
    assert(ts.take(ts.len() as int) =~= ts);
    board.tickets = kept;
    let ghost cs = models(claims@);
    let mut live: Vec<Claim> = Vec::new();
    let mut k: usize = 0;
    while k < claims.len()
        invariant
            gone == models(doomed@),
            cs == models(claims@),
            k <= claims@.len(),
            models(live@) == claims_without(cs.take(k as int), gone),
        decreases claims@.len() - k,
    {
        proof {
            assert(cs.take(k + 1).drop_last() =~= cs.take(k as int));
            assert(cs.take(k + 1).last() == claims@[k as int]@);
        }
        if !is_doomed(doomed, &claims[k].ticket) {
            live.push(claims[k].clone());
        }
        k = k + 1;
    }
    assert(cs.take(cs.len() as int) =~= cs);
    *claims = live;
}

fn delete_ticket(board: &mut Board, claims: &mut Vec<Claim>, id: &TicketId) -> (r: Result<OpOutput, OpError>)
    ensures
        match r {
            Ok(out) => old(board)@.has_ticket(id@) && final(board)@ == (BoardModel {
                tickets: tickets_without(old(board)@.tickets, seq![id@]),
                ..old(board)@
            }) && models(final(claims)@) == claims_without(models(old(claims)@), seq![id@]) && out@ == plain_output(
                PayloadModel::Deleted { id: id@ },
            ),
            Err(e) => !old(board)@.has_ticket(id@) && e@ == OpErrorModel::NotFound(id@) && final(board)@ == old(board)@
                && final(claims)@ == old(claims)@,
        },
{
    if board.ticket_index(id).is_none() {
        return Err(OpError::NotFound(id.to_string()));
    }
    let mut doomed: Vec<TicketId> = Vec::new();
    doomed.push(id.clone());
    assert(models(doomed@) =~= seq![id@]);
    remove_tickets(board, claims, &doomed);
    Ok(plain(Payload::Deleted { id: id.clone() }))
}

/// Deleting an epic takes its tickets with it, done ones too.
fn delete_epic(board: &mut Board, claims: &mut Vec<Claim>, id: &EpicId) -> (r: Result<OpOutput, OpError>)
    ensures
        match r {
            Ok(out) => old(board)@.has_epic(id@) && final(board)@ == (BoardModel {
                tickets: tickets_without(old(board)@.tickets, ids_in_epic(old(board)@.tickets, id@)),
                epics: epics_without(old(board)@.epics, id@),
                ..old(board)@
            }) && models(final(claims)@) == claims_without(models(old(claims)@), ids_in_epic(old(board)@.tickets, id@))
                && out@ == plain_output(
                PayloadModel::DeletedEpic { id: id@, tickets: ids_in_epic(old(board)@.tickets, id@) },
            ),
            Err(e) => !old(board)@.has_epic(id@) && e@ == OpErrorModel::NotFound(id@) && final(board)@ == old(board)@
                && final(claims)@ == old(claims)@,
        },
{
    if board.epic_index(id).is_none() {
        return Err(OpError::NotFound(id.to_string()));
    }
    let ghost ts = board@.tickets;
    let mut doomed: Vec<TicketId> = Vec::new();
    let mut i: usize = 0;
    while i < board.tickets.len()
        invariant
            ts == board@.tickets,
            *board == *old(board),
            i <= board.tickets@.len(),
            models(doomed@) == ids_in_epic(ts.take(i as int), id@),
        decreases board.tickets@.len() - i,
    {
        proof {
            assert(ts.take(i + 1).drop_last() =~= ts.take(i as int));
            assert(ts.take(i + 1).last() == board.tickets@[i as int]@);
        }
        if is_epic(&board.tickets[i].epic, id) {
            doomed.push(board.tickets[i].id.clone());
        }
        i = i + 1;
    }
    assert(ts.take(ts.len() as int) =~= ts);
    remove_tickets(board, claims, &doomed);
    let ghost es = board@.epics;
    let mut kept: Vec<Epic> = Vec::new();
    let mut k: usize = 0;
    while k < board.epics.len()
        invariant
            es == board@.epics,
            k <= board.epics@.len(),
            models(kept@) == epics_without(es.take(k as int), id@),
        decreases board.epics@.len() - k,
    {
        proof {
            assert(es.take(k + 1).drop_last() =~= es.take(k as int));
            assert(es.take(k + 1).last() == board.epics@[k as int]@);
        }
        if !board.epics[k].id.same(id) {
            kept.push(board.epics[k].clone());
        }
        k = k + 1;
    }
    assert(es.take(es.len() as int) =~= es);
    board.epics = kept;
    Ok(plain(Payload::DeletedEpic { id: id.clone(), tickets: doomed }))
}

// ---- moving ---------------------------------------------------------------------------------------------------------

/// Where the tickets of `column` stand among `ts`, in order.
pub open spec fn members(ts: Seq<TicketModel>, column: ColumnId) -> Seq<int>
    decreases ts.len(),
{
    if ts.len() == 0 {
        Seq::empty()
    } else {
        let before = members(ts.drop_last(), column);
        if ts.last().column.id() == column {
            before.push(ts.len() - 1)
        } else {
            before
        }
    }
}

/// The place among `ts` that puts a ticket at `at` in `column`: before the ticket now there, or behind the column's last.
pub open spec fn place(ts: Seq<TicketModel>, column: ColumnId, at: Option<usize>) -> int {
    let m = members(ts, column);
    let end = if m.len() == 0 {
        ts.len() as int
    } else {
        m.last() + 1
    };
    match at {
        Some(p) => if p < m.len() {
            m[p as int]
        } else {
            end
        },
        None => end,
    }
}

/// The tickets with `id` put at `at` among those of `column`, everyone else's order as it was.
pub open spec fn repositioned(ts: Seq<TicketModel>, id: Text, column: ColumnId, at: Option<usize>) -> Seq<TicketModel> {
    let i = position(ticket_ids(ts), id);
    let rest = ts.remove(i);
    rest.insert(place(rest, column, at), ts[i])
}

proof fn lemma_members(ts: Seq<TicketModel>, column: ColumnId)
    ensures
        members(ts, column).len() <= ts.len(),
        forall|k: int| 0 <= k < members(ts, column).len() ==> 0 <= (#[trigger] members(ts, column)[k]) < ts.len(),
    decreases ts.len(),
{
    if ts.len() > 0 {
        lemma_members(ts.drop_last(), column);
    }
}

/// Put `id` at `at` among the tickets of `column` (`None` or past the end = bottom), preserving everyone else's order.
fn reposition(board: &mut Board, id: &TicketId, column: ColumnId, at: Option<usize>)
    requires
        old(board)@.has_ticket(id@),
    ensures
        final(board)@ == (BoardModel {
            tickets: repositioned(old(board)@.tickets, id@, column, at),
            ..old(board)@
        }),
{
    let index: usize = match board.ticket_index(id) {
        Some(i) => i,
        None => return ,
    };
    let ghost all = board@.tickets;
    let ticket: Ticket = board.tickets.remove(index);
    let ghost rest = board@.tickets;
    assert(rest == all.remove(index as int));
    let mut places: Vec<usize> = Vec::new();
    let mut i: usize = 0;
    while i < board.tickets.len()
        invariant
            rest == board@.tickets,
            i <= board.tickets@.len(),
            places@.len() == members(rest.take(i as int), column).len(),
            forall|k: int| 0 <= k < places@.len() ==> #[trigger] places@[k] == members(rest.take(i as int), column)[k],
        decreases board.tickets@.len() - i,
    {
        proof {
            assert(rest.take(i + 1).drop_last() =~= rest.take(i as int));
            assert(rest.take(i + 1).last() == board.tickets@[i as int]@);
        }
        if board.tickets[i].column.id() == column {
            places.push(i);
        }
        i = i + 1;
    }
    proof {
        assert(rest.take(rest.len() as int) =~= rest);
        lemma_members(rest, column);
    }
    let end: usize = if places.len() == 0 {
        board.tickets.len()
    } else {
        assert(places@[places@.len() - 1] == members(rest, column).last());
        places[places.len() - 1] + 1
    };
    let to: usize = match at {
        Some(p) => {
            if p < places.len() {
                places[p]
            } else {
                end
            }
        },
        None => end,
    };
    board.tickets.insert(to, ticket);
}

/// The column a move leads to. `todo` carries nothing; `doing` needs an owner, the one supplied or the one it has;
/// `review` and `done` carry the branch; entering `done` stamps the time and keeps the work.
pub open spec fn next_state(
    current: ColumnModel,
    to: ColumnId,
    owner: Option<Text>,
    branch_override: Option<Text>,
    id: Text,
    now: Timestamp,
) -> Result<ColumnModel, OpErrorModel> {
    let branch = match branch_override {
        Some(b) => Some(b),
        None => current.branch(),
    };
    match to {
        ColumnId::Todo => Ok(ColumnModel::Todo),
        ColumnId::Doing => match owner {
            Some(o) => Ok(ColumnModel::Doing { owner: o, branch }),
            None => match current {
                ColumnModel::Doing { owner: o, .. } => Ok(ColumnModel::Doing { owner: o, branch }),
                _ => Err(
                    OpErrorModel::Invalid(
                        "moving "@ + id + " into doing needs an owner — claim it (kanban_claim), or supply one"@,
                    ),
                ),
            },
        },
        ColumnId::Review => Ok(ColumnModel::Review { branch }),
        ColumnId::Done => match current {
            ColumnModel::Done { completed_at, discarded, .. } => Ok(ColumnModel::Done { branch, completed_at, discarded }),
            _ => Ok(ColumnModel::Done { branch, completed_at: now, discarded: false }),
        },
    }
}

fn next_column_state(
    current: &Column,
    to: ColumnId,
    owner: Option<String>,
    branch_override: Option<String>,
    id: &TicketId,
    now: Timestamp,
) -> (r: Result<Column, OpError>)
    ensures
        match r {
            Ok(c) => next_state(current@, to, opt_model(owner), opt_model(branch_override), id@, now) == Ok::<
                ColumnModel,
                OpErrorModel,
            >(c@),
            Err(e) => next_state(current@, to, opt_model(owner), opt_model(branch_override), id@, now) == Err::<
                ColumnModel,
                OpErrorModel,
            >(e@),
        },
{
    let branch: Option<String> = match branch_override {
        Some(b) => Some(b),
        None => current.branch_owned(),
    };
    match to {
        ColumnId::Todo => Ok(Column::Todo),
        ColumnId::Doing => {
            let owner: String = match owner {
                Some(o) => o,
                None => match current {
                    Column::Doing { owner: o, .. } => o.clone(),
                    _ => return Err(
                        OpError::Invalid(
                            concat3(
                                "moving ",
                                &id.0,
                                " into doing needs an owner — claim it (kanban_claim), or supply one",
                            ),
                        ),
                    ),
                },
            };
            Ok(Column::Doing { owner, branch })
        },
        ColumnId::Review => Ok(Column::Review { branch }),
        ColumnId::Done => match current {
            Column::Done { completed_at, discarded, .. } => Ok(
                Column::Done { branch, completed_at: *completed_at, discarded: *discarded },
            ),
            _ => Ok(Column::Done { branch, completed_at: now, discarded: false }),
        },
    }
}

/// The ticket `id` with column `c`, put at `at` in it.
pub open spec fn moved(b: BoardModel, id: Text, c: ColumnModel, at: Option<usize>) -> BoardModel {
    let t = b.tickets[b.ticket_at(id)];
    let placed = with_ticket(b, id, TicketModel { column: c, ..t });
    BoardModel { tickets: repositioned(placed.tickets, id, c.id(), at), ..b }
}

/// Replacing a ticket by one of the same id moves no ticket.
proof fn lemma_with_ticket(b: BoardModel, id: Text, t: TicketModel)
    requires
        b.has_ticket(id),
        t.id == id,
    ensures
        with_ticket(b, id, t).ticket_at(id) == b.ticket_at(id),
        with_ticket(b, id, t).has_ticket(id),
        with_ticket(b, id, t).ticket(id) == Some(t),
        b.tickets[b.ticket_at(id)].id == id,
        0 <= b.ticket_at(id) < b.tickets.len(),
        ticket_ids(with_ticket(b, id, t).tickets) == ticket_ids(b.tickets),
{
    lemma_position_least(ticket_ids(b.tickets), id);
    assert(ticket_ids(b.tickets)[b.ticket_at(id)] == b.tickets[b.ticket_at(id)].id);
    assert(ticket_ids(with_ticket(b, id, t).tickets) =~= ticket_ids(b.tickets));
}

/// Give the ticket at `i`, which is `id`, the column `c`, and put it at `at` there.
fn move_to(board: &mut Board, i: usize, id: &TicketId, c: Column, at: Option<usize>)
    requires
        i < old(board)@.tickets.len(),
        i == old(board)@.ticket_at(id@),
    ensures
        final(board)@ == moved(old(board)@, id@, c@, at),
{
    let column: ColumnId = c.id();
    proof {
        lemma_position_least(ticket_ids(board@.tickets), id@);
        assert(ticket_ids(board@.tickets)[i as int] == board@.tickets[i as int].id);
        lemma_with_ticket(board@, id@, TicketModel { column: c@, ..board@.tickets[i as int] });
    }
    board.tickets[i].column = c;
    assert(board@ == with_ticket(old(board)@, id@, TicketModel { column: c@, ..old(board)@.tickets[i as int] }));
    reposition(board, id, column, at);
}

/// The board before a move out of `doing` is carried out: handing work in answers what was asked of it, so `review` and
/// `done` take the request for changes off the ticket.
pub open spec fn answered(b: BoardModel, id: Text, to: ColumnId) -> BoardModel {
    if to == ColumnId::Review || to == ColumnId::Done {
        with_ticket(b, id, TicketModel { changes_requested: false, ..b.tickets[b.ticket_at(id)] })
    } else {
        b
    }
}

/// What moving a ticket does.
pub open spec fn move_spec(
    s: StateModel,
    id: Text,
    to: ColumnId,
    at: Option<usize>,
    owner: Option<Text>,
    branch: Option<Text>,
    now: Timestamp,
) -> Result<StateModel, OpErrorModel> {
    match s.board.ticket(id) {
        None => Err(OpErrorModel::NotFound(id)),
        Some(t) => match next_state(t.column, to, owner, branch, id, now) {
            Err(e) => Err(e),
            Ok(c) => Ok(
                StateModel {
                    board: moved(answered(s.board, id, to), id, c, at),
                    claims: if to == ColumnId::Review || to == ColumnId::Done {
                        removed(s.claims, id)
                    } else {
                        s.claims
                    },
                },
            ),
        },
    }
}

/// A board and its claims, as contracts speak of them.
pub open spec fn state(board: Board, claims: Vec<Claim>) -> StateModel {
    StateModel { board: board@, claims: models(claims@) }
}

fn move_ticket(
    board: &mut Board,
    claims: &mut Vec<Claim>,
    id: &TicketId,
    to: ColumnId,
    at: Option<usize>,
    owner: Option<String>,
    branch: Option<String>,
    now: Timestamp,
) -> (r: Result<OpOutput, OpError>)
    ensures
        match r {
            Ok(out) => move_spec(state(*old(board), *old(claims)), id@, to, at, opt_model(owner), opt_model(branch), now)
                == Ok::<StateModel, OpErrorModel>(state(*final(board), *final(claims))) && out@ == plain_output(
                PayloadModel::Moved { id: id@, column: to },
            ),
            Err(e) => move_spec(state(*old(board), *old(claims)), id@, to, at, opt_model(owner), opt_model(branch), now)
                == Err::<StateModel, OpErrorModel>(e@) && *final(board) == *old(board) && *final(claims) == *old(claims),
        },
{
    let i: usize = match board.ticket_index(id) {
        Some(i) => i,
        None => return Err(OpError::NotFound(id.to_string())),
    };
    let next: Column = match next_column_state(&board.tickets[i].column, to, owner, branch, id, now) {
        Ok(c) => c,
        Err(e) => return Err(e),
    };
    if to == ColumnId::Review || to == ColumnId::Done {
        proof {
            lemma_position_least(ticket_ids(board@.tickets), id@);
            assert(ticket_ids(board@.tickets)[i as int] == board@.tickets[i as int].id);
            lemma_with_ticket(board@, id@, TicketModel { changes_requested: false, ..board@.tickets[i as int] });
        }
        board.tickets[i].changes_requested = false;
        assert(board@ == answered(old(board)@, id@, to));
        let _ = remove(claims, id);
    }
    move_to(board, i, id, next, at);
    Ok(plain(Payload::Moved { id: id.clone(), column: to }))
}

/// The ticket with a note added to its log.
pub open spec fn noted(t: TicketModel, author: Option<Text>, text: Text, now: Timestamp) -> TicketModel {
    TicketModel { notes: t.notes.push(NoteModel { at: now, author, text }), ..t }
}

/// The ticket `id` closed with the given column, the reason on its log, its claim dropped.
pub open spec fn closed(s: StateModel, id: Text, c: ColumnModel, reason: Text, now: Timestamp) -> StateModel {
    let t = s.board.tickets[s.board.ticket_at(id)];
    let board = with_ticket(s.board, id, noted(t, Some("kanban"@), reason, now));
    StateModel { board: moved(board, id, c, None), claims: removed(s.claims, id) }
}

fn close(board: &mut Board, claims: &mut Vec<Claim>, i: usize, id: &TicketId, c: Column, reason: &str, now: Timestamp)
    requires
        i < old(board)@.tickets.len(),
        i == old(board)@.ticket_at(id@),
    ensures
        state(*final(board), *final(claims)) == closed(state(*old(board), *old(claims)), id@, c@, reason@, now),
{
    proof {
        lemma_position_least(ticket_ids(board@.tickets), id@);
        assert(ticket_ids(board@.tickets)[i as int] == board@.tickets[i as int].id);
        lemma_with_ticket(board@, id@, noted(board@.tickets[i as int], Some("kanban"@), reason@, now));
    }
    board.tickets[i].notes.push(Note { at: now, author: Some("kanban".to_owned()), text: reason.to_owned() });
    assert(board@ == with_ticket(
        old(board)@,
        id@,
        noted(old(board)@.tickets[i as int], Some("kanban"@), reason@, now),
    ));
    let _ = remove(claims, id);
    move_to(board, i, id, c, None);
}

/// What landing a review ticket does: it must still be in review, on the branch the evidence is about.
pub open spec fn land_spec(s: StateModel, id: Text, expected: Option<Text>, reason: Text, now: Timestamp) -> Result<
    StateModel,
    OpErrorModel,
> {
    match s.board.ticket(id) {
        None => Err(OpErrorModel::NotFound(id)),
        Some(t) => match t.column {
            ColumnModel::Review { branch } => if branch != expected {
                Err(OpErrorModel::Invalid(id + "'s branch changed since the evidence was gathered — not landing it"@))
            } else {
                Ok(closed(s, id, ColumnModel::Done { branch, completed_at: now, discarded: false }, reason, now))
            },
            _ => Err(OpErrorModel::Invalid(id + " is no longer in review — not landing it"@)),
        },
    }
}

fn land_ticket(
    board: &mut Board,
    claims: &mut Vec<Claim>,
    id: &TicketId,
    expected: &Option<String>,
    reason: &str,
    now: Timestamp,
) -> (r: Result<OpOutput, OpError>)
    ensures
        match r {
            Ok(out) => land_spec(state(*old(board), *old(claims)), id@, opt_model(*expected), reason@, now) == Ok::<
                StateModel,
                OpErrorModel,
            >(state(*final(board), *final(claims))) && out@ == plain_output(PayloadModel::Landed { id: id@ }),
            Err(e) => land_spec(state(*old(board), *old(claims)), id@, opt_model(*expected), reason@, now) == Err::<
                StateModel,
                OpErrorModel,
            >(e@) && *final(board) == *old(board) && *final(claims) == *old(claims),
        },
{
    let i: usize = match board.ticket_index(id) {
        Some(i) => i,
        None => return Err(OpError::NotFound(id.to_string())),
    };
    let branch: Option<String> = match &board.tickets[i].column {
        Column::Review { branch } => clone_opt(branch),
        _ => return Err(OpError::Invalid(concat2(&id.0, " is no longer in review — not landing it"))),
    };
    if !same_opt(&branch, expected) {
        return Err(
            OpError::Invalid(concat2(&id.0, "'s branch changed since the evidence was gathered — not landing it")),
        );
    }
    close(board, claims, i, id, Column::Done { branch, completed_at: now, discarded: false }, reason, now);
    Ok(plain(Payload::Landed { id: id.clone() }))
}

/// What discarding a review ticket does.
pub open spec fn discard_spec(s: StateModel, id: Text, reason: Text, now: Timestamp) -> Result<StateModel, OpErrorModel> {
    match s.board.ticket(id) {
        None => Err(OpErrorModel::NotFound(id)),
        Some(t) => match t.column {
            ColumnModel::Review { branch } => Ok(
                closed(s, id, ColumnModel::Done { branch, completed_at: now, discarded: true }, reason, now),
            ),
            _ => Err(
                OpErrorModel::Invalid(id + " is not in review — only code-complete, unlanded work can be discarded"@),
            ),
        },
    }
}

fn discard_ticket(board: &mut Board, claims: &mut Vec<Claim>, id: &TicketId, reason: &str, now: Timestamp) -> (r: Result<
    OpOutput,
    OpError,
>)
    ensures
        match r {
            Ok(out) => discard_spec(state(*old(board), *old(claims)), id@, reason@, now) == Ok::<StateModel, OpErrorModel>(
                state(*final(board), *final(claims)),
            ) && out@ == plain_output(PayloadModel::Discarded { id: id@ }),
            Err(e) => discard_spec(state(*old(board), *old(claims)), id@, reason@, now) == Err::<StateModel, OpErrorModel>(
                e@,
            ) && *final(board) == *old(board) && *final(claims) == *old(claims),
        },
{
    let i: usize = match board.ticket_index(id) {
        Some(i) => i,
        None => return Err(OpError::NotFound(id.to_string())),
    };
    let branch: Option<String> = match &board.tickets[i].column {
        Column::Review { branch } => clone_opt(branch),
        _ => return Err(
            OpError::Invalid(
                concat2(&id.0, " is not in review — only code-complete, unlanded work can be discarded"),
            ),
        ),
    };
    close(board, claims, i, id, Column::Done { branch, completed_at: now, discarded: true }, reason, now);
    Ok(plain(Payload::Discarded { id: id.clone() }))
}

/// The ticket with changes asked for, in so many words.
pub open spec fn asked(t: TicketModel, comment: Text, author: Text, now: Timestamp) -> TicketModel {
    noted(TicketModel { changes_requested: true, ..t }, Some(author), "changes requested: "@ + trim_spec(comment), now)
}

/// What sending a review ticket back does: it must be here to judge, in review, and there must be something to say.
pub open spec fn request_spec(s: StateModel, id: Text, comment: Text, author: Text, now: Timestamp) -> Result<
    StateModel,
    OpErrorModel,
> {
    match s.board.ticket(id) {
        None => Err(OpErrorModel::NotFound(id)),
        Some(t) => if t.external is Some {
            Err(OpErrorModel::Invalid(id + " is external — its verdict belongs on the delegate's issue"@))
        } else {
            match t.column {
                ColumnModel::Review { branch } => if trim_spec(comment).len() == 0 {
                    Err(OpErrorModel::Invalid("sending "@ + id + " back needs a comment that says what to change"@))
                } else {
                    Ok(
                        StateModel {
                            board: moved(
                                with_ticket(s.board, id, asked(t, comment, author, now)),
                                id,
                                ColumnModel::Doing { owner: author, branch },
                                None,
                            ),
                            claims: removed(s.claims, id),
                        },
                    )
                },
                _ => Err(OpErrorModel::Invalid(id + " is not in review — only code-complete work can be sent back"@)),
            }
        },
    }
}

fn request_changes(
    board: &mut Board,
    claims: &mut Vec<Claim>,
    id: &TicketId,
    comment: &str,
    author: &str,
    now: Timestamp,
) -> (r: Result<OpOutput, OpError>)
    ensures
        match r {
            Ok(out) => request_spec(state(*old(board), *old(claims)), id@, comment@, author@, now) == Ok::<
                StateModel,
                OpErrorModel,
            >(state(*final(board), *final(claims))) && out@ == plain_output(
                PayloadModel::Moved { id: id@, column: ColumnId::Doing },
            ),
            Err(e) => request_spec(state(*old(board), *old(claims)), id@, comment@, author@, now) == Err::<
                StateModel,
                OpErrorModel,
            >(e@) && *final(board) == *old(board) && *final(claims) == *old(claims),
        },
{
    let i: usize = match board.ticket_index(id) {
        Some(i) => i,
        None => return Err(OpError::NotFound(id.to_string())),
    };
    if board.tickets[i].external.is_some() {
        return Err(OpError::Invalid(concat2(&id.0, " is external — its verdict belongs on the delegate's issue")));
    }
    let branch: Option<String> = match &board.tickets[i].column {
        Column::Review { branch } => clone_opt(branch),
        _ => return Err(
            OpError::Invalid(concat2(&id.0, " is not in review — only code-complete work can be sent back")),
        ),
    };
    let said: String = trim(comment);
    if said.as_str().is_empty() {
        return Err(OpError::Invalid(concat3("sending ", &id.0, " back needs a comment that says what to change")));
    }
    proof {
        lemma_position_least(ticket_ids(board@.tickets), id@);
        assert(ticket_ids(board@.tickets)[i as int] == board@.tickets[i as int].id);
        lemma_with_ticket(board@, id@, asked(board@.tickets[i as int], comment@, author@, now));
    }
    let note: Note = Note { at: now, author: Some(author.to_owned()), text: concat2("changes requested: ", &said) };
    board.tickets[i].changes_requested = true;
    let ghost marked = TicketModel { changes_requested: true, ..old(board)@.tickets[i as int] };
    let ghost before = board@;
    assert(before == with_ticket(old(board)@, id@, marked));
    board.tickets[i].notes.push(note);
    assert(board@.tickets =~= before.tickets.update(i as int, board@.tickets[i as int]));
    assert(board@.tickets[i as int].notes == marked.notes.push(note@));
    assert(board@.tickets[i as int] == asked(old(board)@.tickets[i as int], comment@, author@, now));
    assert(board@.tickets =~= with_ticket(
        old(board)@,
        id@,
        asked(old(board)@.tickets[i as int], comment@, author@, now),
    ).tickets);
    let _ = remove(claims, id);
    move_to(board, i, id, Column::Doing { owner: author.to_owned(), branch }, None);
    Ok(plain(Payload::Moved { id: id.clone(), column: ColumnId::Doing }))
}

// ---- recording ------------------------------------------------------------------------------------------------------

fn set_pr(board: &mut Board, id: &TicketId, pr: Option<PrRef>) -> (r: Result<OpOutput, OpError>)
    ensures
        match r {
            Ok(out) => old(board)@.has_ticket(id@) && final(board)@ == with_ticket(
                old(board)@,
                id@,
                TicketModel { pr: opt_model(pr), ..old(board)@.ticket(id@)->0 },
            ) && out@ == plain_output(PayloadModel::Pr { id: id@, pr: opt_model(pr) }),
            Err(e) => !old(board)@.has_ticket(id@) && e@ == OpErrorModel::NotFound(id@) && *final(board) == *old(board),
        },
{
    let i: usize = match board.ticket_index(id) {
        Some(i) => i,
        None => return Err(OpError::NotFound(id.to_string())),
    };
    let told: Option<PrRef> = clone_pr(&pr);
    board.tickets[i].pr = pr;
    Ok(plain(Payload::Pr { id: id.clone(), pr: told }))
}

fn set_ticket_status(board: &mut Board, id: &TicketId, status: Status) -> (r: Result<OpOutput, OpError>)
    ensures
        match r {
            Ok(out) => old(board)@.has_ticket(id@) && final(board)@ == with_ticket(
                old(board)@,
                id@,
                TicketModel { status, ..old(board)@.ticket(id@)->0 },
            ) && out@ == plain_output(PayloadModel::StatusSet { id: id@, status }),
            Err(e) => !old(board)@.has_ticket(id@) && e@ == OpErrorModel::NotFound(id@) && *final(board) == *old(board),
        },
{
    let i: usize = match board.ticket_index(id) {
        Some(i) => i,
        None => return Err(OpError::NotFound(id.to_string())),
    };
    board.tickets[i].status = status;
    Ok(plain(Payload::StatusSet { id: id.to_string(), status }))
}

fn set_epic_status(board: &mut Board, id: &EpicId, status: Status) -> (r: Result<OpOutput, OpError>)
    ensures
        match r {
            Ok(out) => old(board)@.has_epic(id@) && final(board)@ == with_epic(
                old(board)@,
                id@,
                EpicModel { status, ..old(board)@.epic(id@)->0 },
            ) && out@ == plain_output(PayloadModel::StatusSet { id: id@, status }),
            Err(e) => !old(board)@.has_epic(id@) && e@ == OpErrorModel::NotFound(id@) && *final(board) == *old(board),
        },
{
    let i: usize = match board.epic_index(id) {
        Some(i) => i,
        None => return Err(OpError::NotFound(id.to_string())),
    };
    board.epics[i].status = status;
    Ok(plain(Payload::StatusSet { id: id.to_string(), status }))
}

fn add_note(board: &mut Board, id: &TicketId, text: String, author: Option<String>, now: Timestamp) -> (r: Result<
    OpOutput,
    OpError,
>)
    ensures
        match r {
            Ok(out) => old(board)@.has_ticket(id@) && final(board)@ == with_ticket(
                old(board)@,
                id@,
                noted(old(board)@.ticket(id@)->0, opt_model(author), text@, now),
            ) && out@ == plain_output(
                PayloadModel::Noted { id: id@, notes: old(board)@.ticket(id@)->0.notes.len() + 1 },
            ),
            Err(e) => !old(board)@.has_ticket(id@) && e@ == OpErrorModel::NotFound(id@) && *final(board) == *old(board),
        },
{
    let i: usize = match board.ticket_index(id) {
        Some(i) => i,
        None => return Err(OpError::NotFound(id.to_string())),
    };
    board.tickets[i].notes.push(Note { at: now, author, text });
    let notes: usize = board.tickets[i].notes.len();
    Ok(plain(Payload::Noted { id: id.clone(), notes }))
}

fn bind_external(board: &mut Board, id: &TicketId, external: Option<External>) -> (r: Result<OpOutput, OpError>)
    ensures
        match r {
            Ok(out) => old(board)@.has_ticket(id@) && final(board)@ == with_ticket(
                old(board)@,
                id@,
                TicketModel { external: opt_model(external), ..old(board)@.ticket(id@)->0 },
            ) && out@ == plain_output(PayloadModel::Bound { id: id@, external: opt_model(external) }),
            Err(e) => !old(board)@.has_ticket(id@) && e@ == OpErrorModel::NotFound(id@) && *final(board) == *old(board),
        },
{
    let i: usize = match board.ticket_index(id) {
        Some(i) => i,
        None => return Err(OpError::NotFound(id.to_string())),
    };
    let told: Option<External> = clone_external(&external);
    board.tickets[i].external = external;
    Ok(plain(Payload::Bound { id: id.clone(), external: told }))
}

// ---- claiming -------------------------------------------------------------------------------------------------------

/// A fresh claim: ownership, with no worktree yet.
pub open spec fn new_claim(id: Text, agent: Text, now: Timestamp) -> ClaimModel {
    ClaimModel { ticket: id, agent, since: now, path: None, kind: ClaimKind::Work }
}

/// What claiming a ticket does, and what it refuses: a claim that is live already, a ticket that is done or somebody
/// else's (unless it was sent back, which leaves it to whoever comes), one that is neither `ready` nor `stub`, and a blocked one, in this order.
pub open spec fn claim_spec(s: StateModel, id: Text, agent: Text, now: Timestamp) -> Result<StateModel, OpErrorModel> {
    match found(s.claims, id) {
        Some(c) => Err(OpErrorModel::AlreadyClaimed { id, agent: c.agent }),
        None => match s.board.ticket(id) {
            None => Err(OpErrorModel::NotFound(id)),
            Some(t) => if t.column is Done {
                Err(OpErrorModel::Invalid(id + " is already done — move it back to todo first"@))
            } else if t.column is Doing && t.column->Doing_owner != agent && !t.changes_requested {
                Err(OpErrorModel::AlreadyClaimed { id, agent: t.column->Doing_owner })
            } else if t.status != Status::Ready && t.status != Status::Stub {
                Err(
                    OpErrorModel::Invalid(
                        id + " is "@ + t.status.name()
                            + " — only ready tickets (to implement) or stubs (to refine) can be claimed"@,
                    ),
                )
            } else if is_blocked(t, s.board) {
                Err(
                    OpErrorModel::Invalid(
                        id + " is blocked — its dependencies ("@ + join_spec(t.depends_on, ", "@) + ") are not all done"@,
                    ),
                )
            } else {
                Ok(
                    StateModel {
                        board: with_ticket(
                            s.board,
                            id,
                            TicketModel {
                                column: ColumnModel::Doing { owner: agent, branch: t.column.branch() },
                                ..t
                            },
                        ),
                        claims: upserted(s.claims, new_claim(id, agent, now)),
                    },
                )
            },
        },
    }
}

/// The ids of some tickets as texts.
fn id_texts(ids: &Vec<TicketId>) -> (r: Vec<String>)
    ensures
        models(r@) == models(ids@),
{
    let mut out: Vec<String> = Vec::new();
    let mut i: usize = 0;
    while i < ids.len()
        invariant
            i <= ids@.len(),
            out@.len() == i,
            forall|j: int| 0 <= j < i ==> (#[trigger] out@[j])@ == ids@[j]@,
        decreases ids@.len() - i,
    {
        out.push(ids[i].to_string());
        i = i + 1;
    }
    assert(models(out@) =~= models(ids@));
    out
}

fn claim(board: &mut Board, claims: &mut Vec<Claim>, id: &TicketId, agent: &str, now: Timestamp) -> (r: Result<
    OpOutput,
    OpError,
>)
    ensures
        match r {
            Ok(out) => claim_spec(state(*old(board), *old(claims)), id@, agent@, now) == Ok::<StateModel, OpErrorModel>(
                state(*final(board), *final(claims)),
            ) && out@ == plain_output(
                PayloadModel::Claimed {
                    id: id@,
                    owner: agent@,
                    refining: old(board)@.ticket(id@)->0.status == Status::Stub,
                },
            ),
            Err(e) => claim_spec(state(*old(board), *old(claims)), id@, agent@, now) == Err::<StateModel, OpErrorModel>(
                e@,
            ) && *final(board) == *old(board) && *final(claims) == *old(claims),
        },
{
    match find(claims.as_slice(), id) {
        Some(existing) => return Err(OpError::AlreadyClaimed { id: id.clone(), agent: existing.agent.clone() }),
        None => {},
    }
    let i: usize = match board.ticket_index(id) {
        Some(i) => i,
        None => return Err(OpError::NotFound(id.to_string())),
    };
    let ticket: &Ticket = &board.tickets[i];
    match &ticket.column {
        Column::Done { .. } => return Err(
            OpError::Invalid(concat2(&id.0, " is already done — move it back to todo first")),
        ),
        Column::Doing { owner, .. } => {
            if !same(owner, agent) && !ticket.changes_requested {
                return Err(OpError::AlreadyClaimed { id: id.clone(), agent: owner.clone() });
            }
        },
        Column::Todo => {},
        Column::Review { .. } => {},
    }
    if ticket.status != Status::Ready && ticket.status != Status::Stub {
        return Err(
            OpError::Invalid(
                concat4(
                    &id.0,
                    " is ",
                    ticket.status.as_str(),
                    " — only ready tickets (to implement) or stubs (to refine) can be claimed",
                ),
            ),
        );
    }
    if blocked(ticket, board) {
        return Err(
            OpError::Invalid(
                concat4(
                    &id.0,
                    " is blocked — its dependencies (",
                    &join(&id_texts(&ticket.depends_on), ", "),
                    ") are not all done",
                ),
            ),
        );
    }
    let refining: bool = ticket.status == Status::Stub;
    let branch: Option<String> = ticket.column.branch_owned();
    board.tickets[i].column = Column::Doing { owner: agent.to_owned(), branch };
    upsert(
        claims,
        Claim { ticket: id.clone(), agent: agent.to_owned(), since: now, path: None, kind: ClaimKind::Work },
    );
    Ok(plain(Payload::Claimed { id: id.clone(), owner: agent.to_owned(), refining }))
}

/// What releasing a ticket does: the claim goes, and the card returns to the top of `todo`. A ticket that is neither
/// claimed nor in `doing` is refused.
pub open spec fn release_spec(s: StateModel, id: Text) -> Result<StateModel, OpErrorModel> {
    match s.board.ticket(id) {
        None => Err(OpErrorModel::NotFound(id)),
        Some(t) => if found(s.claims, id) is None && !(t.column is Doing) {
            Err(OpErrorModel::Invalid(id + " is not claimed"@))
        } else {
            Ok(
                StateModel {
                    board: moved(s.board, id, ColumnModel::Todo, Some(0)),
                    claims: removed(s.claims, id),
                },
            )
        },
    }
}

fn release(board: &mut Board, claims: &mut Vec<Claim>, id: &TicketId) -> (r: Result<OpOutput, OpError>)
    ensures
        match r {
            Ok(out) => release_spec(state(*old(board), *old(claims)), id@) == Ok::<StateModel, OpErrorModel>(
                state(*final(board), *final(claims)),
            ) && out@ == plain_output(PayloadModel::Moved { id: id@, column: ColumnId::Todo }),
            Err(e) => release_spec(state(*old(board), *old(claims)), id@) == Err::<StateModel, OpErrorModel>(e@)
                && *final(board) == *old(board) && *final(claims) == *old(claims),
        },
{
    let i: usize = match board.ticket_index(id) {
        Some(i) => i,
        None => return Err(OpError::NotFound(id.to_string())),
    };
    if find(claims.as_slice(), id).is_none() && board.tickets[i].column.id() != ColumnId::Doing {
        return Err(OpError::Invalid(concat2(&id.0, " is not claimed")));
    }
    let _ = remove(claims, id);
    move_to(board, i, id, Column::Todo, Some(0));
    Ok(plain(Payload::Moved { id: id.clone(), column: ColumnId::Todo }))
}

/// What handing a ticket to a delegate does. It must still be in `doing` with no branch, `ready`, and unbound.
pub open spec fn delegate_spec(
    s: StateModel,
    id: Text,
    external: ExternalModel,
    agent: Text,
    note: Text,
    now: Timestamp,
) -> Result<StateModel, OpErrorModel> {
    match s.board.ticket(id) {
        None => Err(OpErrorModel::NotFound(id)),
        Some(t) => if t.column is Doing && t.column.branch() is None && t.status == Status::Ready && t.external is None {
            Ok(
                StateModel {
                    board: with_ticket(
                        s.board,
                        id,
                        TicketModel {
                            external: Some(external),
                            column: ColumnModel::Doing { owner: agent, branch: None },
                            ..noted(t, Some("kanban"@), note, now)
                        },
                    ),
                    claims: upserted(s.claims, new_claim(id, agent, now)),
                },
            )
        } else {
            Err(OpErrorModel::Invalid(id + " moved on before it could be delegated — not binding it"@))
        },
    }
}

fn delegate(
    board: &mut Board,
    claims: &mut Vec<Claim>,
    id: &TicketId,
    external: External,
    agent: &str,
    note: String,
    now: Timestamp,
) -> (r: Result<OpOutput, OpError>)
    ensures
        match r {
            Ok(out) => delegate_spec(state(*old(board), *old(claims)), id@, external@, agent@, note@, now) == Ok::<
                StateModel,
                OpErrorModel,
            >(state(*final(board), *final(claims))) && out@ == plain_output(
                PayloadModel::Bound { id: id@, external: Some(external@) },
            ),
            Err(e) => delegate_spec(state(*old(board), *old(claims)), id@, external@, agent@, note@, now) == Err::<
                StateModel,
                OpErrorModel,
            >(e@) && *final(board) == *old(board) && *final(claims) == *old(claims),
        },
{
    let i: usize = match board.ticket_index(id) {
        Some(i) => i,
        None => return Err(OpError::NotFound(id.to_string())),
    };
    let t: &Ticket = &board.tickets[i];
    if t.column.id() != ColumnId::Doing || t.column.branch().is_some() || t.status != Status::Ready
        || t.external.is_some() {
        return Err(OpError::Invalid(concat2(&id.0, " moved on before it could be delegated — not binding it")));
    }
    let told: External = external.clone();
    board.tickets[i].external = Some(external);
    board.tickets[i].column = Column::Doing { owner: agent.to_owned(), branch: None };
    board.tickets[i].notes.push(Note { at: now, author: Some("kanban".to_owned()), text: note });
    proof {
        let t0 = old(board)@.tickets[i as int];
        assert(board@.tickets =~= old(board)@.tickets.update(
            i as int,
            TicketModel {
                external: Some(external@),
                column: ColumnModel::Doing { owner: agent@, branch: None },
                ..noted(t0, Some("kanban"@), note@, now)
            },
        ));
    }
    upsert(
        claims,
        Claim { ticket: id.clone(), agent: agent.to_owned(), since: now, path: None, kind: ClaimKind::Work },
    );
    Ok(plain(Payload::Bound { id: id.clone(), external: Some(told) }))
}

// ---- worktrees ------------------------------------------------------------------------------------------------------

/// What stamping a started worktree does. External tickets and tickets that are not in `doing` are refused.
pub open spec fn stamp_spec(s: StateModel, id: Text, branch: Text, path: Text, now: Timestamp) -> Result<
    StateModel,
    OpErrorModel,
> {
    match s.board.ticket(id) {
        None => Err(OpErrorModel::NotFound(id)),
        Some(t) => if t.external is Some {
            Err(OpErrorModel::External(id))
        } else {
            match t.column {
                ColumnModel::Doing { owner, .. } => Ok(
                    StateModel {
                        board: with_ticket(
                            s.board,
                            id,
                            TicketModel { column: ColumnModel::Doing { owner, branch: Some(branch) }, ..t },
                        ),
                        claims: upserted(
                            s.claims,
                            ClaimModel {
                                ticket: id,
                                agent: owner,
                                since: match found(s.claims, id) {
                                    Some(c) => c.since,
                                    None => now,
                                },
                                path: Some(path),
                                kind: ClaimKind::Work,
                            },
                        ),
                    },
                ),
                _ => Err(OpErrorModel::Invalid(id + " is not in doing — claim it first (kanban_claim)"@)),
            }
        },
    }
}

fn stamp_worktree(board: &mut Board, claims: &mut Vec<Claim>, id: &TicketId, branch: &str, path: &str, now: Timestamp) -> (r:
    Result<OpOutput, OpError>)
    ensures
        match r {
            Ok(out) => stamp_spec(state(*old(board), *old(claims)), id@, branch@, path@, now) == Ok::<
                StateModel,
                OpErrorModel,
            >(state(*final(board), *final(claims))) && out@ == plain_output(
                PayloadModel::Stamped { id: id@, branch: branch@, path: path@ },
            ),
            Err(e) => stamp_spec(state(*old(board), *old(claims)), id@, branch@, path@, now) == Err::<
                StateModel,
                OpErrorModel,
            >(e@) && *final(board) == *old(board) && *final(claims) == *old(claims),
        },
{
    let i: usize = match board.ticket_index(id) {
        Some(i) => i,
        None => return Err(OpError::NotFound(id.to_string())),
    };
    if board.tickets[i].external.is_some() {
        return Err(OpError::External(id.clone()));
    }
    let owner: String = match &board.tickets[i].column {
        Column::Doing { owner, .. } => owner.clone(),
        _ => return Err(OpError::Invalid(concat2(&id.0, " is not in doing — claim it first (kanban_claim)"))),
    };
    board.tickets[i].column = Column::Doing { owner: owner.clone(), branch: Some(branch.to_owned()) };
    let since: Timestamp = match find(claims.as_slice(), id) {
        Some(c) => c.since,
        None => now,
    };
    upsert(
        claims,
        Claim { ticket: id.clone(), agent: owner, since, path: Some(path.to_owned()), kind: ClaimKind::Work },
    );
    Ok(plain(Payload::Stamped { id: id.clone(), branch: branch.to_owned(), path: path.to_owned() }))
}

/// The claims with the worktree path dropped from those on `id`.
pub open spec fn cleared(cs: Seq<ClaimModel>, id: Text) -> Seq<ClaimModel> {
    Seq::new(
        cs.len(),
        |i: int|
            if cs[i].ticket == id {
                ClaimModel { path: None, ..cs[i] }
            } else {
                cs[i]
            },
    )
}

fn clear_worktree_path(claims: &mut Vec<Claim>, id: &TicketId) -> (r: OpOutput)
    ensures
        models(final(claims)@) == cleared(models(old(claims)@), id@),
        r@ == plain_output(PayloadModel::Touched { id: id@ }),
{
    let ghost cs = models(claims@);
    let mut i: usize = 0;
    while i < claims.len()
        invariant
            cs.len() == claims@.len(),
            i <= claims@.len(),
            forall|j: int| 0 <= j < i ==> (#[trigger] claims@[j])@ == cleared(cs, id@)[j],
            forall|j: int| i <= j < cs.len() ==> (#[trigger] claims@[j])@ == cs[j],
        decreases claims@.len() - i,
    {
        if claims[i].ticket.same(id) {
            claims[i].path = None;
        }
        i = i + 1;
    }
    assert(models(claims@) =~= cleared(cs, id@));
    plain(Payload::Touched { id: id.to_string() })
}

// ---- refining -------------------------------------------------------------------------------------------------------

/// The text of a refine target's id.
pub open spec fn target_id(target: RefineTarget) -> Text {
    match target {
        RefineTarget::Ticket(id) => id@,
        RefineTarget::Epic(id) => id@,
    }
}

/// Refused unless the target is a stub, or is being refined again.
pub open spec fn not_refinable(id: Text, status: Status) -> OpErrorModel {
    OpErrorModel::Invalid(id + " is "@ + status.name() + " — only stub (or re-refined review) items can be refined"@)
}

/// The refined spec on its target, which then awaits the user's verdict, and the epic that split tickets inherit.
pub open spec fn retitled(b: BoardModel, target: RefineTarget, title: Option<Text>, body: Text) -> Result<
    (BoardModel, Option<Text>),
    OpErrorModel,
> {
    match target {
        RefineTarget::Ticket(id) => match b.ticket(id@) {
            None => Err(OpErrorModel::NotFound(id@)),
            Some(t) => if t.status != Status::Stub && t.status != Status::Review {
                Err(not_refinable(id@, t.status))
            } else {
                Ok(
                    (
                        with_ticket(
                            b,
                            id@,
                            TicketModel { title: or_else(title, t.title), body, status: Status::Review, ..t },
                        ),
                        t.epic,
                    ),
                )
            },
        },
        RefineTarget::Epic(id) => match b.epic(id@) {
            None => Err(OpErrorModel::NotFound(id@)),
            Some(e) => if e.status != Status::Stub && e.status != Status::Review {
                Err(not_refinable(id@, e.status))
            } else {
                Ok(
                    (
                        with_epic(
                            b,
                            id@,
                            EpicModel { title: or_else(title, e.title), body, status: Status::Review, ..e },
                        ),
                        Some(id@),
                    ),
                )
            },
        },
    }
}

fn retitle_ticket(t: &mut Ticket, title: Option<String>, body: String)
    ensures
        final(t)@ == (TicketModel {
            title: or_else(opt_model(title), old(t)@.title),
            body: body@,
            status: Status::Review,
            ..old(t)@
        }),
{
    if let Some(title) = title {
        t.title = title;
    }
    t.body = body;
    t.status = Status::Review;
}

fn retitle_epic(e: &mut Epic, title: Option<String>, body: String)
    ensures
        final(e)@ == (EpicModel {
            title: or_else(opt_model(title), old(e)@.title),
            body: body@,
            status: Status::Review,
            ..old(e)@
        }),
{
    if let Some(title) = title {
        e.title = title;
    }
    e.body = body;
    e.status = Status::Review;
}

fn retitle_target(board: &mut Board, target: &RefineTarget, title: Option<String>, body: String) -> (r: Result<
    Option<EpicId>,
    OpError,
>)
    ensures
        match r {
            Ok(epic) => retitled(old(board)@, *target, opt_model(title), body@) == Ok::<(BoardModel, Option<Text>), OpErrorModel>(
                (final(board)@, opt_model(epic)),
            ),
            Err(e) => retitled(old(board)@, *target, opt_model(title), body@) == Err::<
                (BoardModel, Option<Text>),
                OpErrorModel,
            >(e@),
        },
{
    match target {
        RefineTarget::Ticket(id) => {
            let i: usize = match board.ticket_index(id) {
                Some(i) => i,
                None => return Err(OpError::NotFound(id.to_string())),
            };
            let status: Status = board.tickets[i].status;
            if status != Status::Stub && status != Status::Review {
                return Err(
                    OpError::Invalid(
                        concat4(
                            &id.0,
                            " is ",
                            status.as_str(),
                            " — only stub (or re-refined review) items can be refined",
                        ),
                    ),
                );
            }
            let epic: Option<EpicId> = clone_epic_ref(&board.tickets[i].epic);
            retitle_ticket(&mut board.tickets[i], title, body);
            Ok(epic)
        },
        RefineTarget::Epic(id) => {
            let i: usize = match board.epic_index(id) {
                Some(i) => i,
                None => return Err(OpError::NotFound(id.to_string())),
            };
            let status: Status = board.epics[i].status;
            if status != Status::Stub && status != Status::Review {
                return Err(
                    OpError::Invalid(
                        concat4(
                            &id.0,
                            " is ",
                            status.as_str(),
                            " — only stub (or re-refined review) items can be refined",
                        ),
                    ),
                );
            }
            retitle_epic(&mut board.epics[i], title, body);
            Ok(Some(id.clone()))
        },
    }
}

/// What refining a claimed stub does besides: the claim drops, and a card in `doing` returns to the top of `todo`.
pub open spec fn handed_back(s: StateModel, target: RefineTarget) -> StateModel {
    match target {
        RefineTarget::Epic(_) => s,
        RefineTarget::Ticket(id) => StateModel {
            board: if s.board.tickets[s.board.ticket_at(id@)].column is Doing {
                moved(s.board, id@, ColumnModel::Todo, Some(0))
            } else {
                s.board
            },
            claims: removed(s.claims, id@),
        },
    }
}

fn hand_back(board: &mut Board, claims: &mut Vec<Claim>, target: &RefineTarget)
    requires
        *target matches RefineTarget::Ticket(id) ==> old(board)@.has_ticket(id@),
    ensures
        state(*final(board), *final(claims)) == handed_back(state(*old(board), *old(claims)), *target),
{
    match target {
        RefineTarget::Ticket(id) => {
            let _ = remove(claims, id);
            match board.ticket_index(id) {
                Some(i) => {
                    if board.tickets[i].column.id() == ColumnId::Doing {
                        move_to(board, i, id, Column::Todo, Some(0));
                    }
                },
                None => {},
            }
        },
        RefineTarget::Epic(_) => {},
    }
}

/// The board with the first `n` split epics added, each awaiting the user's verdict.
pub open spec fn epics_added(b: BoardModel, specs: Seq<NewEpicSpec>, n: nat) -> BoardModel
    decreases n,
{
    if n == 0 {
        b
    } else {
        let s = specs[n - 1];
        with_new_epic(epics_added(b, specs, (n - 1) as nat), s.title@, opt_model(s.color), s.body@, Status::Review, false)
    }
}

/// How many tickets the first `n` split epics bring.
pub open spec fn nested_count(specs: Seq<NewEpicSpec>, n: nat) -> nat
    decreases n,
{
    if n == 0 {
        0
    } else {
        nested_count(specs, (n - 1) as nat) + specs[n - 1].tickets@.len()
    }
}

/// What a dependency of a new ticket names: a ticket id, or a placeholder for one of the split tickets. `None` when a
/// placeholder names none.
pub open spec fn resolved(dep: Text, split_ids: Seq<Text>) -> Option<Text> {
    match strip_prefix_spec(dep, "new:"@) {
        None => Some(dep),
        Some(index) => match number_upto(index, usize::MAX as nat) {
            Some(i) => if i < split_ids.len() {
                Some(split_ids[i as int])
            } else {
                None
            },
            None => None,
        },
    }
}

/// All of a new ticket's dependencies, or the first placeholder that names no split ticket.
pub open spec fn all_resolved(deps: Seq<Text>, split_ids: Seq<Text>) -> Result<Seq<Text>, Text>
    decreases deps.len(),
{
    if deps.len() == 0 {
        Ok(Seq::empty())
    } else {
        match all_resolved(deps.drop_last(), split_ids) {
            Err(d) => Err(d),
            Ok(v) => match resolved(deps.last(), split_ids) {
                Some(id) => Ok(v.push(id)),
                None => Err(deps.last()),
            },
        }
    }
}

/// The ticket a split asks for, or the placeholder that names no split ticket.
pub open spec fn refined_ticket(spec: NewTicketSpec, id: Text, default_epic: Option<Text>, split_ids: Seq<Text>) -> Result<
    TicketModel,
    Text,
> {
    match all_resolved(models(spec.depends_on@), split_ids) {
        Err(d) => Err(d),
        Ok(deps) => Ok(
            new_ticket(
                id,
                spec.title@,
                match spec.epic {
                    Some(e) => Some(e@),
                    None => default_epic,
                },
                Status::Review,
                spec.body@,
                models(spec.labels@),
                opt_model(spec.model),
                spec.effort,
                false,
                deps,
            ),
        ),
    }
}

/// A batch of split tickets numbered from `first` on, or the first placeholder that names no split ticket.
pub open spec fn refined_batch(specs: Seq<NewTicketSpec>, first: nat, epic: Option<Text>, split_ids: Seq<Text>) -> Result<
    Seq<TicketModel>,
    Text,
>
    decreases specs.len(),
{
    if specs.len() == 0 {
        Ok(Seq::empty())
    } else {
        match refined_batch(specs.drop_last(), first, epic, split_ids) {
            Err(d) => Err(d),
            Ok(v) => match refined_ticket(specs.last(), ticket_name((first + specs.len() - 1) as nat), epic, split_ids) {
                Err(d) => Err(d),
                Ok(t) => Ok(v.push(t)),
            },
        }
    }
}

/// The tickets of the first `n` split epics, whose ids run from `epics_first` on.
pub open spec fn nested_batch(specs: Seq<NewEpicSpec>, n: nat, epics_first: nat, first: nat, split_ids: Seq<Text>) -> Result<
    Seq<TicketModel>,
    Text,
>
    decreases n,
{
    if n == 0 {
        Ok(Seq::empty())
    } else {
        match nested_batch(specs, (n - 1) as nat, epics_first, first, split_ids) {
            Err(d) => Err(d),
            Ok(v) => match refined_batch(
                specs[n - 1].tickets@,
                first + nested_count(specs, (n - 1) as nat),
                Some(epic_name((epics_first + n - 1) as nat)),
                split_ids,
            ) {
                Err(d) => Err(d),
                Ok(w) => Ok(v + w),
            },
        }
    }
}

/// The ids of `count` tickets numbered from `first` on.
pub open spec fn ticket_names(first: nat, count: nat) -> Seq<Text> {
    Seq::new(count, |i: int| ticket_name((first + i) as nat))
}

/// The ids of `count` epics numbered from `first` on.
pub open spec fn epic_names(first: nat, count: nat) -> Seq<Text> {
    Seq::new(count, |i: int| epic_name((first + i) as nat))
}

pub open spec fn bad_placeholder(dep: Text) -> OpErrorModel {
    OpErrorModel::Invalid("dependency placeholder '"@ + dep + "' does not name a split ticket"@)
}

/// What a refinement does. Ids are created in this order: the split epics, their tickets, the split tickets.
pub open spec fn refine_spec(
    s: StateModel,
    target: RefineTarget,
    title: Option<Text>,
    body: Text,
    split_tickets: Seq<NewTicketSpec>,
    split_epics: Seq<NewEpicSpec>,
) -> Result<(StateModel, OutputModel), OpErrorModel> {
    match retitled(s.board, target, title, body) {
        Err(e) => Err(e),
        Ok(done) => {
            let back = handed_back(StateModel { board: done.0, claims: s.claims }, target);
            let with_epics = epics_added(back.board, split_epics, split_epics.len());
            let epics_first = back.board.epic_seq();
            let first = back.board.ticket_seq();
            let nested = nested_count(split_epics, split_epics.len());
            let split_ids = ticket_names(first + nested, split_tickets.len());
            match nested_batch(split_epics, split_epics.len(), epics_first, first, split_ids) {
                Err(d) => Err(bad_placeholder(d)),
                Ok(children) => match refined_batch(split_tickets, first + nested, done.1, split_ids) {
                    Err(d) => Err(bad_placeholder(d)),
                    Ok(tickets) => {
                        let created = epic_names(epics_first, split_epics.len()) + ticket_names(first, nested) + split_ids;
                        Ok(
                            (
                                StateModel {
                                    board: BoardModel {
                                        tickets: with_epics.tickets + children + tickets,
                                        ..with_epics.minted_tickets(nested + split_tickets.len())
                                    },
                                    claims: back.claims,
                                },
                                OutputModel {
                                    created_ids: created,
                                    result: PayloadModel::Refined { target: target_id(target), created },
                                },
                            ),
                        )
                    },
                },
            }
        },
    }
}

/// A dependency's ticket, or `None` when a placeholder names none.
fn resolve(dep: &String, split_ids: &Vec<TicketId>) -> (r: Option<TicketId>)
    ensures
        opt_model(r) == resolved(dep@, models(split_ids@)),
{
    match strip_prefix(dep, "new:") {
        None => Some(TicketId(dep.clone())),
        Some(index) => match parse_upto(&index, usize::MAX as u64) {
            Some(i) => {
                let i: usize = i as usize;
                if i < split_ids.len() {
                    Some(split_ids[i].clone())
                } else {
                    None
                }
            },
            None => None,
        },
    }
}

proof fn lemma_unresolved(deps: Seq<Text>, split_ids: Seq<Text>, k: int)
    requires
        0 <= k <= deps.len(),
        all_resolved(deps.take(k), split_ids) is Err,
    ensures
        all_resolved(deps, split_ids) == all_resolved(deps.take(k), split_ids),
    decreases deps.len() - k,
{
    if k < deps.len() {
        assert(deps.take(k + 1).drop_last() =~= deps.take(k));
        lemma_unresolved(deps, split_ids, k + 1);
    } else {
        assert(deps.take(k) =~= deps);
    }
}

/// Turn a split into a ticket in `todo` that awaits the user's verdict.
fn build_refined_ticket(spec: &NewTicketSpec, id: TicketId, default_epic: &Option<EpicId>, split_ids: &Vec<TicketId>) -> (r:
    Result<Ticket, OpError>)
    ensures
        match r {
            Ok(t) => refined_ticket(*spec, id@, opt_model(*default_epic), models(split_ids@)) == Ok::<TicketModel, Text>(
                t@,
            ),
            Err(e) => refined_ticket(*spec, id@, opt_model(*default_epic), models(split_ids@)) matches Err(d) && e@
                == bad_placeholder(d),
        },
{
    let ghost deps = models(spec.depends_on@);
    let ghost ids = models(split_ids@);
    let mut depends_on: Vec<TicketId> = Vec::new();
    let mut i: usize = 0;
    while i < spec.depends_on.len()
        invariant
            deps == models(spec.depends_on@),
            ids == models(split_ids@),
            i <= spec.depends_on@.len(),
            all_resolved(deps.take(i as int), ids) == Ok::<Seq<Text>, Text>(models(depends_on@)),
        decreases spec.depends_on@.len() - i,
    {
        proof {
            assert(deps.take(i + 1).drop_last() =~= deps.take(i as int));
            assert(deps.take(i + 1).last() == spec.depends_on@[i as int]@);
        }
        match resolve(&spec.depends_on[i], split_ids) {
            Some(dep) => depends_on.push(dep),
            None => {
                proof {
                    lemma_unresolved(deps, ids, i + 1);
                }
                return Err(
                    OpError::Invalid(
                        concat3("dependency placeholder '", &spec.depends_on[i], "' does not name a split ticket"),
                    ),
                );
            },
        }
        i = i + 1;
    }
    assert(deps.take(deps.len() as int) =~= deps);
    let epic: Option<EpicId> = match &spec.epic {
        Some(e) => Some(e.clone()),
        None => clone_epic_ref(default_epic),
    };
    Ok(
        Ticket {
            id,
            title: spec.title.clone(),
            epic,
            status: Status::Review,
            body: spec.body.clone(),
            labels: crate::seqs::clone_strings(&spec.labels),
            model: clone_opt(&spec.model),
            effort: spec.effort,
            auto_merge: false,
            depends_on,
            notes: Vec::new(),
            external: None,
            pr: None,
            changes_requested: false,
            accepted: false,
            landing_blocked: false,
            column: Column::Todo,
        },
    )
}

proof fn lemma_batch_fails(specs: Seq<NewTicketSpec>, first: nat, epic: Option<Text>, split_ids: Seq<Text>, k: int)
    requires
        0 <= k <= specs.len(),
        refined_batch(specs.take(k), first, epic, split_ids) is Err,
    ensures
        refined_batch(specs, first, epic, split_ids) == refined_batch(specs.take(k), first, epic, split_ids),
    decreases specs.len() - k,
{
    if k < specs.len() {
        assert(specs.take(k + 1).drop_last() =~= specs.take(k));
        lemma_batch_fails(specs, first, epic, split_ids, k + 1);
    } else {
        assert(specs.take(k) =~= specs);
    }
}

/// Build a batch of split tickets under the ids minted for them.
fn build_batch(
    specs: &Vec<NewTicketSpec>,
    ids: &Vec<TicketId>,
    Ghost(first): Ghost<nat>,
    epic: &Option<EpicId>,
    split_ids: &Vec<TicketId>,
    out: &mut Vec<Ticket>,
) -> (r: Result<(), OpError>)
    requires
        models(ids@) == ticket_names(first, specs@.len()),
    ensures
        match r {
            Ok(_) => refined_batch(specs@, first, opt_model(*epic), models(split_ids@)) matches Ok(v) && models(final(out)@)
                == models(old(out)@) + v,
            Err(e) => refined_batch(specs@, first, opt_model(*epic), models(split_ids@)) matches Err(d) && e@
                == bad_placeholder(d),
        },
{
    let ghost split = models(split_ids@);
    let ghost before = models(out@);
    let ghost group = opt_model(*epic);
    let mut i: usize = 0;
    assert(ids@.len() == models(ids@).len());
    assert(specs@.take(0) =~= Seq::<NewTicketSpec>::empty());
    assert(before + Seq::<TicketModel>::empty() =~= before);
    while i < specs.len()
        invariant
            models(ids@) == ticket_names(first, specs@.len()),
            ids@.len() == specs@.len(),
            split == models(split_ids@),
            group == opt_model(*epic),
            i <= specs@.len(),
            refined_batch(specs@.take(i as int), first, group, split) matches Ok(v) && models(out@) == before + v,
        decreases specs@.len() - i,
    {
        let ghost v = refined_batch(specs@.take(i as int), first, group, split)->Ok_0;
        proof {
            assert(specs@.take(i + 1).drop_last() =~= specs@.take(i as int));
            assert(ids@[i as int]@ == models(ids@)[i as int]);
        }
        match build_refined_ticket(&specs[i], ids[i].clone(), epic, split_ids) {
            Ok(t) => {
                let ghost built = t@;
                out.push(t);
                assert((before + v).push(built) =~= before + v.push(built));
            },
            Err(e) => {
                proof {
                    lemma_batch_fails(specs@, first, group, split, i + 1);
                }
                return Err(e);
            },
        }
        i = i + 1;
    }
    assert(specs@.take(specs@.len() as int) =~= specs@);
    Ok(())
}

proof fn lemma_seq_after_epic(b: BoardModel, title: Text, color: Option<Text>, body: Text, status: Status, auto_merge: bool)
    requires
        b.epic_seq() < u64::MAX,
    ensures
        with_new_epic(b, title, color, body, status, auto_merge).epic_seq() == b.epic_seq() + 1,
        with_new_epic(b, title, color, body, status, auto_merge).ticket_seq() == b.ticket_seq(),
        with_new_epic(b, title, color, body, status, auto_merge).tickets == b.tickets,
{
    let after = with_new_epic(b, title, color, body, status, auto_merge);
    let ids = crate::store::model::epic_ids(b.epics);
    let name = epic_name(b.epic_seq());
    assert(crate::store::model::epic_ids(after.epics) =~= ids.push(name));
    assert(ids.push(name).drop_last() =~= ids);
    crate::store::model::lemma_suffix_of_name(b.epic_seq(), "EP-"@);
}

pub proof fn lemma_epics_added(b: BoardModel, specs: Seq<NewEpicSpec>, n: nat)
    requires
        b.epic_seq() + n <= u64::MAX,
    ensures
        epics_added(b, specs, n).epic_seq() == b.epic_seq() + n,
        epics_added(b, specs, n).ticket_seq() == b.ticket_seq(),
        epics_added(b, specs, n).tickets == b.tickets,
    decreases n,
{
    if n > 0 {
        lemma_epics_added(b, specs, (n - 1) as nat);
        let p = epics_added(b, specs, (n - 1) as nat);
        let s = specs[n - 1];
        lemma_seq_after_epic(p, s.title@, opt_model(s.color), s.body@, Status::Review, false);
    }
}

proof fn lemma_nested_count(specs: Seq<NewEpicSpec>, n: nat, m: nat)
    requires
        n <= m <= specs.len(),
    ensures
        nested_count(specs, n) <= nested_count(specs, m),
    decreases m - n,
{
    if n < m {
        lemma_nested_count(specs, n + 1, m);
    }
}

proof fn lemma_nested_fails(specs: Seq<NewEpicSpec>, n: nat, m: nat, epics_first: nat, first: nat, split_ids: Seq<Text>)
    requires
        n <= m,
        nested_batch(specs, n, epics_first, first, split_ids) is Err,
    ensures
        nested_batch(specs, m, epics_first, first, split_ids) == nested_batch(specs, n, epics_first, first, split_ids),
    decreases m - n,
{
    if n < m {
        assert(nested_batch(specs, n + 1, epics_first, first, split_ids) == nested_batch(
            specs,
            n,
            epics_first,
            first,
            split_ids,
        ));
        lemma_nested_fails(specs, n + 1, m, epics_first, first, split_ids);
    }
}

proof fn lemma_minted_twice(b: BoardModel, m: nat, n: nat)
    requires
        b.ticket_seq() + m + n <= u64::MAX,
    ensures
        b.minted_tickets(m).ticket_seq() == b.ticket_seq() + m,
        b.minted_tickets(m).minted_tickets(n) == b.minted_tickets(m + n),
{
}

/// Moving a ticket changes neither counter as minting sees it.
proof fn lemma_seqs_after_move(b: BoardModel, id: Text, c: ColumnModel, at: Option<usize>)
    requires
        b.has_ticket(id),
    ensures
        moved(b, id, c, at).ticket_seq() == b.ticket_seq(),
        moved(b, id, c, at).epic_seq() == b.epic_seq(),
{
    let i = b.ticket_at(id);
    lemma_position_least(ticket_ids(b.tickets), id);
    let t = TicketModel { column: c, ..b.tickets[i] };
    assert(ticket_ids(b.tickets)[i] == b.tickets[i].id);
    lemma_with_ticket(b, id, t);
    let ts = with_ticket(b, id, t).tickets;
    let rest = ts.remove(i);
    let p = place(rest, c.id(), at);
    lemma_members(rest, c.id());
    let after = repositioned(ts, id, c.id(), at);
    assert(after == rest.insert(p, ts[i]));
    let (old_ids, new_ids) = (ticket_ids(ts), ticket_ids(after));
    assert forall|k: int| 0 <= k < new_ids.len() implies old_ids.contains(#[trigger] new_ids[k]) by {
        if k < p {
            if k < i {
                assert(old_ids[k] == new_ids[k]);
            } else {
                assert(old_ids[k + 1] == new_ids[k]);
            }
        } else if k == p {
            assert(old_ids[i] == new_ids[k]);
        } else if k - 1 < i {
            assert(old_ids[k - 1] == new_ids[k]);
        } else {
            assert(old_ids[k] == new_ids[k]);
        }
    }
    assert forall|k: int| 0 <= k < old_ids.len() implies new_ids.contains(#[trigger] old_ids[k]) by {
        if k == i {
            assert(new_ids[p] == old_ids[k]);
        } else {
            let q = if k < i {
                k
            } else {
                k - 1
            };
            assert(rest[q] == ts[k]);
            if q < p {
                assert(new_ids[q] == old_ids[k]);
            } else {
                assert(new_ids[q + 1] == old_ids[k]);
            }
        }
    }
    crate::store::model::lemma_top_suffix_within(new_ids, old_ids, "K-"@);
    crate::store::model::lemma_top_suffix_within(old_ids, new_ids, "K-"@);
}

/// Refining the target's text and handing it back changes neither counter as minting sees it.
pub proof fn lemma_seqs_after_retitle(s: StateModel, target: RefineTarget, title: Option<Text>, body: Text)
    requires
        retitled(s.board, target, title, body) is Ok,
    ensures
        ({
            let done = retitled(s.board, target, title, body)->Ok_0.0;
            let back = handed_back(StateModel { board: done, claims: s.claims }, target).board;
            &&& target matches RefineTarget::Ticket(id) ==> done.has_ticket(id@)
            &&& back.ticket_seq() == s.board.ticket_seq()
            &&& back.epic_seq() == s.board.epic_seq()
        }),
{
    let b = s.board;
    let done = retitled(b, target, title, body)->Ok_0.0;
    match target {
        RefineTarget::Ticket(id) => {
            let t = b.ticket(id@)->0;
            lemma_position_least(ticket_ids(b.tickets), id@);
            assert(ticket_ids(b.tickets)[b.ticket_at(id@)] == b.tickets[b.ticket_at(id@)].id);
            let new = TicketModel { title: or_else(title, t.title), body, status: Status::Review, ..t };
            lemma_with_ticket(b, id@, new);
            if done.tickets[done.ticket_at(id@)].column is Doing {
                lemma_seqs_after_move(done, id@, ColumnModel::Todo, Some(0));
            }
        },
        RefineTarget::Epic(id) => {
            let ids = crate::store::model::epic_ids(b.epics);
            lemma_position_least(ids, id@);
            assert(crate::store::model::epic_ids(done.epics) =~= ids);
        },
    }
}

/// Record a refinement.
#[verifier::rlimit(30)]
fn refine(
    board: &mut Board,
    claims: &mut Vec<Claim>,
    target: &RefineTarget,
    title: Option<String>,
    body: String,
    split_tickets: &Vec<NewTicketSpec>,
    split_epics: &Vec<NewEpicSpec>,
) -> (r: Result<OpOutput, OpError>)
    requires
        old(board)@.epic_seq() + split_epics@.len() <= u64::MAX,
        old(board)@.ticket_seq() + nested_count(split_epics@, split_epics@.len()) + split_tickets@.len() <= u64::MAX,
    ensures
        match r {
            Ok(out) => refine_spec(
                state(*old(board), *old(claims)),
                *target,
                opt_model(title),
                body@,
                split_tickets@,
                split_epics@,
            ) == Ok::<(StateModel, OutputModel), OpErrorModel>((state(*final(board), *final(claims)), out@)),
            Err(e) => refine_spec(
                state(*old(board), *old(claims)),
                *target,
                opt_model(title),
                body@,
                split_tickets@,
                split_epics@,
            ) == Err::<(StateModel, OutputModel), OpErrorModel>(e@),
        },
{
    let ghost start = state(*board, *claims);
    let ghost named = opt_model(title);
    let inherited: Option<EpicId> = match retitle_target(board, target, title, body) {
        Ok(e) => e,
        Err(e) => return Err(e),
    };
    proof {
        lemma_seqs_after_retitle(start, *target, named, body@);
    }
    hand_back(board, claims, target);
    let ghost back = state(*board, *claims);
    let ghost epics_first = back.board.epic_seq();
    let ghost first = back.board.ticket_seq();
    let ghost total = nested_count(split_epics@, split_epics@.len());
    let mut created: Vec<String> = Vec::new();
    let mut epics: Vec<EpicId> = Vec::new();
    let mut e: usize = 0;
    assert(models(created@) =~= epic_names(epics_first, 0));
    while e < split_epics.len()
        invariant
            epics_first == back.board.epic_seq(),
            epics_first + split_epics@.len() <= u64::MAX,
            e <= split_epics@.len(),
            board@ == epics_added(back.board, split_epics@, e as nat),
            epics@.len() == e,
            forall|j: int| 0 <= j < e ==> (#[trigger] epics@[j])@ == epic_name((epics_first + j) as nat),
            models(created@) == epic_names(epics_first, e as nat),
        decreases split_epics@.len() - e,
    {
        let ghost so_far = models(created@);
        proof {
            lemma_epics_added(back.board, split_epics@, e as nat);
        }
        let spec: &NewEpicSpec = &split_epics[e];
        let id: EpicId = create_epic(
            board,
            spec.title.clone(),
            clone_opt(&spec.color),
            spec.body.clone(),
            Status::Review,
            false,
        );
        created.push(id.to_string());
        epics.push(id);
        assert(models(created@) =~= epic_names(epics_first, (e + 1) as nat));
        e = e + 1;
    }
    proof {
        lemma_epics_added(back.board, split_epics@, split_epics@.len());
    }
    let ghost with_epics = board@;
    let mut nested_ids: Vec<Vec<TicketId>> = Vec::new();
    let mut k: usize = 0;
    assert(ticket_names(first, 0) =~= Seq::<Text>::empty());
    while k < split_epics.len()
        invariant
            with_epics.ticket_seq() == first,
            total == nested_count(split_epics@, split_epics@.len()),
            first + total + split_tickets@.len() <= u64::MAX,
            k <= split_epics@.len(),
            board@ == with_epics.minted_tickets(nested_count(split_epics@, k as nat)),
            nested_ids@.len() == k,
            forall|j: int|
                0 <= j < k ==> models((#[trigger] nested_ids@[j])@) == ticket_names(
                    first + nested_count(split_epics@, j as nat),
                    split_epics@[j].tickets@.len(),
                ),
        decreases split_epics@.len() - k,
    {
        let count: usize = split_epics[k].tickets.len();
        let ghost done = nested_count(split_epics@, k as nat);
        proof {
            lemma_nested_count(split_epics@, (k + 1) as nat, split_epics@.len());
            assert(nested_count(split_epics@, (k + 1) as nat) == done + count);
            lemma_minted_twice(with_epics, done, count as nat);
        }
        let ids: Vec<TicketId> = board.mint_ticket_ids(count);
        assert(models(ids@) =~= ticket_names(first + done, count as nat));
        nested_ids.push(ids);
        k = k + 1;
    }
    proof {
        lemma_minted_twice(with_epics, total, split_tickets@.len());
    }
    let split_ids: Vec<TicketId> = board.mint_ticket_ids(split_tickets.len());
    let ghost split = models(split_ids@);
    assert(split =~= ticket_names(first + total, split_tickets@.len()));
    let mut tickets: Vec<Ticket> = Vec::new();
    let mut n: usize = 0;
    assert(models(tickets@) =~= Seq::<TicketModel>::empty());
    assert(models(created@) =~= epic_names(epics_first, split_epics@.len()) + ticket_names(first, 0));
    while n < split_epics.len()
        invariant
            start == state(*old(board), *old(claims)),
            named == opt_model(title),
            total == nested_count(split_epics@, split_epics@.len()),
            split == models(split_ids@),
            split == ticket_names(first + total, split_tickets@.len()),
            n <= split_epics@.len(),
            epics@.len() == split_epics@.len(),
            forall|j: int| 0 <= j < epics@.len() ==> (#[trigger] epics@[j])@ == epic_name((epics_first + j) as nat),
            nested_ids@.len() == split_epics@.len(),
            forall|j: int|
                0 <= j < nested_ids@.len() ==> models((#[trigger] nested_ids@[j])@) == ticket_names(
                    first + nested_count(split_epics@, j as nat),
                    split_epics@[j].tickets@.len(),
                ),
            nested_batch(split_epics@, n as nat, epics_first, first, split) == Ok::<Seq<TicketModel>, Text>(models(tickets@)),
            models(created@) == epic_names(epics_first, split_epics@.len()) + ticket_names(
                first,
                nested_count(split_epics@, n as nat),
            ),
            refine_spec(start, *target, named, body@, split_tickets@, split_epics@) == (match nested_batch(
                split_epics@,
                split_epics@.len(),
                epics_first,
                first,
                split,
            ) {
                Err(d) => Err::<(StateModel, OutputModel), OpErrorModel>(bad_placeholder(d)),
                Ok(_) => refine_spec(start, *target, named, body@, split_tickets@, split_epics@),
            }),
        decreases split_epics@.len() - n,
    {
        let ghost done = nested_count(split_epics@, n as nat);
        let group: Option<EpicId> = Some(epics[n].clone());
        let ghost so_far = models(created@);
        match build_batch(
            &split_epics[n].tickets,
            &nested_ids[n],
            Ghost(first + done),
            &group,
            &split_ids,
            &mut tickets,
        ) {
            Ok(_) => {},
            Err(err) => {
                proof {
                    assert(nested_batch(split_epics@, (n + 1) as nat, epics_first, first, split) is Err);
                    lemma_nested_fails(split_epics@, (n + 1) as nat, split_epics@.len(), epics_first, first, split);
                }
                return Err(err);
            },
        }
        push_texts(&mut created, &nested_ids[n]);
        proof {
            let count = split_epics@[n as int].tickets@.len();
            assert(nested_count(split_epics@, (n + 1) as nat) == done + count);
            assert(models(created@) =~= epic_names(epics_first, split_epics@.len()) + ticket_names(first, done + count));
        }
        n = n + 1;
    }
    let ghost children = models(tickets@);
    match build_batch(split_tickets, &split_ids, Ghost(first + total), &inherited, &split_ids, &mut tickets) {
        Ok(_) => {},
        Err(err) => return Err(err),
    }
    push_texts(&mut created, &split_ids);
    let ghost all_new = models(tickets@);
    board.tickets.append(&mut tickets);
    assert(board@.tickets =~= with_epics.tickets + children + refined_batch(
        split_tickets@,
        first + total,
        opt_model(inherited),
        split,
    )->Ok_0);
    let target_text: String = match target {
        RefineTarget::Ticket(id) => id.to_string(),
        RefineTarget::Epic(id) => id.to_string(),
    };
    let told: Vec<String> = crate::seqs::clone_strings(&created);
    Ok(OpOutput { created_ids: created, result: Payload::Refined { target: target_text, created: told } })
}

/// Append the texts of some ids.
fn push_texts(out: &mut Vec<String>, ids: &Vec<TicketId>)
    ensures
        models(final(out)@) == models(old(out)@) + models(ids@),
{
    let ghost before = models(out@);
    let ghost all = models(ids@);
    let mut i: usize = 0;
    assert(before + all.take(0) =~= before);
    while i < ids.len()
        invariant
            all == models(ids@),
            i <= ids@.len(),
            models(out@) == before + all.take(i as int),
        decreases ids@.len() - i,
    {
        out.push(ids[i].to_string());
        assert((before + all.take(i as int)).push(all[i as int]) =~= before + all.take(i + 1));
        i = i + 1;
    }
    assert(all.take(all.len() as int) =~= all);
}

// ---- mirroring ------------------------------------------------------------------------------------------------------

/// The ticket that mirrors one item of a split: in `doing`, owned by the delegate, bound to the item.
pub open spec fn mirrored(id: Text, epic: Option<Text>, agent: Text, child: SubIssueSpec) -> TicketModel {
    TicketModel {
        external: Some(ExternalModel::issue(child.number)),
        column: ColumnModel::Doing { owner: agent, branch: None },
        ..new_ticket(
            id,
            child.title@,
            epic,
            Status::Ready,
            child.body@,
            Seq::empty(),
            None,
            None,
            false,
            Seq::empty(),
        )
    }
}

/// The claims with the delegate's claim on each of the first `n` tickets numbered from `first` on.
pub open spec fn delegated_claims(cs: Seq<ClaimModel>, first: nat, n: nat, agent: Text, now: Timestamp) -> Seq<ClaimModel>
    decreases n,
{
    if n == 0 {
        cs
    } else {
        upserted(
            delegated_claims(cs, first, (n - 1) as nat, agent, now),
            new_claim(ticket_name((first + n - 1) as nat), agent, now),
        )
    }
}

/// The numbers of the items of a split.
pub open spec fn child_numbers(children: Seq<SubIssueSpec>) -> Seq<u64> {
    Seq::new(children.len(), |i: int| children[i].number)
}

/// The parent of a split: it waits for the mirrored tickets, and its binding names their items.
pub open spec fn split_parent(t: TicketModel, ext: ExternalModel, first: nat, children: Seq<SubIssueSpec>) -> TicketModel {
    TicketModel {
        depends_on: t.depends_on + ticket_names(first, children.len()),
        external: Some(ExternalModel { sub_issues: ext.sub_issues + child_numbers(children), ..ext }),
        ..t
    }
}

/// What mirroring a split does: the parent goes to `review`, and each item becomes a ticket at the bottom.
pub open spec fn mirror_spec(s: StateModel, parent: Text, agent: Text, children: Seq<SubIssueSpec>, now: Timestamp) -> Result<
    (StateModel, OutputModel),
    OpErrorModel,
> {
    match s.board.ticket(parent) {
        None => Err(OpErrorModel::NotFound(parent)),
        Some(t) => match t.external {
            None => Err(OpErrorModel::Invalid(parent + " is not bound to an issue — there is nothing to mirror"@)),
            Some(ext) => {
                let first = s.board.ticket_seq();
                let n = children.len();
                let waiting = with_ticket(s.board, parent, split_parent(t, ext, first, children));
                let parked = moved(waiting, parent, ColumnModel::Review { branch: t.column.branch() }, None);
                let mirrors = Seq::new(n, |i: int| mirrored(ticket_name((first + i) as nat), t.epic, agent, children[i]));
                let created = ticket_names(first, n);
                Ok(
                    (
                        StateModel {
                            board: BoardModel {
                                tickets: parked.tickets + mirrors,
                                ..s.board.minted_tickets(n)
                            },
                            claims: delegated_claims(removed(s.claims, parent), first, n, agent, now),
                        },
                        OutputModel {
                            created_ids: created,
                            result: PayloadModel::Refined { target: parent, created },
                        },
                    ),
                )
            },
        },
    }
}

/// The fields of a parent that a split changes.
fn split_ticket(t: &mut Ticket, ids: &Vec<TicketId>, Ghost(first): Ghost<nat>, children: &Vec<SubIssueSpec>)
    requires
        old(t)@.external is Some,
        models(ids@) == ticket_names(first, children@.len()),
    ensures
        final(t)@ == split_parent(old(t)@, old(t)@.external->0, first, children@),
{
    let ghost t0 = t@;
    let mut depends_on: Vec<TicketId> = clone_ids(&t.depends_on);
    let mut more: Vec<TicketId> = clone_ids(ids);
    depends_on.append(&mut more);
    t.depends_on = depends_on;
    match &t.external {
        Some(ext) => {
            let mut ext: External = ext.clone();
            let ghost numbers = ext.sub_issues@;
            let mut i: usize = 0;
            assert(numbers + child_numbers(children@).take(0) =~= numbers);
            while i < children.len()
                invariant
                    i <= children@.len(),
                    ext@ == (ExternalModel {
                        sub_issues: numbers + child_numbers(children@).take(i as int),
                        ..t0.external->0
                    }),
                decreases children@.len() - i,
            {
                ext.sub_issues.push(children[i].number);
                assert(ext.sub_issues@ =~= numbers + child_numbers(children@).take(i + 1));
                i = i + 1;
            }
            assert(child_numbers(children@).take(children@.len() as int) =~= child_numbers(children@));
            t.external = Some(ext);
        },
        None => {},
    }
}

#[verifier::rlimit(30)]
fn mirror_sub_issues(
    board: &mut Board,
    claims: &mut Vec<Claim>,
    parent: &TicketId,
    agent: &str,
    children: &Vec<SubIssueSpec>,
    now: Timestamp,
) -> (r: Result<OpOutput, OpError>)
    requires
        old(board)@.ticket_seq() + children@.len() <= u64::MAX,
    ensures
        match r {
            Ok(out) => mirror_spec(state(*old(board), *old(claims)), parent@, agent@, children@, now) == Ok::<
                (StateModel, OutputModel),
                OpErrorModel,
            >((state(*final(board), *final(claims)), out@)),
            Err(e) => mirror_spec(state(*old(board), *old(claims)), parent@, agent@, children@, now) == Err::<
                (StateModel, OutputModel),
                OpErrorModel,
            >(e@),
        },
{
    let ghost start = state(*board, *claims);
    let i: usize = match board.ticket_index(parent) {
        Some(i) => i,
        None => return Err(OpError::NotFound(parent.to_string())),
    };
    if board.tickets[i].external.is_none() {
        return Err(
            OpError::Invalid(concat2(&parent.0, " is not bound to an issue — there is nothing to mirror")),
        );
    }
    let ghost t0 = board.tickets@[i as int]@;
    let ghost first = board@.ticket_seq();
    let epic: Option<EpicId> = clone_epic_ref(&board.tickets[i].epic);
    let branch: Option<String> = board.tickets[i].column.branch_owned();
    let ids: Vec<TicketId> = board.mint_ticket_ids(children.len());
    assert(models(ids@) =~= ticket_names(first, children@.len()));
    let ghost minted = board@;
    split_ticket(&mut board.tickets[i], &ids, Ghost(first), children);
    proof {
        let new = split_parent(t0, t0.external->0, first, children@);
        lemma_position_least(ticket_ids(start.board.tickets), parent@);
        assert(ticket_ids(start.board.tickets)[i as int] == t0.id);
        lemma_with_ticket(start.board, parent@, new);
        lemma_with_ticket(minted, parent@, new);
        assert(board@ == with_ticket(minted, parent@, new));
    }
    move_to(board, i, parent, Column::Review { branch }, None);
    let ghost parked = board@;
    let _ = remove(claims, parent);
    let ghost dropped = models(claims@);
    let ghost mirrors = Seq::new(
        children@.len(),
        |j: int| mirrored(ticket_name((first + j) as nat), t0.epic, agent@, children@[j]),
    );
    let mut k: usize = 0;
    assert(parked.tickets + mirrors.take(0) =~= parked.tickets);
    while k < children.len()
        invariant
            models(ids@) == ticket_names(first, children@.len()),
            mirrors == Seq::new(
                children@.len(),
                |j: int| mirrored(ticket_name((first + j) as nat), t0.epic, agent@, children@[j]),
            ),
            opt_model(epic) == t0.epic,
            k <= children@.len(),
            board@ == (BoardModel { tickets: parked.tickets + mirrors.take(k as int), ..parked }),
            models(claims@) == delegated_claims(dropped, first, k as nat, agent@, now),
        decreases children@.len() - k,
    {
        assert(ids@.len() == models(ids@).len());
        assert(ids@[k as int]@ == models(ids@)[k as int]);
        let child: &SubIssueSpec = &children[k];
        let ticket: Ticket = Ticket {
            id: ids[k].clone(),
            title: child.title.clone(),
            epic: clone_epic_ref(&epic),
            status: Status::Ready,
            body: child.body.clone(),
            labels: Vec::new(),
            model: None,
            effort: None,
            auto_merge: false,
            depends_on: Vec::new(),
            notes: Vec::new(),
            external: Some(External::github_issue(child.number)),
            pr: None,
            changes_requested: false,
            accepted: false,
            landing_blocked: false,
            column: Column::Doing { owner: agent.to_owned(), branch: None },
        };
        assert(ticket@ == mirrors[k as int]);
        board.tickets.push(ticket);
        upsert(
            claims,
            Claim { ticket: ids[k].clone(), agent: agent.to_owned(), since: now, path: None, kind: ClaimKind::Work },
        );
        assert((parked.tickets + mirrors.take(k as int)).push(mirrors[k as int]) =~= parked.tickets + mirrors.take(k + 1));
        k = k + 1;
    }
    assert(mirrors.take(mirrors.len() as int) =~= mirrors);
    let mut created: Vec<String> = Vec::new();
    assert(models(created@) + models(ids@) =~= models(ids@));
    push_texts(&mut created, &ids);
    let told: Vec<String> = crate::seqs::clone_strings(&created);
    Ok(OpOutput { created_ids: created, result: Payload::Refined { target: parent.to_string(), created: told } })
}

// ---- applying -------------------------------------------------------------------------------------------------------

/// What an operation makes of a board and its claims, and what it reports.
pub open spec fn transition_spec(op: Op, s: StateModel, now: Timestamp) -> Result<(StateModel, OutputModel), OpErrorModel> {
    let b = s.board;
    match op {
        Op::CreateTicket { title, body, epic, labels, depends_on, status, model, effort, auto_merge } => {
            let id = ticket_name(b.ticket_seq());
            Ok(
                (
                    StateModel {
                        board: with_new_ticket(
                            b,
                            new_ticket(
                                id,
                                title@,
                                opt_model(epic),
                                status,
                                body@,
                                models(labels@),
                                opt_model(model),
                                effort,
                                auto_merge,
                                models(depends_on@),
                            ),
                        ),
                        claims: s.claims,
                    },
                    OutputModel { created_ids: seq![id], result: PayloadModel::Touched { id } },
                ),
            )
        },
        Op::CreateEpic { title, color, body, status, auto_merge } => {
            let id = epic_name(b.epic_seq());
            Ok(
                (
                    StateModel {
                        board: with_new_epic(b, title@, opt_model(color), body@, status, auto_merge),
                        claims: s.claims,
                    },
                    OutputModel { created_ids: seq![id], result: PayloadModel::Touched { id } },
                ),
            )
        },
        Op::UpdateTicket { id, patch } => match b.ticket(id@) {
            None => Err(OpErrorModel::NotFound(id@)),
            Some(t) => Ok(
                (
                    StateModel { board: with_ticket(b, id@, patched(t, patch)), claims: s.claims },
                    plain_output(PayloadModel::Touched { id: id@ }),
                ),
            ),
        },
        Op::UpdateEpic { id, patch } => match b.epic(id@) {
            None => Err(OpErrorModel::NotFound(id@)),
            Some(e) => Ok(
                (
                    StateModel { board: with_epic(b, id@, patched_epic(e, patch)), claims: s.claims },
                    plain_output(PayloadModel::Touched { id: id@ }),
                ),
            ),
        },
        Op::DeleteTicket { id } => if b.has_ticket(id@) {
            Ok(
                (
                    StateModel {
                        board: BoardModel { tickets: tickets_without(b.tickets, seq![id@]), ..b },
                        claims: claims_without(s.claims, seq![id@]),
                    },
                    plain_output(PayloadModel::Deleted { id: id@ }),
                ),
            )
        } else {
            Err(OpErrorModel::NotFound(id@))
        },
        Op::DeleteEpic { id } => if b.has_epic(id@) {
            let doomed = ids_in_epic(b.tickets, id@);
            Ok(
                (
                    StateModel {
                        board: BoardModel {
                            tickets: tickets_without(b.tickets, doomed),
                            epics: epics_without(b.epics, id@),
                            ..b
                        },
                        claims: claims_without(s.claims, doomed),
                    },
                    plain_output(PayloadModel::DeletedEpic { id: id@, tickets: doomed }),
                ),
            )
        } else {
            Err(OpErrorModel::NotFound(id@))
        },
        Op::MoveTicket { id, to, position, owner, branch } => with_output(
            move_spec(s, id@, to, position, opt_model(owner), opt_model(branch), now),
            PayloadModel::Moved { id: id@, column: to },
        ),
        Op::SetTicketStatus { id, status } => match b.ticket(id@) {
            None => Err(OpErrorModel::NotFound(id@)),
            Some(t) => Ok(
                (
                    StateModel { board: with_ticket(b, id@, TicketModel { status, ..t }), claims: s.claims },
                    plain_output(PayloadModel::StatusSet { id: id@, status }),
                ),
            ),
        },
        Op::SetEpicStatus { id, status } => match b.epic(id@) {
            None => Err(OpErrorModel::NotFound(id@)),
            Some(e) => Ok(
                (
                    StateModel { board: with_epic(b, id@, EpicModel { status, ..e }), claims: s.claims },
                    plain_output(PayloadModel::StatusSet { id: id@, status }),
                ),
            ),
        },
        Op::Claim { id, agent } => with_output(
            claim_spec(s, id@, agent@, now),
            PayloadModel::Claimed {
                id: id@,
                owner: agent@,
                refining: b.tickets[b.ticket_at(id@)].status == Status::Stub,
            },
        ),
        Op::Release { id } => with_output(release_spec(s, id@), PayloadModel::Moved { id: id@, column: ColumnId::Todo }),
        Op::AddNote { id, text, author } => match b.ticket(id@) {
            None => Err(OpErrorModel::NotFound(id@)),
            Some(t) => Ok(
                (
                    StateModel { board: with_ticket(b, id@, noted(t, opt_model(author), text@, now)), claims: s.claims },
                    plain_output(PayloadModel::Noted { id: id@, notes: t.notes.len() + 1 }),
                ),
            ),
        },
        Op::BindExternal { id, external } => match b.ticket(id@) {
            None => Err(OpErrorModel::NotFound(id@)),
            Some(t) => Ok(
                (
                    StateModel {
                        board: with_ticket(b, id@, TicketModel { external: opt_model(external), ..t }),
                        claims: s.claims,
                    },
                    plain_output(PayloadModel::Bound { id: id@, external: opt_model(external) }),
                ),
            ),
        },
        Op::Delegate { id, external, agent, note } => with_output(
            delegate_spec(s, id@, external@, agent@, note@, now),
            PayloadModel::Bound { id: id@, external: Some(external@) },
        ),
        Op::MirrorSubIssues { parent, agent, children } => mirror_spec(s, parent@, agent@, children@, now),
        Op::Refine { target, title, body, split_tickets, split_epics } => refine_spec(
            s,
            target,
            opt_model(title),
            body@,
            split_tickets@,
            split_epics@,
        ),
        Op::LandTicket { id, expected_branch, reason } => with_output(
            land_spec(s, id@, opt_model(expected_branch), reason@, now),
            PayloadModel::Landed { id: id@ },
        ),
        Op::DiscardTicket { id, reason } => with_output(
            discard_spec(s, id@, reason@, now),
            PayloadModel::Discarded { id: id@ },
        ),
        Op::RequestChanges { id, comment, author } => with_output(
            request_spec(s, id@, comment@, author@, now),
            PayloadModel::Moved { id: id@, column: ColumnId::Doing },
        ),
        Op::SetPr { id, pr } => match b.ticket(id@) {
            None => Err(OpErrorModel::NotFound(id@)),
            Some(t) => Ok(
                (
                    StateModel { board: with_ticket(b, id@, TicketModel { pr: opt_model(pr), ..t }), claims: s.claims },
                    plain_output(PayloadModel::Pr { id: id@, pr: opt_model(pr) }),
                ),
            ),
        },
        Op::StampWorktree { id, branch, path } => with_output(
            stamp_spec(s, id@, branch@, path@, now),
            PayloadModel::Stamped { id: id@, branch: branch@, path: path@ },
        ),
        Op::ClearWorktreePath { id } => Ok(
            (
                StateModel { board: b, claims: cleared(s.claims, id@) },
                plain_output(PayloadModel::Touched { id: id@ }),
            ),
        ),
    }
}

/// A new state with what is reported of it.
pub open spec fn with_output(r: Result<StateModel, OpErrorModel>, result: PayloadModel) -> Result<
    (StateModel, OutputModel),
    OpErrorModel,
> {
    match r {
        Ok(s) => Ok((s, plain_output(result))),
        Err(e) => Err(e),
    }
}

/// The ids the operation mints fit the board's counters.
pub open spec fn ids_fit(op: Op, b: BoardModel) -> bool {
    match op {
        Op::CreateTicket { .. } => b.ticket_seq() < u64::MAX,
        Op::CreateEpic { .. } => b.epic_seq() < u64::MAX,
        Op::MirrorSubIssues { children, .. } => b.ticket_seq() + children@.len() <= u64::MAX,
        Op::Refine { split_tickets, split_epics, .. } => b.epic_seq() + split_epics@.len() <= u64::MAX && b.ticket_seq()
            + nested_count(split_epics@, split_epics@.len()) + split_tickets@.len() <= u64::MAX,
        _ => true,
    }
}

/// Apply an operation to fresh state at the time `now`. Whole-board invariants are the store's business.
pub fn transition(op: Op, board: Board, claims: Vec<Claim>, now: Timestamp) -> (r: Result<(OpOutput, Board, Vec<Claim>), OpError>)
    requires
        ids_fit(op, board@),
    ensures
        match r {
            Ok(done) => transition_spec(op, state(board, claims), now) == Ok::<(StateModel, OutputModel), OpErrorModel>(
                (state(done.1, done.2), done.0@),
            ),
            Err(e) => transition_spec(op, state(board, claims), now) == Err::<(StateModel, OutputModel), OpErrorModel>(e@),
        },
{
    let mut board: Board = board;
    let mut claims: Vec<Claim> = claims;
    let out: Result<OpOutput, OpError> = match op {
        Op::CreateTicket { title, body, epic, labels, depends_on, status, model, effort, auto_merge } => {
            let new: Ticket = Ticket {
                id: TicketId(String::new()),
                title,
                epic,
                status,
                body,
                labels,
                model,
                effort,
                auto_merge,
                depends_on,
                notes: Vec::new(),
                external: None,
                pr: None,
                changes_requested: false,
                accepted: false,
                landing_blocked: false,
                column: Column::Todo,
            };
            Ok(create_ticket(&mut board, new))
        },
        Op::CreateEpic { title, color, body, status, auto_merge } => {
            let id: EpicId = create_epic(&mut board, title, color, body, status, auto_merge);
            let mut created: Vec<String> = Vec::new();
            created.push(id.to_string());
            assert(models(created@) =~= seq![id@]);
            Ok(OpOutput { created_ids: created, result: Payload::Touched { id: id.to_string() } })
        },
        Op::UpdateTicket { id, patch } => update_ticket(&mut board, &id, patch),
        Op::UpdateEpic { id, patch } => update_epic(&mut board, &id, patch),
        Op::DeleteTicket { id } => delete_ticket(&mut board, &mut claims, &id),
        Op::DeleteEpic { id } => delete_epic(&mut board, &mut claims, &id),
        Op::MoveTicket { id, to, position, owner, branch } => move_ticket(
            &mut board,
            &mut claims,
            &id,
            to,
            position,
            owner,
            branch,
            now,
        ),
        Op::SetTicketStatus { id, status } => set_ticket_status(&mut board, &id, status),
        Op::SetEpicStatus { id, status } => set_epic_status(&mut board, &id, status),
        Op::Claim { id, agent } => claim(&mut board, &mut claims, &id, &agent, now),
        Op::Release { id } => release(&mut board, &mut claims, &id),
        Op::AddNote { id, text, author } => add_note(&mut board, &id, text, author, now),
        Op::BindExternal { id, external } => bind_external(&mut board, &id, external),
        Op::Delegate { id, external, agent, note } => delegate(&mut board, &mut claims, &id, external, &agent, note, now),
        Op::MirrorSubIssues { parent, agent, children } => mirror_sub_issues(
            &mut board,
            &mut claims,
            &parent,
            &agent,
            &children,
            now,
        ),
        Op::Refine { target, title, body, split_tickets, split_epics } => refine(
            &mut board,
            &mut claims,
            &target,
            title,
            body,
            &split_tickets,
            &split_epics,
        ),
        Op::LandTicket { id, expected_branch, reason } => land_ticket(
            &mut board,
            &mut claims,
            &id,
            &expected_branch,
            &reason,
            now,
        ),
        Op::DiscardTicket { id, reason } => discard_ticket(&mut board, &mut claims, &id, &reason, now),
        Op::RequestChanges { id, comment, author } => request_changes(
            &mut board,
            &mut claims,
            &id,
            &comment,
            &author,
            now,
        ),
        Op::SetPr { id, pr } => set_pr(&mut board, &id, pr),
        Op::StampWorktree { id, branch, path } => stamp_worktree(&mut board, &mut claims, &id, &branch, &path, now),
        Op::ClearWorktreePath { id } => Ok(clear_worktree_path(&mut claims, &id)),
    };
    match out {
        Ok(o) => Ok((o, board, claims)),
        Err(e) => Err(e),
    }
}

/// What applying an operation does to a store: start at the expected version, apply, finish.
pub open spec fn apply_spec(s: StoreModel, expected: Option<u64>, op: Op, now: Timestamp) -> Result<
    (StoreModel, OutputModel),
    OpErrorModel,
> {
    match s.started(expected) {
        Err(e) => Err(OpErrorModel::Store(e)),
        Ok(b) => match transition_spec(op, StateModel { board: b, claims: s.claims }, now) {
            Err(e) => Err(e),
            Ok(done) => match s.committed(done.0.board, done.0.claims) {
                Err(e) => Err(OpErrorModel::Store(e)),
                Ok(after) => Ok((after, done.1)),
            },
        },
    }
}

/// The store's counters leave room for one write of this operation.
pub open spec fn room_for(s: StoreModel, expected: Option<u64>, op: Op) -> bool {
    s.fits() && (s.started(expected) matches Ok(b) ==> b.version < u64::MAX && ids_fit(op, b))
}

/// Every operation leaves the version to the store.
proof fn lemma_version_kept(op: Op, s: StateModel, now: Timestamp)
    ensures
        transition_spec(op, s, now) matches Ok(done) ==> done.0.board.version == s.board.version,
{
    match op {
        Op::Refine { target, title, body, split_tickets, split_epics } => {
            if let Ok(done) = retitled(s.board, target, opt_model(title), body@) {
                let back = handed_back(StateModel { board: done.0, claims: s.claims }, target);
                lemma_epics_version(back.board, split_epics@, split_epics@.len());
            }
        },
        _ => {},
    }
}

proof fn lemma_epics_version(b: BoardModel, specs: Seq<NewEpicSpec>, n: nat)
    ensures
        epics_added(b, specs, n).version == b.version,
        epics_added(b, specs, n).schema == b.schema,
        epics_added(b, specs, n).columns == b.columns,
    decreases n,
{
    if n > 0 {
        lemma_epics_version(b, specs, (n - 1) as nat);
    }
}

/// Apply one operation at the time `now`, under the full write discipline. A refused operation leaves the store as it was.
pub fn apply_at(store: &mut Store, expected_version: Option<u64>, op: Op, now: Timestamp) -> (r: Result<Applied, OpError>)
    requires
        room_for(old(store)@, expected_version, op),
    ensures
        match r {
            Ok(a) => apply_spec(old(store)@, expected_version, op, now) == Ok::<(StoreModel, OutputModel), OpErrorModel>(
                (final(store)@, OutputModel { created_ids: models(a.created_ids@), result: a.result@ }),
            ) && a.version == final(store)@.board->0.version && old(store)@.started(expected_version) is Ok && a.version
                == old(store)@.started(expected_version)->Ok_0.version + 1,
            Err(e) => apply_spec(old(store)@, expected_version, op, now) == Err::<(StoreModel, OutputModel), OpErrorModel>(
                e@,
            ) && final(store)@ == old(store)@,
        },
{
    let (board, claims) = match store.begin(expected_version) {
        Ok(s) => s,
        Err(e) => return Err(OpError::Store(e)),
    };
    proof {
        lemma_version_kept(op, state(board, claims), now);
    }
    let (out, board, claims) = match transition(op, board, claims, now) {
        Ok(o) => o,
        Err(e) => return Err(e),
    };
    match store.commit(board, claims) {
        Ok(version) => Ok(Applied { version, created_ids: out.created_ids, result: out.result }),
        Err(e) => Err(OpError::Store(e)),
    }
}

/// Apply one operation now, under the full write discipline.
pub fn apply(store: &mut Store, expected_version: Option<u64>, op: Op) -> (r: Result<Applied, OpError>)
    requires
        room_for(old(store)@, expected_version, op),
    ensures
        exists|now: Timestamp|
            match r {
                Ok(a) => #[trigger] apply_spec(old(store)@, expected_version, op, now) == Ok::<
                    (StoreModel, OutputModel),
                    OpErrorModel,
                >((final(store)@, OutputModel { created_ids: models(a.created_ids@), result: a.result@ })) && a.version
                    == final(store)@.board->0.version,
                Err(e) => apply_spec(old(store)@, expected_version, op, now) == Err::<
                    (StoreModel, OutputModel),
                    OpErrorModel,
                >(e@) && final(store)@ == old(store)@,
            },
{
    let now: Timestamp = crate::time::now();
    let r: Result<Applied, OpError> = apply_at(store, expected_version, op, now);
    assert(apply_spec(old(store)@, expected_version, op, now) == apply_spec(old(store)@, expected_version, op, now));
    r
}

// ---- what an operation asks for -------------------------------------------------------------------------------------

/// `op` appends a note.
pub open spec fn is_note(op: Op, id: Text, text: Text, author: Text) -> bool {
    op matches Op::AddNote { id: of, text: t, author: a } && of@ == id && t@ == text && opt_model(a) == Some(author)
}

/// `op` records a pull request.
pub open spec fn is_set_pr(op: Op, id: Text, pr: PrModel) -> bool {
    op matches Op::SetPr { id: of, pr: p } && of@ == id && opt_model(p) == Some(pr)
}

/// `op` lands a ticket, provided that it is still on that branch.
pub open spec fn is_landing(op: Op, id: Text, branch: Option<Text>, reason: Text) -> bool {
    op matches Op::LandTicket { id: of, expected_branch, reason: r } && of@ == id && opt_model(expected_branch) == branch
        && r@ == reason
}

/// A note by the board itself.
pub fn note_op(id: &TicketId, text: String) -> (r: Op)
    ensures
        is_note(r, id@, text@, "kanban"@),
{
    Op::AddNote { id: id.clone(), text, author: Some("kanban".to_owned()) }
}

} // verus!
