//! What the caller of an operation is told: why it was refused, and what came of it when it was not.
use vstd::prelude::*;

use crate::ops::{ticket_names, transition_spec, Op, OpErrorModel, PayloadModel, RefineTarget, StateModel};
use crate::seqs::opt_model;
use crate::store::claims::found;
use crate::store::derive::is_blocked;
use crate::store::model::{epic_name, ticket_name, ColumnId, External, Status, TicketId, TicketModel};
use crate::store::StoreErrorModel;
use crate::text::{decimal, join_spec, trim_spec, Text};
use crate::time::Timestamp;

verus! {

// ---- refusals -------------------------------------------------------------------------------------------------------

/// A claim is refused, in this order: a live claim names its holder, a done ticket says so, a card that is somebody's and was
/// not sent back names its owner, and then its status and its dependencies are held against it.
pub proof fn a_refused_claim_says_who_or_what(s: StateModel, id: TicketId, agent: String, now: Timestamp, t: TicketModel)
    requires
        s.board.ticket(id@) == Some(t),
    ensures
        ({
            let r = transition_spec(Op::Claim { id, agent }, s, now);
            let held = found(s.claims, id@);
            let taken = t.column is Doing && t.column->Doing_owner != agent@ && !t.changes_requested;
            let fit = t.status == Status::Ready || t.status == Status::Stub;
            &&& held matches Some(c) ==> (r matches Err(e) && e == OpErrorModel::AlreadyClaimed { id: id@, agent: c.agent })
            &&& held is None && t.column is Done ==> (r matches Err(e) && e == OpErrorModel::Invalid(
                id@ + " is already done — move it back to todo first"@,
            ))
            &&& held is None && taken ==> (r matches Err(e) && e == OpErrorModel::AlreadyClaimed {
                id: id@,
                agent: t.column->Doing_owner,
            })
            &&& held is None && !(t.column is Done) && !taken && !fit ==> (r matches Err(e) && e == OpErrorModel::Invalid(
                id@ + " is "@ + t.status.name()
                    + " — only ready tickets (to implement) or stubs (to refine) can be claimed"@,
            ))
            &&& held is None && !(t.column is Done) && !taken && fit && is_blocked(t, s.board) ==> (r matches Err(e) && e
                == OpErrorModel::Invalid(
                id@ + " is blocked — its dependencies ("@ + join_spec(t.depends_on, ", "@) + ") are not all done"@,
            ))
            &&& held is None && !(t.column is Done) && !taken && fit && !is_blocked(t, s.board) ==> r is Ok
        }),
{
}

/// A move into `doing` without an owner is refused unless the card has one; every other move of a ticket that is there goes
/// through.
pub proof fn a_move_into_doing_needs_an_owner(
    s: StateModel,
    id: TicketId,
    to: ColumnId,
    position: Option<usize>,
    owner: Option<String>,
    branch: Option<String>,
    now: Timestamp,
    t: TicketModel,
)
    requires
        s.board.ticket(id@) == Some(t),
    ensures
        ({
            let r = transition_spec(Op::MoveTicket { id, to, position, owner, branch }, s, now);
            let ownerless = to == ColumnId::Doing && owner is None && !(t.column is Doing);
            &&& ownerless ==> (r matches Err(e) && e == OpErrorModel::Invalid(
                "moving "@ + id@ + " into doing needs an owner — claim it (kanban_claim), or supply one"@,
            ))
            &&& !ownerless ==> r is Ok
        }),
{
}

/// A release of a ticket that nobody has is refused.
pub proof fn a_release_needs_a_holder(s: StateModel, id: TicketId, now: Timestamp, t: TicketModel)
    requires
        s.board.ticket(id@) == Some(t),
    ensures
        ({
            let r = transition_spec(Op::Release { id }, s, now);
            let idle = found(s.claims, id@) is None && !(t.column is Doing);
            &&& idle ==> (r matches Err(e) && e == OpErrorModel::Invalid(id@ + " is not claimed"@))
            &&& !idle ==> r is Ok
        }),
{
}

/// A landing that comes too late is refused: the ticket left review, or is on another branch than the evidence.
pub proof fn a_late_landing_is_refused(
    s: StateModel,
    id: TicketId,
    expected_branch: Option<String>,
    reason: String,
    now: Timestamp,
    t: TicketModel,
)
    requires
        s.board.ticket(id@) == Some(t),
    ensures
        ({
            let r = transition_spec(Op::LandTicket { id, expected_branch, reason }, s, now);
            &&& !(t.column is Review) ==> (r matches Err(e) && e == OpErrorModel::Invalid(
                id@ + " is no longer in review — not landing it"@,
            ))
            &&& t.column is Review && t.column.branch() != opt_model(expected_branch) ==> (r matches Err(e) && e
                == OpErrorModel::Invalid(id@ + "'s branch changed since the evidence was gathered — not landing it"@))
            &&& t.column is Review && t.column.branch() == opt_model(expected_branch) ==> r is Ok
        }),
{
}

/// Only a ticket in review can be discarded.
pub proof fn a_discard_needs_a_review(s: StateModel, id: TicketId, reason: String, now: Timestamp, t: TicketModel)
    requires
        s.board.ticket(id@) == Some(t),
    ensures
        ({
            let r = transition_spec(Op::DiscardTicket { id, reason }, s, now);
            &&& !(t.column is Review) ==> (r matches Err(e) && e == OpErrorModel::Invalid(
                id@ + " is not in review — only code-complete, unlanded work can be discarded"@,
            ))
            &&& t.column is Review ==> r is Ok
        }),
{
}

/// Sending back is refused for work done elsewhere, then for a ticket that is not in review, then without a comment.
pub proof fn sending_back_needs_a_verdict(
    s: StateModel,
    id: TicketId,
    comment: String,
    author: String,
    now: Timestamp,
    t: TicketModel,
)
    requires
        s.board.ticket(id@) == Some(t),
    ensures
        ({
            let r = transition_spec(Op::RequestChanges { id, comment, author }, s, now);
            &&& t.external is Some ==> (r matches Err(e) && e == OpErrorModel::Invalid(
                id@ + " is external — its verdict belongs on the delegate's issue"@,
            ))
            &&& t.external is None && !(t.column is Review) ==> (r matches Err(e) && e == OpErrorModel::Invalid(
                id@ + " is not in review — only code-complete work can be sent back"@,
            ))
            &&& t.external is None && t.column is Review && trim_spec(comment@).len() == 0 ==> (r matches Err(e) && e
                == OpErrorModel::Invalid("sending "@ + id@ + " back needs a comment that says what to change"@))
            &&& t.external is None && t.column is Review && trim_spec(comment@).len() > 0 ==> r is Ok
        }),
{
}

/// A ticket that moved on is not delegated any more.
pub proof fn a_late_delegation_is_refused(
    s: StateModel,
    id: TicketId,
    external: External,
    agent: String,
    note: String,
    now: Timestamp,
    t: TicketModel,
)
    requires
        s.board.ticket(id@) == Some(t),
    ensures
        ({
            let r = transition_spec(Op::Delegate { id, external, agent, note }, s, now);
            let still = t.column is Doing && t.column.branch() is None && t.status == Status::Ready && t.external is None;
            &&& !still ==> (r matches Err(e) && e == OpErrorModel::Invalid(
                id@ + " moved on before it could be delegated — not binding it"@,
            ))
            &&& still ==> r is Ok
        }),
{
}

/// A worktree is stamped onto a card in `doing` that is worked here, and onto no other.
pub proof fn a_stamp_needs_a_claimed_card(
    s: StateModel,
    id: TicketId,
    branch: String,
    path: String,
    now: Timestamp,
    t: TicketModel,
)
    requires
        s.board.ticket(id@) == Some(t),
    ensures
        ({
            let r = transition_spec(Op::StampWorktree { id, branch, path }, s, now);
            &&& t.external is Some ==> (r matches Err(e) && e == OpErrorModel::External(id@))
            &&& t.external is None && !(t.column is Doing) ==> (r matches Err(e) && e == OpErrorModel::Invalid(
                id@ + " is not in doing — claim it first (kanban_claim)"@,
            ))
            &&& t.external is None && t.column is Doing ==> r is Ok
        }),
{
}

/// Only a stub, or what awaits the user's verdict, can be refined; a ready or a draft item is refused by its status.
pub proof fn a_draft_or_ready_item_is_not_refined(op: Op, s: StateModel, now: Timestamp)
    requires
        op is Refine,
    ensures
        ({
            let r = transition_spec(op, s, now);
            match op->Refine_target {
                RefineTarget::Ticket(id) => match s.board.ticket(id@) {
                    None => r matches Err(e) && e == OpErrorModel::NotFound(id@),
                    Some(t) => t.status == Status::Draft || t.status == Status::Ready ==> (r matches Err(e) && e
                        == OpErrorModel::Invalid(
                        id@ + " is "@ + t.status.name() + " — only stub (or re-refined review) items can be refined"@,
                    )),
                },
                RefineTarget::Epic(id) => match s.board.epic(id@) {
                    None => r matches Err(e) && e == OpErrorModel::NotFound(id@),
                    Some(t) => t.status == Status::Draft || t.status == Status::Ready ==> (r matches Err(e) && e
                        == OpErrorModel::Invalid(
                        id@ + " is "@ + t.status.name() + " — only stub (or re-refined review) items can be refined"@,
                    )),
                },
            }
        }),
{
}

/// A split is mirrored under a ticket that is bound to an issue, and under no other.
pub proof fn mirroring_needs_a_binding(op: Op, s: StateModel, now: Timestamp)
    requires
        op is MirrorSubIssues,
    ensures
        ({
            let r = transition_spec(op, s, now);
            let id = op->parent@;
            &&& s.board.ticket(id) is None ==> (r matches Err(e) && e == OpErrorModel::NotFound(id))
            &&& s.board.ticket(id) matches Some(t) ==> (t.external is None ==> (r matches Err(e) && e == OpErrorModel::Invalid(
                id + " is not bound to an issue — there is nothing to mirror"@,
            ))) && (t.external is Some ==> r is Ok)
        }),
{
}

/// The sentence each refusal comes with.
pub proof fn a_refusal_reads_as_a_sentence(id: Text, agent: Text, why: Text, e: StoreErrorModel)
    ensures
        OpErrorModel::NotFound(id).message() == id + " not found"@,
        OpErrorModel::Invalid(why).message() == why,
        (OpErrorModel::AlreadyClaimed { id, agent }).message() == id + " is already claimed by "@ + agent,
        OpErrorModel::External(id).message() == id + " is external — it is worked elsewhere and never gets a worktree here"@,
        OpErrorModel::Store(e).message() == e.message(),
{
}

/// The sentence of a stale write names the version that is there and the one that was expected.
pub proof fn a_stale_write_names_both_versions(expected: u64, actual: u64)
    ensures
        (StoreErrorModel::VersionConflict { expected, actual }).message() == "board changed underneath this write: version is "@
            + decimal(actual as nat) + ", expected "@ + decimal(expected as nat),
{
}

// ---- reports --------------------------------------------------------------------------------------------------------

/// What an operation reports when it went through: which item it touched, and how.
pub proof fn an_operation_reports_what_it_did(op: Op, s: StateModel, now: Timestamp)
    requires
        transition_spec(op, s, now) is Ok,
    ensures
        ({
            let out = (transition_spec(op, s, now)->Ok_0).1;
            match op {
                Op::CreateTicket { .. } => out.created_ids == seq![ticket_name(s.board.ticket_seq())] && out.result == (
                PayloadModel::Touched { id: ticket_name(s.board.ticket_seq()) }),
                Op::CreateEpic { .. } => out.created_ids == seq![epic_name(s.board.epic_seq())] && out.result == (
                PayloadModel::Touched { id: epic_name(s.board.epic_seq()) }),
                Op::UpdateTicket { id, .. } => out.result == (PayloadModel::Touched { id: id@ }),
                Op::UpdateEpic { id, .. } => out.result == (PayloadModel::Touched { id: id@ }),
                Op::DeleteTicket { id } => out.result == (PayloadModel::Deleted { id: id@ }),
                Op::DeleteEpic { id } => out.result is DeletedEpic && out.result->DeletedEpic_id == id@,
                Op::MoveTicket { id, to, .. } => out.result == (PayloadModel::Moved { id: id@, column: to }),
                Op::SetTicketStatus { id, status } => out.result == (PayloadModel::StatusSet { id: id@, status }),
                Op::SetEpicStatus { id, status } => out.result == (PayloadModel::StatusSet { id: id@, status }),
                Op::Claim { id, agent } => out.result == (PayloadModel::Claimed {
                    id: id@,
                    owner: agent@,
                    refining: (s.board.ticket(id@)->0).status == Status::Stub,
                }),
                Op::Release { id } => out.result == (PayloadModel::Moved { id: id@, column: ColumnId::Todo }),
                Op::AddNote { id, .. } => out.result == (PayloadModel::Noted {
                    id: id@,
                    notes: (s.board.ticket(id@)->0).notes.len() + 1,
                }),
                Op::BindExternal { id, external } => out.result == (PayloadModel::Bound {
                    id: id@,
                    external: opt_model(external),
                }),
                Op::Delegate { id, external, .. } => out.result == (PayloadModel::Bound {
                    id: id@,
                    external: Some(external@),
                }),
                Op::MirrorSubIssues { parent, children, .. } => out.created_ids == ticket_names(
                    s.board.ticket_seq(),
                    children@.len(),
                ) && out.result == (PayloadModel::Refined { target: parent@, created: out.created_ids }),
                Op::Refine { target, .. } => out.result is Refined && out.result->created == out.created_ids && match target {
                    RefineTarget::Ticket(id) => out.result->target == id@,
                    RefineTarget::Epic(id) => out.result->target == id@,
                },
                Op::LandTicket { id, .. } => out.result == (PayloadModel::Landed { id: id@ }),
                Op::DiscardTicket { id, .. } => out.result == (PayloadModel::Discarded { id: id@ }),
                Op::RequestChanges { id, .. } => out.result == (PayloadModel::Moved { id: id@, column: ColumnId::Doing }),
                Op::SetPr { id, pr } => out.result == (PayloadModel::Pr { id: id@, pr: opt_model(pr) }),
                Op::StampWorktree { id, branch, path } => out.result == (PayloadModel::Stamped {
                    id: id@,
                    branch: branch@,
                    path: path@,
                }),
                Op::ClearWorktreePath { id } => out.result == (PayloadModel::Touched { id: id@ }),
            }
        }),
        !(op is CreateTicket || op is CreateEpic || op is MirrorSubIssues || op is Refine) ==> (transition_spec(
            op,
            s,
            now,
        )->Ok_0).1.created_ids.len() == 0,
{
}

/// What an operation is called in the log.
pub proof fn every_operation_has_its_name(op: Op)
    ensures
        op is CreateTicket ==> op.called() == "create_ticket"@,
        op is CreateEpic ==> op.called() == "create_epic"@,
        op is UpdateTicket ==> op.called() == "update_ticket"@,
        op is UpdateEpic ==> op.called() == "update_epic"@,
        op is DeleteTicket ==> op.called() == "delete_ticket"@,
        op is DeleteEpic ==> op.called() == "delete_epic"@,
        op is MoveTicket ==> op.called() == "move_ticket"@,
        op is SetTicketStatus ==> op.called() == "set_ticket_status"@,
        op is SetEpicStatus ==> op.called() == "set_epic_status"@,
        op is Claim ==> op.called() == "claim"@,
        op is Release ==> op.called() == "release"@,
        op is AddNote ==> op.called() == "add_note"@,
        op is BindExternal ==> op.called() == "bind_external"@,
        op is Delegate ==> op.called() == "delegate"@,
        op is MirrorSubIssues ==> op.called() == "mirror_sub_issues"@,
        op is Refine ==> op.called() == "refine"@,
        op is LandTicket ==> op.called() == "land_ticket"@,
        op is DiscardTicket ==> op.called() == "discard_ticket"@,
        op is RequestChanges ==> op.called() == "send_back"@,
        op is SetPr ==> op.called() == "set_pr"@,
        op is StampWorktree ==> op.called() == "stamp_worktree"@,
        op is ClearWorktreePath ==> op.called() == "clear_worktree_path"@,
{
}

} // verus!
