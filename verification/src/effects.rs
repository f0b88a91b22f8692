//! What each operation is for: what it leaves of every field, who else is touched, and on which boards it succeeds.
//!
//! Each law speaks of the board before and the board after, and of what the operation was given.
use vstd::prelude::*;

use crate::laws::{lemma_moved_others, lemma_moved_ticket, lemma_replaced, repositioning_moves_one_ticket};
use crate::ops::{
    transition_spec, with_ticket, EpicPatch, Op, OpErrorModel, PayloadModel, StateModel, TicketPatch,
};
use crate::seqs::{lemma_position_least, models, opt_model};
use crate::store::claims::{found, one_each, remove_then_find, upsert_then_find, ClaimKind, ClaimModel};
use crate::store::model::{
    epic_ids, in_column, ticket_ids, BoardModel, ColumnId, ColumnModel, Effort, EpicId, EpicModel, External, NoteModel, PrRef,
    Status, TicketId, TicketModel,
};
use crate::text::{trim_spec, Text};
use crate::time::Timestamp;

verus! {

// ---- what stays -----------------------------------------------------------------------------------------------------

/// Of the board only the ticket `id` changed, and it stands where it stood.
pub open spec fn only_ticket_changed(b: BoardModel, after: BoardModel, id: Text) -> bool {
    &&& after.tickets.len() == b.tickets.len()
    &&& forall|j: int| 0 <= j < b.tickets.len() && j != b.ticket_at(id) ==> #[trigger] after.tickets[j] == b.tickets[j]
    &&& after.epics == b.epics && after.columns == b.columns && after.schema == b.schema && after.version == b.version
    &&& after.next_ticket_seq == b.next_ticket_seq && after.next_epic_seq == b.next_epic_seq
}

/// Of the board only the epic `id` changed, and it stands where it stood.
pub open spec fn only_epic_changed(b: BoardModel, after: BoardModel, id: Text) -> bool {
    &&& after.epics.len() == b.epics.len()
    &&& forall|j: int| 0 <= j < b.epics.len() && j != b.epic_at(id) ==> #[trigger] after.epics[j] == b.epics[j]
    &&& after.tickets == b.tickets && after.columns == b.columns && after.schema == b.schema && after.version == b.version
    &&& after.next_ticket_seq == b.next_ticket_seq && after.next_epic_seq == b.next_epic_seq
}

/// The rank that a ticket gets among `n` others when it is asked to go to `at`: there, or to the bottom.
pub open spec fn rank(at: Option<usize>, n: nat) -> int {
    match at {
        Some(p) => if p < n {
            p as int
        } else {
            n as int
        },
        None => n as int,
    }
}

/// Of the board only the ticket `id` changed, to `u`, which now has that rank in its column. Every other ticket is as it was,
/// in the order it was in.
pub open spec fn only_ticket_moved(b: BoardModel, after: BoardModel, id: Text, u: TicketModel, at: Option<usize>) -> bool {
    let rest = b.tickets.remove(b.ticket_at(id));
    &&& after.ticket(id) == Some(u)
    &&& forall|x: Text| x != id ==> #[trigger] after.ticket(x) == b.ticket(x)
    &&& exists|p: int| 0 <= p <= rest.len() && after.tickets == #[trigger] rest.insert(p, u)
    &&& in_column(after.tickets, u.column.id()) == in_column(rest, u.column.id()).insert(
        rank(at, in_column(rest, u.column.id()).len()),
        u,
    )
    &&& forall|c: ColumnId| c != u.column.id() ==> #[trigger] in_column(after.tickets, c) == in_column(rest, c)
    &&& after.epics == b.epics && after.columns == b.columns && after.schema == b.schema && after.version == b.version
    &&& after.next_ticket_seq == b.next_ticket_seq && after.next_epic_seq == b.next_epic_seq
}

/// Nothing is recorded on `id` any more, and every other record is as it was.
pub open spec fn only_claim_dropped(cs: Seq<ClaimModel>, after: Seq<ClaimModel>, id: Text) -> bool {
    &&& found(after, id) is None
    &&& forall|x: Text| x != id ==> #[trigger] found(after, x) == found(cs, x)
}

/// `c` is recorded on its ticket, and every other record is as it was.
pub open spec fn only_claim_written(cs: Seq<ClaimModel>, after: Seq<ClaimModel>, c: ClaimModel) -> bool {
    &&& found(after, c.ticket) == Some(c)
    &&& forall|x: Text| x != c.ticket ==> #[trigger] found(after, x) == found(cs, x)
}

pub(crate) proof fn lemma_named(b: BoardModel, id: Text)
    requires
        b.has_ticket(id),
    ensures
        b.ticket(id)->0.id == id,
        0 <= b.ticket_at(id) < b.tickets.len(),
{
    lemma_position_least(ticket_ids(b.tickets), id);
    assert(ticket_ids(b.tickets)[b.ticket_at(id)] == b.tickets[b.ticket_at(id)].id);
}

pub(crate) proof fn lemma_epic_named(b: BoardModel, id: Text)
    requires
        b.has_epic(id),
    ensures
        b.epic(id)->0.id == id,
        0 <= b.epic_at(id) < b.epics.len(),
{
    lemma_position_least(epic_ids(b.epics), id);
    assert(epic_ids(b.epics)[b.epic_at(id)] == b.epics[b.epic_at(id)].id);
}

pub(crate) proof fn lemma_epic_replaced(b: BoardModel, id: Text, e: EpicModel)
    requires
        b.has_epic(id),
        e.id == id,
    ensures
        crate::ops::with_epic(b, id, e).epic(id) == Some(e),
        only_epic_changed(b, crate::ops::with_epic(b, id, e), id),
{
    lemma_epic_named(b, id);
    assert(epic_ids(crate::ops::with_epic(b, id, e).epics) =~= epic_ids(b.epics));
}

pub(crate) proof fn lemma_claim_dropped(cs: Seq<ClaimModel>, id: Text)
    requires
        one_each(cs),
    ensures
        only_claim_dropped(cs, crate::store::claims::removed(cs, id), id),
{
    assert forall|x: Text| x != id implies #[trigger] found(crate::store::claims::removed(cs, id), x) == found(cs, x) by {
        remove_then_find(cs, id, x);
    }
    remove_then_find(cs, id, id);
}

pub(crate) proof fn lemma_claim_written(cs: Seq<ClaimModel>, c: ClaimModel)
    requires
        one_each(cs),
    ensures
        only_claim_written(cs, crate::store::claims::upserted(cs, c), c),
{
    assert forall|x: Text| x != c.ticket implies #[trigger] found(crate::store::claims::upserted(cs, c), x) == found(cs, x) by {
        upsert_then_find(cs, c, x);
    }
    upsert_then_find(cs, c, c.ticket);
}

/// Writing a ticket and giving it a column moves that ticket and no other.
pub(crate) proof fn lemma_moved_only(b: BoardModel, id: Text, t: TicketModel, c: ColumnModel, at: Option<usize>)
    requires
        b.has_ticket(id),
        ticket_ids(b.tickets).no_duplicates(),
        t.id == id,
    ensures
        only_ticket_moved(
            b,
            crate::ops::moved(with_ticket(b, id, t), id, c, at),
            id,
            TicketModel { column: c, ..t },
            at,
        ),
{
    let w = with_ticket(b, id, t);
    let u = TicketModel { column: c, ..t };
    let after = crate::ops::moved(w, id, c, at);
    lemma_named(b, id);
    lemma_replaced(b, id, t);
    assert(ticket_ids(w.tickets) =~= ticket_ids(b.tickets));
    lemma_moved_ticket(w, id, c, at);
    lemma_moved_others(w, id, c, at);
    lemma_replaced(w, id, u);
    let i = b.ticket_at(id);
    let rest = b.tickets.remove(i);
    let ts = with_ticket(w, id, u).tickets;
    assert(ticket_ids(ts) =~= ticket_ids(b.tickets));
    assert(ts.remove(i) =~= rest);
    let p = crate::ops::place(rest, c.id(), at);
    assert(after.tickets == rest.insert(p, u));
    repositioning_moves_one_ticket(ts, id, at, c.id());
    assert(after.tickets.len() == ts.len());
    assert(0 <= p <= rest.len()) by {
        crate::laws::lemma_members_count(rest, c.id());
    }
    assert forall|x: ColumnId| x != c.id() implies #[trigger] in_column(after.tickets, x) == in_column(rest, x) by {
        repositioning_moves_one_ticket(ts, id, at, x);
    }
    assert forall|x: Text| x != id implies #[trigger] after.ticket(x) == b.ticket(x) by {
        assert(after.ticket(x) == w.ticket(x));
        lemma_position_least(ticket_ids(b.tickets), x);
        if b.has_ticket(x) {
            assert(ticket_ids(b.tickets)[b.ticket_at(x)] == x);
        }
    }
}

// ---- moving ---------------------------------------------------------------------------------------------------------

/// A move puts the ticket into the column and at the position asked for, and gives it what the column asks: the branch it is
/// told, or else the one it has, wherever it comes from and whoever moves it; the owner it is told, or else the one it has; and
/// on entering `done` the time, as kept work. A ticket that is done already keeps when and how it was closed. Nothing else of it
/// changes but that handing it in answers a request for changes. It is refused for a ticket that is not there, and into `doing`
/// where nobody would own it, and for nothing else.
pub proof fn a_move_carries_owner_branch_and_completion(
    s: StateModel,
    id: TicketId,
    to: ColumnId,
    position: Option<usize>,
    owner: Option<String>,
    branch: Option<String>,
    now: Timestamp,
)
    requires
        ticket_ids(s.board.tickets).no_duplicates(),
        one_each(s.claims),
    ensures
        match (s.board.ticket(id@), transition_spec(Op::MoveTicket { id, to, position, owner, branch }, s, now)) {
            (None, Err(e)) => e == OpErrorModel::NotFound(id@),
            (Some(t), Err(_)) => to == ColumnId::Doing && owner is None && !(t.column is Doing),
            (Some(t), Ok(done)) => {
                let u = done.0.board.ticket(id@)->0;
                &&& !(to == ColumnId::Doing && owner is None && !(t.column is Doing))
                &&& only_ticket_moved(s.board, done.0.board, id@, u, position)
                &&& match u.column {
                    ColumnModel::Todo => to == ColumnId::Todo,
                    ColumnModel::Doing { owner: o, branch: b } => {
                        &&& to == ColumnId::Doing
                        &&& owner matches Some(given) ==> o == given@
                        &&& owner is None ==> o == t.column->Doing_owner
                        &&& branch matches Some(given) ==> b == Some(given@)
                        &&& branch is None ==> b == t.column.branch()
                    },
                    ColumnModel::Review { branch: b } => {
                        &&& to == ColumnId::Review
                        &&& branch matches Some(given) ==> b == Some(given@)
                        &&& branch is None ==> b == t.column.branch()
                    },
                    ColumnModel::Done { branch: b, completed_at, discarded } => {
                        &&& to == ColumnId::Done
                        &&& branch matches Some(given) ==> b == Some(given@)
                        &&& branch is None ==> b == t.column.branch()
                        &&& match t.column {
                            ColumnModel::Done { completed_at: at, discarded: was, .. } => completed_at == at && discarded == was,
                            _ => completed_at == now && !discarded,
                        }
                    },
                }
                &&& u == TicketModel { column: u.column, changes_requested: u.changes_requested, ..t }
                &&& u.changes_requested == (t.changes_requested && (to == ColumnId::Todo || to == ColumnId::Doing))
                &&& to == ColumnId::Todo || to == ColumnId::Doing ==> done.0.claims == s.claims
                &&& to == ColumnId::Review || to == ColumnId::Done ==> only_claim_dropped(s.claims, done.0.claims, id@)
                &&& done.1.created_ids.len() == 0
                &&& done.1.result == PayloadModel::Moved { id: id@, column: to }
            },
            _ => false,
        },
{
    let op = Op::MoveTicket { id, to, position, owner, branch };
    if s.board.has_ticket(id@) {
        let t = s.board.ticket(id@)->0;
        lemma_named(s.board, id@);
        if let Ok(done) = transition_spec(op, s, now) {
            let n = if to == ColumnId::Review || to == ColumnId::Done {
                TicketModel { changes_requested: false, ..t }
            } else {
                t
            };
            let c = crate::ops::next_state(t.column, to, opt_model(owner), opt_model(branch), id@, now)->Ok_0;
            lemma_moved_only(s.board, id@, n, c, position);
            if to == ColumnId::Todo || to == ColumnId::Doing {
                assert(with_ticket(s.board, id@, n).tickets =~= s.board.tickets);
            }
            lemma_claim_dropped(s.claims, id@);
        }
    }
}

/// Releasing takes the claim off and puts the card on top of `todo`, without owner or branch; the rest of it stays. It is
/// refused for a ticket that is not there, and for one that nobody holds.
pub proof fn a_release_hands_the_card_back(s: StateModel, id: TicketId, now: Timestamp)
    requires
        ticket_ids(s.board.tickets).no_duplicates(),
        one_each(s.claims),
    ensures
        match (s.board.ticket(id@), transition_spec(Op::Release { id }, s, now)) {
            (None, Err(e)) => e == OpErrorModel::NotFound(id@),
            (Some(t), Err(_)) => found(s.claims, id@) is None && !(t.column is Doing),
            (Some(t), Ok(done)) => {
                &&& found(s.claims, id@) is Some || t.column is Doing
                &&& only_ticket_moved(
                    s.board,
                    done.0.board,
                    id@,
                    TicketModel { column: ColumnModel::Todo, ..t },
                    Some(0),
                )
                &&& only_claim_dropped(s.claims, done.0.claims, id@)
            },
            _ => false,
        },
{
    if s.board.has_ticket(id@) {
        let t = s.board.ticket(id@)->0;
        lemma_named(s.board, id@);
        lemma_moved_only(s.board, id@, t, ColumnModel::Todo, Some(0));
        assert(with_ticket(s.board, id@, t).tickets =~= s.board.tickets);
        lemma_claim_dropped(s.claims, id@);
    }
}

/// Landing succeeds exactly on a review ticket that is still on the branch the evidence is about. It goes to the bottom of
/// `done` on that branch, as kept work of this moment, with the reason on its log in the board's name, and nobody holds it.
pub proof fn a_landing_closes_the_ticket_as_kept(
    s: StateModel,
    id: TicketId,
    expected_branch: Option<String>,
    reason: String,
    now: Timestamp,
)
    requires
        ticket_ids(s.board.tickets).no_duplicates(),
        one_each(s.claims),
    ensures
        match (s.board.ticket(id@), transition_spec(Op::LandTicket { id, expected_branch, reason }, s, now)) {
            (None, Err(e)) => e == OpErrorModel::NotFound(id@),
            (Some(t), Err(_)) => t.column != (ColumnModel::Review { branch: opt_model(expected_branch) }),
            (Some(t), Ok(done)) => {
                &&& t.column == (ColumnModel::Review { branch: opt_model(expected_branch) })
                &&& only_ticket_moved(
                    s.board,
                    done.0.board,
                    id@,
                    TicketModel {
                        column: ColumnModel::Done { branch: t.column.branch(), completed_at: now, discarded: false },
                        notes: t.notes.push(NoteModel { at: now, author: Some("kanban"@), text: reason@ }),
                        ..t
                    },
                    None,
                )
                &&& only_claim_dropped(s.claims, done.0.claims, id@)
            },
            _ => false,
        },
{
    if s.board.has_ticket(id@) {
        let t = s.board.ticket(id@)->0;
        lemma_named(s.board, id@);
        let n = crate::ops::noted(t, Some("kanban"@), reason@, now);
        lemma_moved_only(
            s.board,
            id@,
            n,
            ColumnModel::Done { branch: t.column.branch(), completed_at: now, discarded: false },
            None,
        );
        lemma_claim_dropped(s.claims, id@);
    }
}

/// Discarding succeeds exactly on a review ticket. It goes to the bottom of `done` on its branch, as discarded, with the
/// reason on its log in the board's name, and nobody holds it.
pub proof fn a_discard_closes_the_ticket_unlanded(s: StateModel, id: TicketId, reason: String, now: Timestamp)
    requires
        ticket_ids(s.board.tickets).no_duplicates(),
        one_each(s.claims),
    ensures
        match (s.board.ticket(id@), transition_spec(Op::DiscardTicket { id, reason }, s, now)) {
            (None, Err(e)) => e == OpErrorModel::NotFound(id@),
            (Some(t), Err(_)) => !(t.column is Review),
            (Some(t), Ok(done)) => {
                &&& t.column is Review
                &&& only_ticket_moved(
                    s.board,
                    done.0.board,
                    id@,
                    TicketModel {
                        column: ColumnModel::Done { branch: t.column.branch(), completed_at: now, discarded: true },
                        notes: t.notes.push(NoteModel { at: now, author: Some("kanban"@), text: reason@ }),
                        ..t
                    },
                    None,
                )
                &&& only_claim_dropped(s.claims, done.0.claims, id@)
            },
            _ => false,
        },
{
    if s.board.has_ticket(id@) {
        let t = s.board.ticket(id@)->0;
        lemma_named(s.board, id@);
        let n = crate::ops::noted(t, Some("kanban"@), reason@, now);
        lemma_moved_only(
            s.board,
            id@,
            n,
            ColumnModel::Done { branch: t.column.branch(), completed_at: now, discarded: true },
            None,
        );
        lemma_claim_dropped(s.claims, id@);
    }
}

/// Sending back succeeds exactly on a review ticket that is worked here, with something to say. It goes to the bottom of
/// `doing` on its branch, marked, with the comment on its log in the author's name, and nobody holds it.
pub proof fn sending_back_marks_the_ticket(s: StateModel, id: TicketId, comment: String, author: String, now: Timestamp)
    requires
        ticket_ids(s.board.tickets).no_duplicates(),
        one_each(s.claims),
    ensures
        match (s.board.ticket(id@), transition_spec(Op::RequestChanges { id, comment, author }, s, now)) {
            (None, Err(e)) => e == OpErrorModel::NotFound(id@),
            (Some(t), Err(_)) => t.external is Some || !(t.column is Review) || trim_spec(comment@).len() == 0,
            (Some(t), Ok(done)) => {
                &&& t.external is None && t.column is Review && trim_spec(comment@).len() > 0
                &&& only_ticket_moved(
                    s.board,
                    done.0.board,
                    id@,
                    TicketModel {
                        column: ColumnModel::Doing { owner: author@, branch: t.column.branch() },
                        changes_requested: true,
                        notes: t.notes.push(
                            NoteModel {
                                at: now,
                                author: Some(author@),
                                text: "changes requested: "@ + trim_spec(comment@),
                            },
                        ),
                        ..t
                    },
                    None,
                )
                &&& only_claim_dropped(s.claims, done.0.claims, id@)
            },
            _ => false,
        },
{
    if s.board.has_ticket(id@) {
        let t = s.board.ticket(id@)->0;
        lemma_named(s.board, id@);
        let n = crate::ops::asked(t, comment@, author@, now);
        lemma_moved_only(s.board, id@, n, ColumnModel::Doing { owner: author@, branch: t.column.branch() }, None);
        lemma_claim_dropped(s.claims, id@);
    }
}

// ---- claiming -------------------------------------------------------------------------------------------------------

/// Every dependency of the ticket stands on the board, done and kept.
pub open spec fn dependencies_landed(t: TicketModel, b: BoardModel) -> bool {
    forall|i: int|
        0 <= i < t.depends_on.len() ==> (b.ticket(#[trigger] t.depends_on[i]) matches Some(d) && (d.column matches ColumnModel::Done {
            discarded,
            ..
        } && !discarded))
}

/// A claim succeeds exactly on a ticket that nothing is recorded on, that is not done, that is `ready` or `stub`, whose
/// dependencies have all landed, and that is in nobody else's hands (one that was sent back is in nobody's). The ticket stays
/// where it stands, now `doing` in the claimant's name on the branch it has, and the claim is the claimant's, from this moment,
/// without a worktree.
pub proof fn a_claim_makes_the_ticket_the_claimants(s: StateModel, id: TicketId, agent: String, now: Timestamp)
    requires
        one_each(s.claims),
    ensures
        match transition_spec(Op::Claim { id, agent }, s, now) {
            Err(e) => {
                ||| found(s.claims, id@) is Some
                ||| s.board.ticket(id@) is None
                ||| s.board.ticket(id@)->0.column is Done
                ||| s.board.ticket(id@)->0.column is Doing && s.board.ticket(id@)->0.column->Doing_owner != agent@ && !(s.board.ticket(
                    id@,
                )->0).changes_requested
                ||| s.board.ticket(id@)->0.status == Status::Draft
                ||| s.board.ticket(id@)->0.status == Status::Review
                ||| !dependencies_landed(s.board.ticket(id@)->0, s.board)
            },
            Ok(done) => {
                let t = s.board.ticket(id@)->0;
                &&& found(s.claims, id@) is None && s.board.has_ticket(id@)
                &&& !(t.column is Done)
                &&& t.column is Doing ==> t.column->Doing_owner == agent@ || t.changes_requested
                &&& t.status == Status::Ready || t.status == Status::Stub
                &&& dependencies_landed(t, s.board)
                &&& only_ticket_changed(s.board, done.0.board, id@)
                &&& done.0.board.ticket(id@) == Some(
                    TicketModel { column: ColumnModel::Doing { owner: agent@, branch: t.column.branch() }, ..t },
                )
                &&& only_claim_written(
                    s.claims,
                    done.0.claims,
                    ClaimModel { ticket: id@, agent: agent@, since: now, path: None, kind: ClaimKind::Work },
                )
                &&& done.1.result == PayloadModel::Claimed {
                    id: id@,
                    owner: agent@,
                    refining: t.status == Status::Stub,
                }
            },
        },
{
    lemma_claim_written(
        s.claims,
        ClaimModel { ticket: id@, agent: agent@, since: now, path: None, kind: ClaimKind::Work },
    );
    if s.board.has_ticket(id@) {
        let t = s.board.ticket(id@)->0;
        lemma_named(s.board, id@);
        lemma_replaced(
            s.board,
            id@,
            TicketModel { column: ColumnModel::Doing { owner: agent@, branch: t.column.branch() }, ..t },
        );
        assert(dependencies_landed(t, s.board) == !crate::store::derive::is_blocked(t, s.board)) by {
            if crate::store::derive::is_blocked(t, s.board) {
                let i = choose|i: int|
                    0 <= i < t.depends_on.len() && !crate::store::derive::landed(s.board, #[trigger] t.depends_on[i]);
                assert(!(s.board.ticket(t.depends_on[i]) matches Some(d) && d.column.landed()));
            } else {
                assert forall|i: int| 0 <= i < t.depends_on.len() implies (s.board.ticket(#[trigger] t.depends_on[i]) matches Some(
                    d,
                ) && (d.column matches ColumnModel::Done { discarded, .. } && !discarded)) by {
                    assert(crate::store::derive::landed(s.board, t.depends_on[i]));
                }
            }
        }
    }
}

/// Handing over to a delegate succeeds exactly on a `ready` ticket in `doing` that has neither a branch nor a binding. It is
/// then bound, the delegate's own, claimed by the delegate from this moment, and noted in the board's name.
pub proof fn a_delegation_binds_the_ticket(
    s: StateModel,
    id: TicketId,
    external: External,
    agent: String,
    note: String,
    now: Timestamp,
)
    requires
        one_each(s.claims),
    ensures
        match (s.board.ticket(id@), transition_spec(Op::Delegate { id, external, agent, note }, s, now)) {
            (None, Err(e)) => e == OpErrorModel::NotFound(id@),
            (Some(t), Err(_)) => !(t.column is Doing) || t.column.branch() is Some || t.status != Status::Ready || t.external
                is Some,
            (Some(t), Ok(done)) => {
                &&& t.column is Doing && t.column.branch() is None && t.status == Status::Ready && t.external is None
                &&& only_ticket_changed(s.board, done.0.board, id@)
                &&& done.0.board.ticket(id@) == Some(
                    TicketModel {
                        external: Some(external@),
                        column: ColumnModel::Doing { owner: agent@, branch: None },
                        notes: t.notes.push(NoteModel { at: now, author: Some("kanban"@), text: note@ }),
                        ..t
                    },
                )
                &&& only_claim_written(
                    s.claims,
                    done.0.claims,
                    ClaimModel { ticket: id@, agent: agent@, since: now, path: None, kind: ClaimKind::Work },
                )
            },
            _ => false,
        },
{
    lemma_claim_written(
        s.claims,
        ClaimModel { ticket: id@, agent: agent@, since: now, path: None, kind: ClaimKind::Work },
    );
    if s.board.has_ticket(id@) {
        let t = s.board.ticket(id@)->0;
        lemma_named(s.board, id@);
        lemma_replaced(
            s.board,
            id@,
            TicketModel {
                external: Some(external@),
                column: ColumnModel::Doing { owner: agent@, branch: None },
                ..crate::ops::noted(t, Some("kanban"@), note@, now)
            },
        );
    }
}

/// Stamping succeeds exactly on a ticket in `doing` that is worked here. The branch goes onto the ticket and the path onto its
/// owner's claim, which keeps its age where there was one.
pub proof fn a_stamp_records_branch_and_path(s: StateModel, id: TicketId, branch: String, path: String, now: Timestamp)
    requires
        one_each(s.claims),
    ensures
        match (s.board.ticket(id@), transition_spec(Op::StampWorktree { id, branch, path }, s, now)) {
            (None, Err(e)) => e == OpErrorModel::NotFound(id@),
            (Some(t), Err(_)) => t.external is Some || !(t.column is Doing),
            (Some(t), Ok(done)) => {
                &&& t.external is None && t.column is Doing
                &&& only_ticket_changed(s.board, done.0.board, id@)
                &&& done.0.board.ticket(id@) == Some(
                    TicketModel {
                        column: ColumnModel::Doing { owner: t.column->Doing_owner, branch: Some(branch@) },
                        ..t
                    },
                )
                &&& found(done.0.claims, id@) matches Some(c) && c.path == Some(path@) && c.agent == t.column->Doing_owner
                    && c.kind == ClaimKind::Work && match found(s.claims, id@) {
                    Some(before) => c.since == before.since,
                    None => c.since == now,
                }
                &&& forall|x: Text| x != id@ ==> #[trigger] found(done.0.claims, x) == found(s.claims, x)
            },
            _ => false,
        },
{
    if s.board.has_ticket(id@) {
        let t = s.board.ticket(id@)->0;
        lemma_named(s.board, id@);
        lemma_replaced(
            s.board,
            id@,
            TicketModel { column: ColumnModel::Doing { owner: t.column->Doing_owner, branch: Some(branch@) }, ..t },
        );
        let c = ClaimModel {
            ticket: id@,
            agent: t.column->Doing_owner,
            since: match found(s.claims, id@) {
                Some(c) => c.since,
                None => now,
            },
            path: Some(path@),
            kind: ClaimKind::Work,
        };
        lemma_claim_written(s.claims, c);
        assert(c.ticket == id@);
    }
}

/// Clearing a worktree's path always succeeds, touches no board, and takes nothing but the path off the claim.
pub proof fn clearing_takes_only_the_path(s: StateModel, id: TicketId, now: Timestamp)
    ensures
        transition_spec(Op::ClearWorktreePath { id }, s, now) matches Ok(done) && done.0.board == s.board
            && done.0.claims.len() == s.claims.len() && forall|i: int|
            0 <= i < s.claims.len() ==> #[trigger] done.0.claims[i] == if s.claims[i].ticket == id@ {
                ClaimModel { path: None, ..s.claims[i] }
            } else {
                s.claims[i]
            },
{
}

// ---- one field at a time --------------------------------------------------------------------------------------------

/// A patch writes exactly what it mentions: each field of the ticket holds what the patch says of it, and where the patch says
/// nothing of it, what it held. Everything else of the ticket, every other ticket, every epic and every claim stays.
pub proof fn a_patch_sets_what_it_mentions(s: StateModel, id: TicketId, patch: TicketPatch, now: Timestamp)
    ensures
        match (s.board.ticket(id@), transition_spec(Op::UpdateTicket { id, patch }, s, now)) {
            (None, Err(e)) => e == OpErrorModel::NotFound(id@),
            (Some(t), Ok(done)) => {
                let u = done.0.board.ticket(id@)->0;
                &&& done.0.board.has_ticket(id@)
                &&& patch.title matches Some(v) ==> u.title == v@
                &&& patch.title is None ==> u.title == t.title
                &&& patch.body matches Some(v) ==> u.body == v@
                &&& patch.body is None ==> u.body == t.body
                &&& patch.labels matches Some(v) ==> u.labels == models(v@)
                &&& patch.labels is None ==> u.labels == t.labels
                &&& patch.depends_on matches Some(v) ==> u.depends_on == models(v@)
                &&& patch.depends_on is None ==> u.depends_on == t.depends_on
                &&& patch.epic matches Some(v) ==> u.epic == opt_model(v)
                &&& patch.epic is None ==> u.epic == t.epic
                &&& patch.model matches Some(v) ==> u.model == opt_model(v)
                &&& patch.model is None ==> u.model == t.model
                &&& patch.effort matches Some(v) ==> u.effort == v
                &&& patch.effort is None ==> u.effort == t.effort
                &&& patch.auto_merge matches Some(v) ==> u.auto_merge == v
                &&& patch.auto_merge is None ==> u.auto_merge == t.auto_merge
                &&& u.id == t.id && u.status == t.status && u.notes == t.notes && u.external == t.external && u.pr == t.pr
                &&& u.changes_requested == t.changes_requested && u.accepted == t.accepted && u.landing_blocked
                    == t.landing_blocked && u.column == t.column
                &&& only_ticket_changed(s.board, done.0.board, id@)
                &&& done.0.claims == s.claims
                &&& done.1.created_ids.len() == 0 && done.1.result == PayloadModel::Touched { id: id@ }
            },
            _ => false,
        },
{
    if s.board.has_ticket(id@) {
        lemma_named(s.board, id@);
        lemma_replaced(s.board, id@, crate::ops::patched(s.board.ticket(id@)->0, patch));
    }
}

/// A patch of an epic writes exactly what it mentions, and nothing else on the board.
pub proof fn an_epic_patch_sets_what_it_mentions(s: StateModel, id: EpicId, patch: EpicPatch, now: Timestamp)
    ensures
        match (s.board.epic(id@), transition_spec(Op::UpdateEpic { id, patch }, s, now)) {
            (None, Err(e)) => e == OpErrorModel::NotFound(id@),
            (Some(e), Ok(done)) => {
                let u = done.0.board.epic(id@)->0;
                &&& done.0.board.has_epic(id@)
                &&& patch.title matches Some(v) ==> u.title == v@
                &&& patch.title is None ==> u.title == e.title
                &&& patch.color matches Some(v) ==> u.color == v@
                &&& patch.color is None ==> u.color == e.color
                &&& patch.body matches Some(v) ==> u.body == v@
                &&& patch.body is None ==> u.body == e.body
                &&& patch.auto_merge matches Some(v) ==> u.auto_merge == v
                &&& patch.auto_merge is None ==> u.auto_merge == e.auto_merge
                &&& u.id == e.id && u.status == e.status
                &&& only_epic_changed(s.board, done.0.board, id@)
                &&& done.0.claims == s.claims
            },
            _ => false,
        },
{
    if s.board.has_epic(id@) {
        lemma_epic_named(s.board, id@);
        lemma_epic_replaced(s.board, id@, crate::ops::patched_epic(s.board.epic(id@)->0, patch));
    }
}

/// Setting a ticket's status sets that and nothing else.
pub proof fn a_status_is_set_alone(s: StateModel, id: TicketId, status: Status, now: Timestamp)
    ensures
        match (s.board.ticket(id@), transition_spec(Op::SetTicketStatus { id, status }, s, now)) {
            (None, Err(e)) => e == OpErrorModel::NotFound(id@),
            (Some(t), Ok(done)) => {
                &&& done.0.board.ticket(id@) == Some(TicketModel { status, ..t })
                &&& only_ticket_changed(s.board, done.0.board, id@)
                &&& done.0.claims == s.claims
                &&& done.1.result == PayloadModel::StatusSet { id: id@, status }
            },
            _ => false,
        },
{
    if s.board.has_ticket(id@) {
        lemma_named(s.board, id@);
        lemma_replaced(s.board, id@, TicketModel { status, ..s.board.ticket(id@)->0 });
    }
}

/// Setting an epic's status sets that and nothing else.
pub proof fn an_epic_status_is_set_alone(s: StateModel, id: EpicId, status: Status, now: Timestamp)
    ensures
        match (s.board.epic(id@), transition_spec(Op::SetEpicStatus { id, status }, s, now)) {
            (None, Err(e)) => e == OpErrorModel::NotFound(id@),
            (Some(e), Ok(done)) => {
                &&& done.0.board.epic(id@) == Some(EpicModel { status, ..e })
                &&& only_epic_changed(s.board, done.0.board, id@)
                &&& done.0.claims == s.claims
            },
            _ => false,
        },
{
    if s.board.has_epic(id@) {
        lemma_epic_named(s.board, id@);
        lemma_epic_replaced(s.board, id@, EpicModel { status, ..s.board.epic(id@)->0 });
    }
}

/// A note is the last of the log, in its author's name and of this moment; every earlier note and every other field stays.
pub proof fn a_note_is_appended(s: StateModel, id: TicketId, text: String, author: Option<String>, now: Timestamp)
    ensures
        match (s.board.ticket(id@), transition_spec(Op::AddNote { id, text, author }, s, now)) {
            (None, Err(e)) => e == OpErrorModel::NotFound(id@),
            (Some(t), Ok(done)) => {
                let u = done.0.board.ticket(id@)->0;
                &&& done.0.board.has_ticket(id@)
                &&& u.notes.len() == t.notes.len() + 1 && u.notes.drop_last() == t.notes
                &&& u.notes.last() == (NoteModel { at: now, author: opt_model(author), text: text@ })
                &&& u == TicketModel { notes: u.notes, ..t }
                &&& only_ticket_changed(s.board, done.0.board, id@)
                &&& done.0.claims == s.claims
                &&& done.1.result == PayloadModel::Noted { id: id@, notes: u.notes.len() }
            },
            _ => false,
        },
{
    if s.board.has_ticket(id@) {
        let t = s.board.ticket(id@)->0;
        lemma_named(s.board, id@);
        lemma_replaced(s.board, id@, crate::ops::noted(t, opt_model(author), text@, now));
        assert(t.notes.push(NoteModel { at: now, author: opt_model(author), text: text@ }).drop_last() =~= t.notes);
    }
}

/// Binding writes the binding, or clears it, and nothing else.
pub proof fn a_binding_is_set_alone(s: StateModel, id: TicketId, external: Option<External>, now: Timestamp)
    ensures
        match (s.board.ticket(id@), transition_spec(Op::BindExternal { id, external }, s, now)) {
            (None, Err(e)) => e == OpErrorModel::NotFound(id@),
            (Some(t), Ok(done)) => {
                &&& external matches Some(e) ==> done.0.board.ticket(id@) == Some(TicketModel { external: Some(e@), ..t })
                &&& external is None ==> done.0.board.ticket(id@) == Some(TicketModel { external: None, ..t })
                &&& only_ticket_changed(s.board, done.0.board, id@)
                &&& done.0.claims == s.claims
            },
            _ => false,
        },
{
    if s.board.has_ticket(id@) {
        lemma_named(s.board, id@);
        lemma_replaced(s.board, id@, TicketModel { external: opt_model(external), ..s.board.ticket(id@)->0 });
    }
}

/// Recording a pull request writes it, or clears it, and nothing else.
pub proof fn a_request_is_recorded_alone(s: StateModel, id: TicketId, pr: Option<PrRef>, now: Timestamp)
    ensures
        match (s.board.ticket(id@), transition_spec(Op::SetPr { id, pr }, s, now)) {
            (None, Err(e)) => e == OpErrorModel::NotFound(id@),
            (Some(t), Ok(done)) => {
                &&& pr matches Some(p) ==> done.0.board.ticket(id@) == Some(TicketModel { pr: Some(p@), ..t })
                &&& pr is None ==> done.0.board.ticket(id@) == Some(TicketModel { pr: None, ..t })
                &&& only_ticket_changed(s.board, done.0.board, id@)
                &&& done.0.claims == s.claims
            },
            _ => false,
        },
{
    if s.board.has_ticket(id@) {
        lemma_named(s.board, id@);
        lemma_replaced(s.board, id@, TicketModel { pr: opt_model(pr), ..s.board.ticket(id@)->0 });
    }
}

// ---- creating -------------------------------------------------------------------------------------------------------

/// A created ticket is the last of the board, in `todo`, and holds every field it was given; it has no history, and its id is
/// worn by nothing else. Nothing that was there changes.
pub proof fn a_created_ticket_holds_what_it_was_given(
    s: StateModel,
    title: String,
    body: String,
    epic: Option<EpicId>,
    labels: Vec<String>,
    depends_on: Vec<TicketId>,
    status: Status,
    model: Option<String>,
    effort: Option<Effort>,
    auto_merge: bool,
    now: Timestamp,
)
    requires
        s.board.ticket_seq() < u64::MAX,
    ensures
        ({
            let op = Op::CreateTicket { title, body, epic, labels, depends_on, status, model, effort, auto_merge };
            transition_spec(op, s, now) matches Ok(done) && {
                let after = done.0.board;
                let u = after.tickets.last();
                &&& after.tickets.len() == s.board.tickets.len() + 1 && after.tickets.drop_last() == s.board.tickets
                &&& !ticket_ids(s.board.tickets).contains(u.id)
                &&& u.title == title@ && u.body == body@ && u.labels == models(labels@) && u.depends_on == models(depends_on@)
                &&& u.epic == opt_model(epic) && u.model == opt_model(model) && u.effort == effort
                &&& u.status == status && u.auto_merge == auto_merge
                &&& u.column is Todo && u.notes.len() == 0 && u.external is None && u.pr is None
                &&& !u.changes_requested && !u.accepted && !u.landing_blocked
                &&& after.epics == s.board.epics && done.0.claims == s.claims
                &&& done.1.created_ids == seq![u.id] && done.1.result == PayloadModel::Touched { id: u.id }
                &&& after.next_ticket_seq > s.board.next_ticket_seq && after.next_epic_seq == s.board.next_epic_seq
            }
        }),
{
    crate::store::model::next_ticket_id_is_fresh(s.board);
    let op = Op::CreateTicket { title, body, epic, labels, depends_on, status, model, effort, auto_merge };
    let after = transition_spec(op, s, now)->Ok_0.0.board;
    assert(after.tickets.drop_last() =~= s.board.tickets);
}

/// A created epic is the last of the board's, and holds every field it was given; without a colour of its own it gets one, by
/// turns, so that neighbours differ. Its id is worn by no other epic, and nothing that was there changes.
pub proof fn a_created_epic_holds_what_it_was_given(
    s: StateModel,
    title: String,
    color: Option<String>,
    body: String,
    status: Status,
    auto_merge: bool,
    now: Timestamp,
)
    requires
        s.board.epic_seq() < u64::MAX,
    ensures
        transition_spec(Op::CreateEpic { title, color, body, status, auto_merge }, s, now) matches Ok(done) && {
            let after = done.0.board;
            let e = after.epics.last();
            &&& after.epics.len() == s.board.epics.len() + 1 && after.epics.drop_last() == s.board.epics
            &&& !epic_ids(s.board.epics).contains(e.id)
            &&& e.title == title@ && e.body == body@ && e.status == status && e.auto_merge == auto_merge
            &&& color matches Some(c) ==> e.color == c@
            &&& color is None ==> e.color == crate::ops::palette(s.board.epics.len())
            &&& after.tickets == s.board.tickets && done.0.claims == s.claims
            &&& done.1.created_ids == seq![e.id] && done.1.result == PayloadModel::Touched { id: e.id }
            &&& after.next_epic_seq > s.board.next_epic_seq && after.next_ticket_seq == s.board.next_ticket_seq
        },
{
    crate::store::model::next_epic_id_is_fresh(s.board);
    let after = transition_spec(Op::CreateEpic { title, color, body, status, auto_merge }, s, now)->Ok_0.0.board;
    assert(after.epics.drop_last() =~= s.board.epics);
}

/// The default colours are eight, all different, and come round in turn.
pub proof fn default_colours_come_by_turns(m: nat, n: nat)
    ensures
        crate::ops::palette(m) == crate::ops::palette(n) <==> m % 8 == n % 8,
{
    reveal_strlit("#7c9cf5");
    reveal_strlit("#5cb8a7");
    reveal_strlit("#d4a45c");
    reveal_strlit("#c98bc9");
    reveal_strlit("#e08787");
    reveal_strlit("#8fb965");
    reveal_strlit("#5eb3d6");
    reveal_strlit("#a58fd6");
    let (a, b) = (crate::ops::palette(m), crate::ops::palette(n));
    if a == b {
        assert(a[1] == b[1] && a[2] == b[2]);
    }
}

// ---- deleting -------------------------------------------------------------------------------------------------------

proof fn lemma_texts_filtered(v: Seq<Text>, doomed: Seq<Text>)
    ensures
        crate::ops::texts_without(v, doomed) == v.filter(|x: Text| !doomed.contains(x)),
    decreases v.len(),
{
    reveal(Seq::filter);
    if v.len() > 0 {
        lemma_texts_filtered(v.drop_last(), doomed);
    }
}

/// The ticket without the dependencies on `doomed`, its other dependencies in their order.
pub open spec fn freed(t: TicketModel, doomed: Seq<Text>) -> TicketModel {
    TicketModel { depends_on: t.depends_on.filter(|x: Text| !doomed.contains(x)), ..t }
}

proof fn lemma_tickets_filtered(ts: Seq<TicketModel>, doomed: Seq<Text>)
    ensures
        crate::ops::tickets_without(ts, doomed) == ts.filter(|t: TicketModel| !doomed.contains(t.id)).map_values(
            |t: TicketModel| freed(t, doomed),
        ),
    decreases ts.len(),
{
    reveal(Seq::filter);
    let keep = |t: TicketModel| !doomed.contains(t.id);
    let free = |t: TicketModel| freed(t, doomed);
    if ts.len() > 0 {
        lemma_tickets_filtered(ts.drop_last(), doomed);
        lemma_texts_filtered(ts.last().depends_on, doomed);
        let before = ts.drop_last().filter(keep);
        if keep(ts.last()) {
            assert(before.push(ts.last()).map_values(free) =~= before.map_values(free).push(free(ts.last())));
        }
    } else {
        assert(ts.filter(keep).map_values(free) =~= Seq::<TicketModel>::empty());
    }
}

proof fn lemma_claims_filtered(cs: Seq<ClaimModel>, doomed: Seq<Text>)
    ensures
        crate::ops::claims_without(cs, doomed) == cs.filter(|c: ClaimModel| !doomed.contains(c.ticket)),
    decreases cs.len(),
{
    reveal(Seq::filter);
    if cs.len() > 0 {
        lemma_claims_filtered(cs.drop_last(), doomed);
    }
}

proof fn lemma_epics_filtered(es: Seq<EpicModel>, id: Text)
    ensures
        crate::ops::epics_without(es, id) == es.filter(|e: EpicModel| e.id != id),
    decreases es.len(),
{
    reveal(Seq::filter);
    if es.len() > 0 {
        lemma_epics_filtered(es.drop_last(), id);
    }
}

proof fn lemma_in_epic_filtered(ts: Seq<TicketModel>, epic: Text)
    ensures
        crate::ops::ids_in_epic(ts, epic) == ticket_ids(ts.filter(|t: TicketModel| t.epic == Some(epic))),
    decreases ts.len(),
{
    reveal(Seq::filter);
    let of = |t: TicketModel| t.epic == Some(epic);
    if ts.len() > 0 {
        lemma_in_epic_filtered(ts.drop_last(), epic);
        let before = ts.drop_last().filter(of);
        if of(ts.last()) {
            assert(ticket_ids(before.push(ts.last())) =~= ticket_ids(before).push(ts.last().id));
        }
    } else {
        assert(ticket_ids(ts.filter(of)) =~= Seq::<Text>::empty());
    }
}

/// Deleting a ticket succeeds exactly when it is there. It is gone, with the claim on it and every dependency on it; all other
/// tickets, dependencies, claims and epics stay, in their order.
pub proof fn deleting_takes_one_ticket(s: StateModel, id: TicketId, now: Timestamp)
    ensures
        match transition_spec(Op::DeleteTicket { id }, s, now) {
            Err(e) => !s.board.has_ticket(id@) && e == OpErrorModel::NotFound(id@),
            Ok(done) => {
                &&& s.board.has_ticket(id@)
                &&& done.0.board.tickets == s.board.tickets.filter(
                    |t: TicketModel| !seq![id@].contains(t.id),
                ).map_values(|t: TicketModel| freed(t, seq![id@]))
                &&& done.0.claims == s.claims.filter(|c: ClaimModel| !seq![id@].contains(c.ticket))
                &&& done.0.board.epics == s.board.epics && done.0.board.columns == s.board.columns
                &&& done.0.board.next_ticket_seq == s.board.next_ticket_seq && done.0.board.next_epic_seq
                    == s.board.next_epic_seq
                &&& done.1.created_ids.len() == 0 && done.1.result == PayloadModel::Deleted { id: id@ }
            },
        },
{
    lemma_tickets_filtered(s.board.tickets, seq![id@]);
    lemma_claims_filtered(s.claims, seq![id@]);
}

/// Deleting an epic succeeds exactly when it is there. It is gone, with all its tickets, the claims on them and every
/// dependency on them; all other epics, tickets, dependencies and claims stay, in their order. The tickets that went are
/// reported.
pub proof fn deleting_an_epic_takes_its_tickets(s: StateModel, id: EpicId, now: Timestamp)
    ensures
        match transition_spec(Op::DeleteEpic { id }, s, now) {
            Err(e) => !s.board.has_epic(id@) && e == OpErrorModel::NotFound(id@),
            Ok(done) => {
                let doomed = ticket_ids(s.board.tickets.filter(|t: TicketModel| t.epic == Some(id@)));
                &&& s.board.has_epic(id@)
                &&& done.0.board.epics == s.board.epics.filter(|e: EpicModel| e.id != id@)
                &&& done.0.board.tickets == s.board.tickets.filter(
                    |t: TicketModel| !doomed.contains(t.id),
                ).map_values(|t: TicketModel| freed(t, doomed))
                &&& done.0.claims == s.claims.filter(|c: ClaimModel| !doomed.contains(c.ticket))
                &&& done.0.board.columns == s.board.columns
                &&& done.0.board.next_ticket_seq == s.board.next_ticket_seq && done.0.board.next_epic_seq
                    == s.board.next_epic_seq
                &&& done.1.result == PayloadModel::DeletedEpic { id: id@, tickets: doomed }
            },
        },
{
    lemma_in_epic_filtered(s.board.tickets, id@);
    let doomed = ticket_ids(s.board.tickets.filter(|t: TicketModel| t.epic == Some(id@)));
    lemma_tickets_filtered(s.board.tickets, doomed);
    lemma_claims_filtered(s.claims, doomed);
    lemma_epics_filtered(s.board.epics, id@);
}

// ---- columns --------------------------------------------------------------------------------------------------------

/// A column shows the tickets that are in it and no others, in the board's order.
pub proof fn a_column_holds_its_tickets(ts: Seq<TicketModel>, c: ColumnId)
    ensures
        in_column(ts, c) == ts.filter(
            |t: TicketModel|
                match t.column {
                    ColumnModel::Todo => c == ColumnId::Todo,
                    ColumnModel::Doing { .. } => c == ColumnId::Doing,
                    ColumnModel::Review { .. } => c == ColumnId::Review,
                    ColumnModel::Done { .. } => c == ColumnId::Done,
                },
        ),
    decreases ts.len(),
{
    reveal(Seq::filter);
    if ts.len() > 0 {
        a_column_holds_its_tickets(ts.drop_last(), c);
    }
}

// ---- the store ------------------------------------------------------------------------------------------------------

/// An operation is applied whole or not at all. It starts from the board that is read, at the version expected of it where one
/// is; what it makes of the board and the claims is what is written, one version further, and what it reports is reported. It
/// fails where there is no such board to start from, where the operation is refused, and where the board it makes is not valid.
pub proof fn an_operation_is_applied_whole_or_not_at_all(s: crate::store::StoreModel, expected: Option<u64>, op: Op, now: Timestamp)
    ensures
        match (s.readable(), crate::ops::apply_spec(s, expected, op, now)) {
            (Err(why), Err(e)) => e == OpErrorModel::Store(why),
            (Ok(b), r) => {
                let at = StateModel { board: b, claims: s.claims };
                match (transition_spec(op, at, now), r) {
                    (Ok(made), Ok(done)) => {
                        &&& expected matches Some(v) ==> v == b.version
                        &&& crate::store::validate::valid(made.0.board)
                        &&& done.0.board == Some(
                            BoardModel { version: (made.0.board.version + 1) as u64, ..made.0.board },
                        )
                        &&& done.0.claims == made.0.claims
                        &&& done.0.dir == s.dir && done.0.board_pending
                        &&& done.1 == made.1
                    },
                    (Ok(made), Err(e)) => (expected matches Some(v) && v != b.version && e == OpErrorModel::Store(
                        crate::store::StoreErrorModel::VersionConflict { expected: v, actual: b.version },
                    )) || !crate::store::validate::valid(made.0.board),
                    (Err(why), Err(e)) => e == why || (expected matches Some(v) && v != b.version),
                    _ => false,
                }
            },
            _ => false,
        },
{
}

/// A board is read exactly when there is one, of no schema newer than is known, and valid once its counters are floored. What
/// is read has the tickets, epics and version that were stored, and counters above every id in use.
pub proof fn a_board_is_read_as_it_was_stored(s: crate::store::StoreModel)
    requires
        s.fits(),
    ensures
        match (s.board, s.readable()) {
            (None, Err(e)) => e is NotInitialized,
            (Some(b), Ok(r)) => {
                &&& b.schema <= crate::store::model::CURRENT_SCHEMA && r.schema == crate::store::model::CURRENT_SCHEMA
                &&& r.tickets == b.tickets && r.epics == b.epics && r.version == b.version
                &&& r.next_ticket_seq >= b.next_ticket_seq && r.next_epic_seq >= b.next_epic_seq
                &&& forall|i: int|
                    0 <= i < b.tickets.len() ==> crate::store::model::suffix((#[trigger] b.tickets[i]).id, "K-"@)
                        < r.next_ticket_seq
                &&& forall|i: int|
                    0 <= i < b.epics.len() ==> crate::store::model::suffix((#[trigger] b.epics[i]).id, "EP-"@) < r.next_epic_seq
                &&& b.schema == crate::store::model::CURRENT_SCHEMA ==> r.columns == b.columns
                &&& crate::store::validate::valid(r)
            },
            (Some(b), Err(e)) => (b.schema > crate::store::model::CURRENT_SCHEMA && e is NewerSchema) || (e is Invalid && (
            b.schema == crate::store::model::CURRENT_SCHEMA ==> !crate::store::validate::valid(b))),
            _ => false,
        },
{
    if let Some(b) = s.board {
        assert forall|i: int| 0 <= i < b.tickets.len() implies crate::store::model::suffix(
            (#[trigger] b.tickets[i]).id,
            "K-"@,
        ) <= crate::store::model::top_suffix(ticket_ids(b.tickets), "K-"@) by {
            crate::store::model::lemma_top_suffix(ticket_ids(b.tickets), "K-"@, i);
            assert(ticket_ids(b.tickets)[i] == b.tickets[i].id);
        }
        assert forall|i: int| 0 <= i < b.epics.len() implies crate::store::model::suffix(
            (#[trigger] b.epics[i]).id,
            "EP-"@,
        ) <= crate::store::model::top_suffix(epic_ids(b.epics), "EP-"@) by {
            crate::store::model::lemma_top_suffix(epic_ids(b.epics), "EP-"@, i);
            assert(epic_ids(b.epics)[i] == b.epics[i].id);
        }
        let m = crate::store::model::migrated(b);
        if b.schema == crate::store::model::CURRENT_SCHEMA {
            assert(crate::store::validate::problems(m) == crate::store::validate::problems(b));
        }
    }
}

/// An older board gains the `review` column where it lacks one, right before `done`, and keeps every column it has.
pub proof fn an_older_board_gains_review(b: BoardModel)
    requires
        b.schema < crate::store::model::CURRENT_SCHEMA,
    ensures
        ({
            let cs = b.columns;
            let after = crate::store::model::migrated(b).columns;
            let there = exists|i: int| 0 <= i < cs.len() && (#[trigger] cs[i]).id == ColumnId::Review;
            &&& there ==> after == cs
            &&& !there ==> exists|p: int|
                0 <= p <= cs.len() && after == #[trigger] cs.insert(
                    p,
                    crate::store::model::ColumnMetaModel { id: ColumnId::Review, title: "Review"@ },
                ) && (p < cs.len() ==> cs[p].id == ColumnId::Done) && forall|i: int|
                    0 <= i < p ==> (#[trigger] cs[i]).id != ColumnId::Done
        }),
{
    let cs = b.columns;
    let ids = Seq::new(cs.len(), |i: int| cs[i].id);
    lemma_position_least(ids, ColumnId::Review);
    lemma_position_least(ids, ColumnId::Done);
    let p = crate::store::model::column_at(cs, ColumnId::Done);
    if exists|i: int| 0 <= i < cs.len() && (#[trigger] cs[i]).id == ColumnId::Review {
        let i = choose|i: int| 0 <= i < cs.len() && (#[trigger] cs[i]).id == ColumnId::Review;
        assert(ids[i] == ColumnId::Review);
    } else {
        if crate::store::model::column_at(cs, ColumnId::Review) < cs.len() {
            assert(cs[crate::store::model::column_at(cs, ColumnId::Review)].id == ColumnId::Review);
        }
        assert forall|i: int| 0 <= i < p implies (#[trigger] cs[i]).id != ColumnId::Done by {
            assert(ids[i] != ColumnId::Done);
        }
        if p < cs.len() {
            assert(ids[p] == ColumnId::Done);
        }
        let r = crate::store::model::ColumnMetaModel { id: ColumnId::Review, title: "Review"@ };
        assert(crate::store::model::migrated(b).columns == cs.insert(p, r));
    }
}

} // verus!
