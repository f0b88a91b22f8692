//! What holds of the operations on a board, whatever the board: proved from what [`crate::ops`] states of each of them.
use vstd::prelude::*;

use crate::ops::{
    answered, apply_spec, asked, claim_spec, claims_without, cleared, closed, discard_spec, epics_added, epics_without, handed_back,
    ids_fit, ids_in_epic, land_spec, members, move_spec, moved, new_claim, next_state, noted, place, release_spec, repositioned,
    request_spec, retitled, stamp_spec, texts_without, tickets_without, transition_spec, with_ticket, Op, OpErrorModel, StateModel,
};
use crate::land::{
    is_watched, observed, only_review_tickets_are_swept, remembered, sweep_spec, swept, verdict_spec, watched, KnownModel,
    LandingModel, SweepModel, VerdictModel,
};
use crate::seqs::{lemma_position, lemma_position_least, opt_model, position};
use crate::store::claims::{claim_at, claimed, found, one_each, remove_then_find, upsert_then_find, ClaimModel};
use crate::store::derive::{is_blocked, landed};
use crate::store::model::{
    epic_ids, in_column, ticket_ids, BoardModel, ColumnId, ColumnModel, EpicModel, Status, TicketModel,
};
use crate::store::validate::{
    acyclic, asking_less_keeps_boards_acyclic, asks_no_more, counts, references_sound, valid, valid_boards,
};
use crate::store::StoreModel;
use crate::text::{trim_spec, Text};
use crate::time::Timestamp;

verus! {

// ---- priority -------------------------------------------------------------------------------------------------------

proof fn lemma_in_column_insert(ts: Seq<TicketModel>, p: int, t: TicketModel, column: ColumnId)
    requires
        0 <= p <= ts.len(),
    ensures
        t.column.id() != column ==> in_column(ts.insert(p, t), column) == in_column(ts, column),
        t.column.id() == column ==> in_column(ts.insert(p, t), column) == in_column(ts, column).insert(
            in_column(ts.take(p), column).len() as int,
            t,
        ) && in_column(ts.take(p), column).len() <= in_column(ts, column).len(),
    decreases ts.len(),
{
    let after = ts.insert(p, t);
    if p == ts.len() {
        assert(after.drop_last() =~= ts);
        assert(ts.take(p) =~= ts);
        if t.column.id() == column {
            assert(in_column(after, column) =~= in_column(ts, column).insert(in_column(ts, column).len() as int, t));
        }
    } else {
        let front = ts.drop_last();
        assert(after.drop_last() =~= front.insert(p, t));
        assert(after.last() == ts.last());
        assert(front.take(p) =~= ts.take(p));
        lemma_in_column_insert(front, p, t, column);
        if t.column.id() == column && ts.last().column.id() == column {
            let k = in_column(ts.take(p), column).len() as int;
            assert(in_column(front, column).insert(k, t).push(ts.last()) =~= in_column(front, column).push(ts.last()).insert(
                k,
                t,
            ));
        }
    }
}

pub(crate) proof fn lemma_members_count(ts: Seq<TicketModel>, column: ColumnId)
    ensures
        members(ts, column).len() == in_column(ts, column).len(),
        forall|k: int|
            0 <= k < members(ts, column).len() ==> 0 <= (#[trigger] members(ts, column)[k]) < ts.len() && in_column(
                ts.take(members(ts, column)[k]),
                column,
            ).len() == k,
        members(ts, column).len() > 0 ==> in_column(ts.take(members(ts, column).last() + 1), column).len() == members(
            ts,
            column,
        ).len(),
    decreases ts.len(),
{
    if ts.len() > 0 {
        let front = ts.drop_last();
        lemma_members_count(front, column);
        let m = members(ts, column);
        assert forall|k: int| 0 <= k < m.len() implies 0 <= (#[trigger] m[k]) < ts.len() && in_column(
            ts.take(m[k]),
            column,
        ).len() == k by {
            if k < members(front, column).len() {
                assert(front.take(m[k]) =~= ts.take(m[k]));
            } else {
                assert(ts.take(m[k]) =~= front);
            }
        }
        if m.len() > 0 {
            if ts.last().column.id() == column {
                assert(ts.take(m.last() + 1) =~= ts);
            } else {
                assert(front.take(m.last() + 1) =~= ts.take(m.last() + 1));
            }
        }
    }
}

/// Repositioning a ticket of a column puts it where it was asked to go among that column's tickets, at the bottom when
/// that is past the end or nothing was asked, and changes nobody else's order in any column.
pub proof fn repositioning_moves_one_ticket(ts: Seq<TicketModel>, id: Text, at: Option<usize>, other: ColumnId)
    requires
        position(ticket_ids(ts), id) < ts.len(),
    ensures
        ({
            let i = position(ticket_ids(ts), id);
            let t = ts[i];
            let rest = ts.remove(i);
            let column = t.column.id();
            let among = in_column(rest, column);
            let rank = match at {
                Some(p) => if p < among.len() {
                    p as int
                } else {
                    among.len() as int
                },
                None => among.len() as int,
            };
            let after = repositioned(ts, id, column, at);
            &&& after.len() == ts.len()
            &&& after.remove(place(rest, column, at)) == rest
            &&& in_column(after, column) == among.insert(rank, t)
            &&& other != column ==> in_column(after, other) == in_column(rest, other)
        }),
{
    lemma_position_least(ticket_ids(ts), id);
    let i = position(ticket_ids(ts), id);
    let t = ts[i];
    let rest = ts.remove(i);
    let column = t.column.id();
    let p = place(rest, column, at);
    lemma_members_count(rest, column);
    let m = members(rest, column);
    if m.len() > 0 {
        assert(m.last() == m[m.len() - 1]);
    }
    assert(0 <= p <= rest.len());
    let after = repositioned(ts, id, column, at);
    assert(after == rest.insert(p, t));
    assert(after.remove(p) =~= rest);
    if m.len() == 0 && p == rest.len() {
        assert(rest.take(p) =~= rest);
    }
    lemma_in_column_insert(rest, p, t, column);
    if other != column {
        lemma_in_column_insert(rest, p, t, other);
    }
}

// ---- deleting -------------------------------------------------------------------------------------------------------

proof fn lemma_texts_without(s: Seq<Text>, doomed: Seq<Text>, x: Text)
    ensures
        texts_without(s, doomed).contains(x) <==> s.contains(x) && !doomed.contains(x),
    decreases s.len(),
{
    if s.len() > 0 {
        let front = s.drop_last();
        let before = texts_without(front, doomed);
        lemma_texts_without(front, doomed, x);
        let r = texts_without(s, doomed);
        if r.contains(x) {
            let k = choose|k: int| 0 <= k < r.len() && r[k] == x;
            if k < before.len() {
                assert(before[k] == x);
                let j = choose|j: int| 0 <= j < front.len() && front[j] == x;
                assert(s[j] == x);
            } else {
                assert(s[s.len() - 1] == x);
            }
        }
        if s.contains(x) && !doomed.contains(x) {
            let j = choose|j: int| 0 <= j < s.len() && s[j] == x;
            if j < front.len() {
                assert(front[j] == x);
                let k = choose|k: int| 0 <= k < before.len() && before[k] == x;
                assert(r[k] == x);
            } else {
                assert(r[r.len() - 1] == x);
            }
        }
    }
}

proof fn lemma_survivor(ts: Seq<TicketModel>, doomed: Seq<Text>, k: int) -> (j: int)
    requires
        0 <= k < tickets_without(ts, doomed).len(),
    ensures
        0 <= j < ts.len(),
        !doomed.contains(ts[j].id),
        tickets_without(ts, doomed)[k] == (TicketModel {
            depends_on: texts_without(ts[j].depends_on, doomed),
            ..ts[j]
        }),
    decreases ts.len(),
{
    let front = ts.drop_last();
    if k < tickets_without(front, doomed).len() {
        let j = lemma_survivor(front, doomed, k);
        assert(front[j] == ts[j]);
        j
    } else {
        ts.len() - 1
    }
}

/// Deleting tickets leaves nothing that names them: no ticket wears a deleted id, none depends on one, and no claim is on
/// one. A survivor keeps every other field.
pub proof fn deleting_leaves_nothing_dangling(ts: Seq<TicketModel>, cs: Seq<ClaimModel>, doomed: Seq<Text>)
    ensures
        forall|k: int|
            0 <= k < tickets_without(ts, doomed).len() ==> {
                let t = #[trigger] tickets_without(ts, doomed)[k];
                &&& !doomed.contains(t.id)
                &&& forall|d: int| 0 <= d < t.depends_on.len() ==> !doomed.contains(#[trigger] t.depends_on[d])
                &&& exists|j: int| 0 <= j < ts.len() && t == (TicketModel { depends_on: t.depends_on, ..(#[trigger] ts[j]) })
            },
        forall|k: int|
            0 <= k < claims_without(cs, doomed).len() ==> !doomed.contains((#[trigger] claims_without(cs, doomed)[k]).ticket),
{
    assert forall|k: int| 0 <= k < tickets_without(ts, doomed).len() implies {
        let t = #[trigger] tickets_without(ts, doomed)[k];
        &&& !doomed.contains(t.id)
        &&& forall|d: int| 0 <= d < t.depends_on.len() ==> !doomed.contains(#[trigger] t.depends_on[d])
        &&& exists|j: int| 0 <= j < ts.len() && t == (TicketModel { depends_on: t.depends_on, ..(#[trigger] ts[j]) })
    } by {
        let j = lemma_survivor(ts, doomed, k);
        let t = tickets_without(ts, doomed)[k];
        assert forall|d: int| 0 <= d < t.depends_on.len() implies !doomed.contains(#[trigger] t.depends_on[d]) by {
            lemma_texts_without(ts[j].depends_on, doomed, t.depends_on[d]);
            assert(texts_without(ts[j].depends_on, doomed).contains(t.depends_on[d]));
        }
        assert(t == (TicketModel { depends_on: t.depends_on, ..ts[j] }));
    }
    assert forall|k: int| 0 <= k < claims_without(cs, doomed).len() implies !doomed.contains(
        (#[trigger] claims_without(cs, doomed)[k]).ticket,
    ) by {
        lemma_claim_survivor(cs, doomed, k);
    }
}

proof fn lemma_claim_survivor(cs: Seq<ClaimModel>, doomed: Seq<Text>, k: int)
    requires
        0 <= k < claims_without(cs, doomed).len(),
    ensures
        !doomed.contains(claims_without(cs, doomed)[k].ticket),
    decreases cs.len(),
{
    if k < claims_without(cs.drop_last(), doomed).len() {
        lemma_claim_survivor(cs.drop_last(), doomed, k);
    }
}

proof fn lemma_kept(ts: Seq<TicketModel>, doomed: Seq<Text>, j: int) -> (k: int)
    requires
        0 <= j < ts.len(),
        !doomed.contains(ts[j].id),
    ensures
        0 <= k < tickets_without(ts, doomed).len(),
        tickets_without(ts, doomed)[k] == (TicketModel {
            depends_on: texts_without(ts[j].depends_on, doomed),
            ..ts[j]
        }),
    decreases ts.len(),
{
    if j == ts.len() - 1 {
        tickets_without(ts, doomed).len() - 1
    } else {
        let k = lemma_kept(ts.drop_last(), doomed, j);
        k
    }
}

/// Deleting an epic takes exactly its tickets: every ticket of another epic, or of none, that does not share an id with
/// one of them survives.
pub proof fn deleting_an_epic_spares_other_tickets(ts: Seq<TicketModel>, epic: Text, j: int)
    requires
        0 <= j < ts.len(),
        ts[j].epic != Some(epic),
        ticket_ids(ts).no_duplicates(),
    ensures
        exists|k: int|
            0 <= k < tickets_without(ts, ids_in_epic(ts, epic)).len() && (#[trigger] tickets_without(
                ts,
                ids_in_epic(ts, epic),
            )[k]).id == ts[j].id,
{
    let doomed = ids_in_epic(ts, epic);
    if doomed.contains(ts[j].id) {
        let d = choose|d: int| 0 <= d < doomed.len() && doomed[d] == ts[j].id;
        let i = lemma_doomed(ts, epic, d);
        assert(ticket_ids(ts)[i] == ts[i].id && ticket_ids(ts)[j] == ts[j].id);
    }
    let k = lemma_kept(ts, doomed, j);
    assert(tickets_without(ts, doomed)[k].id == ts[j].id);
}

proof fn lemma_doomed(ts: Seq<TicketModel>, epic: Text, d: int) -> (i: int)
    requires
        0 <= d < ids_in_epic(ts, epic).len(),
    ensures
        0 <= i < ts.len(),
        ts[i].epic == Some(epic),
        ts[i].id == ids_in_epic(ts, epic)[d],
    decreases ts.len(),
{
    if d < ids_in_epic(ts.drop_last(), epic).len() {
        lemma_doomed(ts.drop_last(), epic, d)
    } else {
        ts.len() - 1
    }
}

proof fn lemma_unique_without(ts: Seq<TicketModel>, doomed: Seq<Text>)
    requires
        ticket_ids(ts).no_duplicates(),
    ensures
        ticket_ids(tickets_without(ts, doomed)).no_duplicates(),
    decreases ts.len(),
{
    if ts.len() > 0 {
        let front = ts.drop_last();
        assert(ticket_ids(front) =~= ticket_ids(ts).drop_last());
        lemma_unique_without(front, doomed);
        let before = tickets_without(front, doomed);
        let all = ticket_ids(tickets_without(ts, doomed));
        if !doomed.contains(ts.last().id) {
            assert forall|k: int| 0 <= k < before.len() implies ticket_ids(before)[k] != ts.last().id by {
                let j = lemma_survivor(front, doomed, k);
                assert(ticket_ids(ts)[j] == front[j].id && ticket_ids(ts)[ts.len() - 1] == ts.last().id);
            }
            assert(all =~= ticket_ids(before).push(ts.last().id));
        }
    }
}

proof fn lemma_sound_without(ts: Seq<TicketModel>, doomed: Seq<Text>)
    requires
        references_sound(ts),
        acyclic(ts),
    ensures
        references_sound(tickets_without(ts, doomed)),
        acyclic(tickets_without(ts, doomed)),
{
    let us = tickets_without(ts, doomed);
    assert forall|i: int, d: int| 0 <= i < us.len() && 0 <= d < us[i].depends_on.len() implies counts(
        us,
        us[i].id,
        #[trigger] us[i].depends_on[d],
    ) by {
        let j = lemma_survivor(ts, doomed, i);
        let dep = us[i].depends_on[d];
        lemma_texts_without(ts[j].depends_on, doomed, dep);
        assert(us[i].depends_on.contains(dep));
        let e = choose|e: int| 0 <= e < ts[j].depends_on.len() && ts[j].depends_on[e] == dep;
        assert(counts(ts, ts[j].id, ts[j].depends_on[e]));
        let m = choose|m: int| 0 <= m < ts.len() && ticket_ids(ts)[m] == dep;
        let k = lemma_kept(ts, doomed, m);
        assert(ticket_ids(us)[k] == dep);
    }
    assert forall|i: int| 0 <= i < us.len() implies exists|j: int|
        0 <= j < ts.len() && asks_no_more(#[trigger] us[i], #[trigger] ts[j]) by {
        let j = lemma_survivor(ts, doomed, i);
        assert forall|dep: Text| #[trigger] us[i].depends_on.contains(dep) implies ts[j].depends_on.contains(dep) by {
            lemma_texts_without(ts[j].depends_on, doomed, dep);
        }
        assert(asks_no_more(us[i], ts[j]));
    }
    asking_less_keeps_boards_acyclic(us, ts);
}

proof fn lemma_epics_without(es: Seq<EpicModel>, id: Text)
    requires
        epic_ids(es).no_duplicates(),
    ensures
        epic_ids(epics_without(es, id)).no_duplicates(),
        forall|x: Text|
            #[trigger] epic_ids(epics_without(es, id)).contains(x) <==> epic_ids(es).contains(x) && x != id,
    decreases es.len(),
{
    if es.len() > 0 {
        let front = es.drop_last();
        assert(epic_ids(front) =~= epic_ids(es).drop_last());
        lemma_epics_without(front, id);
        let before = epic_ids(epics_without(front, id));
        let all = epic_ids(epics_without(es, id));
        let last = es.last().id;
        assert(epic_ids(es) =~= epic_ids(front).push(last));
        assert(!epic_ids(front).contains(last)) by {
            if epic_ids(front).contains(last) {
                let k = choose|k: int| 0 <= k < front.len() && epic_ids(front)[k] == last;
                assert(epic_ids(es)[k] == epic_ids(es)[es.len() - 1]);
            }
        }
        if last == id {
            assert(all =~= before);
        } else {
            assert(all =~= before.push(last));
            assert(!before.contains(last));
        }
        assert forall|x: Text| #[trigger] all.contains(x) <==> epic_ids(es).contains(x) && x != id by {
            assert(before.contains(x) <==> epic_ids(front).contains(x) && x != id);
            lemma_contains_push(epic_ids(front), last, x);
            lemma_contains_push(before, last, x);
        }
    }
}

proof fn lemma_contains_push(s: Seq<Text>, y: Text, x: Text)
    ensures
        s.push(y).contains(x) <==> s.contains(x) || x == y,
{
    if s.contains(x) {
        let k = choose|k: int| 0 <= k < s.len() && s[k] == x;
        assert(s.push(y)[k] == x);
    }
    if x == y {
        assert(s.push(y)[s.len() as int] == x);
    }
}

proof fn lemma_in_epic(ts: Seq<TicketModel>, epic: Text, j: int)
    requires
        0 <= j < ts.len(),
        ts[j].epic == Some(epic),
    ensures
        ids_in_epic(ts, epic).contains(ts[j].id),
    decreases ts.len(),
{
    let front = ts.drop_last();
    let (before, all) = (ids_in_epic(front, epic), ids_in_epic(ts, epic));
    if j == ts.len() - 1 {
        assert(all[all.len() - 1] == ts[j].id);
    } else {
        lemma_in_epic(front, epic, j);
        let k = choose|k: int| 0 <= k < before.len() && before[k] == ts[j].id;
        assert(all[k] == ts[j].id);
    }
}

/// Deleting a ticket, or an epic with its tickets, keeps a valid board valid: nothing is left that names what is gone, and
/// no cycle comes of it.
pub proof fn deleting_keeps_a_valid_board_valid(op: Op, s: StateModel, now: Timestamp)
    requires
        op is DeleteTicket || op is DeleteEpic,
        valid(s.board),
    ensures
        transition_spec(op, s, now) matches Ok(done) ==> valid(done.0.board),
{
    let b = s.board;
    valid_boards(b);
    if let Ok(done) = transition_spec(op, s, now) {
        let c = done.0.board;
        let doomed = match op {
            Op::DeleteTicket { id } => seq![id@],
            Op::DeleteEpic { id } => ids_in_epic(b.tickets, id@),
            _ => Seq::empty(),
        };
        assert(c.tickets == tickets_without(b.tickets, doomed));
        lemma_unique_without(b.tickets, doomed);
        lemma_sound_without(b.tickets, doomed);
        if let Op::DeleteEpic { id } = op {
            lemma_epics_without(b.epics, id@);
        }
        assert forall|i: int| 0 <= i < c.tickets.len() implies ((#[trigger] c.tickets[i]).epic matches Some(e) ==> epic_ids(
            c.epics,
        ).contains(e)) by {
            let j = lemma_survivor(b.tickets, doomed, i);
            assert(c.tickets[i].epic == b.tickets[j].epic);
            if let Op::DeleteEpic { id } = op {
                if b.tickets[j].epic == Some(id@) {
                    lemma_in_epic(b.tickets, id@, j);
                }
            }
        }
        valid_boards(c);
    }
}

// ---- claiming -------------------------------------------------------------------------------------------------------

pub(crate) proof fn lemma_replaced(b: BoardModel, id: Text, t: TicketModel)
    requires
        b.has_ticket(id),
        t.id == id,
    ensures
        with_ticket(b, id, t).ticket(id) == Some(t),
        with_ticket(b, id, t).ticket_at(id) == b.ticket_at(id),
        b.tickets[b.ticket_at(id)].id == id,
        0 <= b.ticket_at(id) < b.tickets.len(),
{
    lemma_position_least(ticket_ids(b.tickets), id);
    assert(ticket_ids(b.tickets)[b.ticket_at(id)] == b.tickets[b.ticket_at(id)].id);
    assert(ticket_ids(with_ticket(b, id, t).tickets) =~= ticket_ids(b.tickets));
}

/// Whoever claims a ticket has it: the card says so, the claim names them, and every further claim is refused, the
/// claimant's own too.
pub proof fn a_claim_shuts_everyone_else_out(s: StateModel, id: Text, agent: Text, other: Text, now: Timestamp, later: Timestamp)
    requires
        one_each(s.claims),
        claim_spec(s, id, agent, now) is Ok,
    ensures
        ({
            let after = claim_spec(s, id, agent, now)->Ok_0;
            &&& after.board.ticket(id) matches Some(t) && t.column matches ColumnModel::Doing { owner, .. } && owner == agent
            &&& found(after.claims, id) == Some(new_claim(id, agent, now))
            &&& claim_spec(after, id, other, later) == Err::<StateModel, OpErrorModel>(
                OpErrorModel::AlreadyClaimed { id, agent },
            )
        }),
{
    upsert_then_find(s.claims, new_claim(id, agent, now), id);
    let t = s.board.ticket(id)->0;
    lemma_position_least(ticket_ids(s.board.tickets), id);
    assert(ticket_ids(s.board.tickets)[s.board.ticket_at(id)] == t.id);
    lemma_replaced(
        s.board,
        id,
        TicketModel { column: ColumnModel::Doing { owner: agent, branch: t.column.branch() }, ..t },
    );
}

/// Only ready or stub tickets whose dependencies have all landed, that nobody has claimed and that are not done, can be
/// claimed.
pub proof fn claiming_honours_the_handoff_contract(s: StateModel, id: Text, agent: Text, now: Timestamp)
    requires
        claim_spec(s, id, agent, now) is Ok,
    ensures
        s.board.ticket(id) matches Some(t) && (t.status == Status::Ready || t.status == Status::Stub) && !is_blocked(
            t,
            s.board,
        ) && !(t.column is Done) && found(s.claims, id) is None,
{
}

pub(crate) proof fn lemma_moved_ticket(b: BoardModel, id: Text, c: ColumnModel, at: Option<usize>)
    requires
        b.has_ticket(id),
        ticket_ids(b.tickets).no_duplicates(),
    ensures
        moved(b, id, c, at).has_ticket(id),
        moved(b, id, c, at).ticket(id) == Some(TicketModel { column: c, ..b.ticket(id)->0 }),
{
    let i = b.ticket_at(id);
    let t = TicketModel { column: c, ..b.tickets[i] };
    lemma_position_least(ticket_ids(b.tickets), id);
    assert(ticket_ids(b.tickets)[i] == b.tickets[i].id);
    lemma_replaced(b, id, t);
    let ts = with_ticket(b, id, t).tickets;
    assert(ticket_ids(ts) =~= ticket_ids(b.tickets));
    let rest = ts.remove(i);
    let p = place(rest, c.id(), at);
    lemma_members_count(rest, c.id());
    let after = moved(b, id, c, at).tickets;
    assert(after == rest.insert(p, t));
    assert forall|j: int| 0 <= j < p implies ticket_ids(after)[j] != id by {
        let k = if j < i {
            j
        } else {
            j + 1
        };
        assert(after[j] == ts[k]);
        assert(ticket_ids(ts)[k] != ticket_ids(ts)[i]);
    }
    assert(ticket_ids(after)[p] == id);
    lemma_position(ticket_ids(after), id, p);
}

/// Releasing undoes a claim: nothing is recorded on the ticket any more, and the card is the first of `todo`.
pub proof fn releasing_undoes_a_claim(s: StateModel, id: Text)
    requires
        one_each(s.claims),
        ticket_ids(s.board.tickets).no_duplicates(),
        release_spec(s, id) is Ok,
    ensures
        ({
            let after = release_spec(s, id)->Ok_0;
            &&& found(after.claims, id) is None
            &&& after.board.ticket(id) matches Some(t) && t.column is Todo
            &&& in_column(after.board.tickets, ColumnId::Todo).len() > 0
            &&& in_column(after.board.tickets, ColumnId::Todo)[0].id == id
        }),
{
    remove_then_find(s.claims, id, id);
    lemma_moved_ticket(s.board, id, ColumnModel::Todo, Some(0));
    let i = s.board.ticket_at(id);
    lemma_position_least(ticket_ids(s.board.tickets), id);
    assert(ticket_ids(s.board.tickets)[i] == s.board.tickets[i].id);
    let t = TicketModel { column: ColumnModel::Todo, ..s.board.tickets[i] };
    lemma_replaced(s.board, id, t);
    let ts = with_ticket(s.board, id, t).tickets;
    assert(ticket_ids(ts) =~= ticket_ids(s.board.tickets));
    repositioning_moves_one_ticket(ts, id, Some(0), ColumnId::Todo);
}

/// Entering `review` or `done` leaves no claim on the ticket.
pub proof fn closing_out_drops_the_claim(
    s: StateModel,
    id: Text,
    to: ColumnId,
    at: Option<usize>,
    owner: Option<Text>,
    branch: Option<Text>,
    now: Timestamp,
)
    requires
        one_each(s.claims),
        to == ColumnId::Review || to == ColumnId::Done,
        move_spec(s, id, to, at, owner, branch, now) is Ok,
    ensures
        found(move_spec(s, id, to, at, owner, branch, now)->Ok_0.claims, id) is None,
{
    remove_then_find(s.claims, id, id);
}

/// Stamping a worktree and clearing its path again keeps the claim, without the path.
pub proof fn clearing_a_path_keeps_the_claim(s: StateModel, id: Text, branch: Text, path: Text, now: Timestamp)
    requires
        one_each(s.claims),
        stamp_spec(s, id, branch, path, now) is Ok,
    ensures
        ({
            let stamped = stamp_spec(s, id, branch, path, now)->Ok_0.claims;
            &&& found(stamped, id) matches Some(c) && c.path == Some(path)
            &&& found(cleared(stamped, id), id) matches Some(c) && c.path is None && c.agent == found(stamped, id)->0.agent
        }),
{
    let stamped = stamp_spec(s, id, branch, path, now)->Ok_0.claims;
    let owner = s.board.ticket(id)->0.column->Doing_owner;
    let c = ClaimModel {
        ticket: id,
        agent: owner,
        since: match found(s.claims, id) {
            Some(c) => c.since,
            None => now,
        },
        path: Some(path),
        kind: crate::store::claims::ClaimKind::Work,
    };
    upsert_then_find(s.claims, c, id);
    lemma_position_least(claimed(stamped), id);
    assert(claimed(stamped)[claim_at(stamped, id)] == stamped[claim_at(stamped, id)].ticket);
    assert(claimed(cleared(stamped, id)) =~= claimed(stamped));
}

// ---- landing --------------------------------------------------------------------------------------------------------

/// A landing happens only from `review` and only on the branch the evidence was about, and it never discards.
pub proof fn landing_needs_fresh_evidence(s: StateModel, id: Text, expected: Option<Text>, reason: Text, now: Timestamp)
    requires
        land_spec(s, id, expected, reason, now) is Ok,
        ticket_ids(s.board.tickets).no_duplicates(),
    ensures
        s.board.ticket(id) matches Some(t) && t.column == (ColumnModel::Review { branch: expected }),
        land_spec(s, id, expected, reason, now)->Ok_0.board.ticket(id) matches Some(t) && t.column.landed()
            && t.column.branch() == expected && t.notes.len() == s.board.ticket(id)->0.notes.len() + 1 && t.notes.last().text
            == reason,
{
    lemma_closed(s, id, ColumnModel::Done { branch: expected, completed_at: now, discarded: false }, reason, now);
}

proof fn lemma_closed(s: StateModel, id: Text, c: ColumnModel, reason: Text, now: Timestamp)
    requires
        s.board.has_ticket(id),
        ticket_ids(s.board.tickets).no_duplicates(),
    ensures
        closed(s, id, c, reason, now).board.ticket(id) == Some(
            TicketModel {
                column: c,
                ..noted(s.board.ticket(id)->0, Some("kanban"@), reason, now)
            },
        ),
{
    let t = s.board.ticket(id)->0;
    let n = noted(t, Some("kanban"@), reason, now);
    lemma_position_least(ticket_ids(s.board.tickets), id);
    assert(ticket_ids(s.board.tickets)[s.board.ticket_at(id)] == t.id);
    lemma_replaced(s.board, id, n);
    let b = with_ticket(s.board, id, n);
    assert(ticket_ids(b.tickets) =~= ticket_ids(s.board.tickets));
    lemma_moved_ticket(b, id, c, None);
}

/// Discarding closes the ticket without landing it, so whatever depends on it stays blocked.
pub proof fn discarding_never_unblocks(s: StateModel, id: Text, reason: Text, now: Timestamp, dependent: TicketModel, d: int)
    requires
        discard_spec(s, id, reason, now) is Ok,
        ticket_ids(s.board.tickets).no_duplicates(),
        0 <= d < dependent.depends_on.len(),
        dependent.depends_on[d] == id,
    ensures
        is_blocked(dependent, discard_spec(s, id, reason, now)->Ok_0.board),
{
    let t = s.board.ticket(id)->0;
    let c = ColumnModel::Done { branch: t.column.branch(), completed_at: now, discarded: true };
    lemma_closed(s, id, c, reason, now);
    assert(!landed(discard_spec(s, id, reason, now)->Ok_0.board, dependent.depends_on[d]));
}

// ---- sweeping -------------------------------------------------------------------------------------------------------

pub(crate) proof fn lemma_ticket_there(b: BoardModel, j: int)
    requires
        ticket_ids(b.tickets).no_duplicates(),
        0 <= j < b.tickets.len(),
    ensures
        b.ticket(b.tickets[j].id) == Some(b.tickets[j]),
        b.ticket_at(b.tickets[j].id) == j,
{
    let ids = ticket_ids(b.tickets);
    let id = b.tickets[j].id;
    assert(ids[j] == id);
    assert forall|k: int| 0 <= k < j implies ids[k] != id by {
        assert(ids[k] != ids[j]);
    }
    lemma_position(ids, id, j);
}

/// Where the ticket that stands at `k`, once the one at `i` was taken out and put in again at `p`, stood before.
spec fn stood(k: int, i: int, p: int) -> int {
    let q = if k < p {
        k
    } else {
        k - 1
    };
    if k == p {
        i
    } else if q < i {
        q
    } else {
        q + 1
    }
}

pub(crate) proof fn lemma_moved_others(b: BoardModel, id: Text, c: ColumnModel, at: Option<usize>)
    requires
        b.has_ticket(id),
        ticket_ids(b.tickets).no_duplicates(),
    ensures
        ({
            let after = moved(b, id, c, at);
            &&& ticket_ids(after.tickets).no_duplicates()
            &&& after.tickets.len() == b.tickets.len()
            &&& after.columns == b.columns && after.epics == b.epics
            &&& forall|x: Text| x != id ==> #[trigger] after.ticket(x) == b.ticket(x)
        }),
{
    let i = b.ticket_at(id);
    lemma_position_least(ticket_ids(b.tickets), id);
    assert(ticket_ids(b.tickets)[i] == b.tickets[i].id);
    let t = TicketModel { column: c, ..b.tickets[i] };
    lemma_replaced(b, id, t);
    let ts = with_ticket(b, id, t).tickets;
    assert(ticket_ids(ts) =~= ticket_ids(b.tickets));
    let rest = ts.remove(i);
    let p = place(rest, c.id(), at);
    lemma_members_count(rest, c.id());
    let after = moved(b, id, c, at);
    assert(after.tickets == rest.insert(p, t));
    let (ids, new_ids) = (ticket_ids(b.tickets), ticket_ids(after.tickets));
    assert forall|k: int| 0 <= k < new_ids.len() implies 0 <= stood(k, i, p) < ids.len() && #[trigger] after.tickets[k]
        == ts[stood(k, i, p)] by {}
    assert forall|k: int, m: int| 0 <= k < new_ids.len() && 0 <= m < new_ids.len() && k != m implies new_ids[k]
        != new_ids[m] by {
        assert(stood(k, i, p) != stood(m, i, p));
        assert(after.tickets[k] == ts[stood(k, i, p)] && after.tickets[m] == ts[stood(m, i, p)]);
        assert(ids[stood(k, i, p)] != ids[stood(m, i, p)]);
    }
    assert forall|x: Text| x != id implies #[trigger] after.ticket(x) == b.ticket(x) by {
        lemma_position_least(ids, x);
        lemma_position_least(new_ids, x);
        if b.has_ticket(x) {
            let j = b.ticket_at(x);
            let q = if j < i {
                j
            } else {
                j - 1
            };
            let k = if q < p {
                q
            } else {
                q + 1
            };
            assert(stood(k, i, p) == j);
            assert(after.tickets[k] == ts[j] && ts[j] == b.tickets[j]);
            assert(ids[j] == b.tickets[j].id);
            lemma_ticket_there(after, k);
        } else if after.has_ticket(x) {
            let k = after.ticket_at(x);
            assert(after.tickets[k] == ts[stood(k, i, p)]);
            assert(new_ids[k] == x);
            assert(ids[stood(k, i, p)] == x);
        }
    }
}

/// What closing a ticket leaves as it was.
proof fn lemma_closed_others(s: StateModel, id: Text, c: ColumnModel, reason: Text, now: Timestamp)
    requires
        s.board.has_ticket(id),
        ticket_ids(s.board.tickets).no_duplicates(),
    ensures
        ({
            let after = closed(s, id, c, reason, now).board;
            &&& ticket_ids(after.tickets).no_duplicates()
            &&& after.columns == s.board.columns && after.epics == s.board.epics
            &&& after.has_ticket(id)
            &&& forall|x: Text| x != id ==> #[trigger] after.ticket(x) == s.board.ticket(x)
        }),
{
    let b = s.board;
    lemma_closed(s, id, c, reason, now);
    let t = b.ticket(id)->0;
    let n = noted(t, Some("kanban"@), reason, now);
    lemma_position_least(ticket_ids(b.tickets), id);
    assert(ticket_ids(b.tickets)[b.ticket_at(id)] == t.id);
    lemma_replaced(b, id, n);
    let w = with_ticket(b, id, n);
    assert(ticket_ids(w.tickets) =~= ticket_ids(b.tickets));
    lemma_moved_others(w, id, c, None);
    let after = closed(s, id, c, reason, now).board;
    assert forall|x: Text| x != id implies #[trigger] after.ticket(x) == b.ticket(x) by {
        assert(after == moved(w, id, c, None));
        assert(w.ticket(x) == b.ticket(x)) by {
            lemma_position_least(ticket_ids(b.tickets), x);
            if b.has_ticket(x) {
                assert(ticket_ids(b.tickets)[b.ticket_at(x)] == x);
            }
        }
    }
}

/// The ticket a landing names is in review, on the branch it names.
pub open spec fn up_for(b: BoardModel, l: LandingModel) -> bool {
    &&& b.ticket(l.id) is Some
    &&& (b.ticket(l.id)->0).column == (ColumnModel::Review { branch: l.branch })
}

/// Every landing is of a ticket in review, on the branch it is on, and none of a ticket twice.
pub open spec fn landable(b: BoardModel, ls: Seq<LandingModel>) -> bool {
    &&& forall|i: int| 0 <= i < ls.len() ==> up_for(b, #[trigger] ls[i])
    &&& forall|i: int, j: int| 0 <= i < j < ls.len() ==> (#[trigger] ls[i]).id != (#[trigger] ls[j]).id
}

/// One of the landings is of `id`.
pub open spec fn lands(ls: Seq<LandingModel>, id: Text) -> bool {
    exists|i: int| 0 <= i < ls.len() && (#[trigger] ls[i]).id == id
}

/// A review ticket as a landing leaves it: done on the branch it was on, kept, the reason on its log.
pub open spec fn as_landed(t: TicketModel, l: LandingModel, now: Timestamp) -> TicketModel {
    TicketModel {
        column: ColumnModel::Done { branch: l.branch, completed_at: now, discarded: false },
        ..noted(t, Some("kanban"@), l.reason, now)
    }
}

proof fn lemma_swept(s: StateModel, ls: Seq<LandingModel>, at: Seq<Timestamp>)
    requires
        ticket_ids(s.board.tickets).no_duplicates(),
        landable(s.board, ls),
    ensures
        ({
            let after = swept(s, ls, at).board;
            &&& ticket_ids(after.tickets).no_duplicates()
            &&& after.columns == s.board.columns && after.epics == s.board.epics
            &&& forall|i: int|
                0 <= i < ls.len() ==> after.ticket((#[trigger] ls[i]).id) == Some(
                    as_landed(s.board.ticket(ls[i].id)->0, ls[i], at[i]),
                )
            &&& forall|x: Text| !lands(ls, x) ==> #[trigger] after.ticket(x) == s.board.ticket(x)
        }),
    decreases ls.len(),
{
    if ls.len() > 0 {
        let front = ls.drop_last();
        let l = ls.last();
        let now = at[ls.len() - 1];
        assert(landable(s.board, front)) by {
            assert forall|i: int| 0 <= i < front.len() implies up_for(s.board, #[trigger] front[i]) by {
                assert(front[i] == ls[i]);
            }
            assert forall|i: int, j: int| 0 <= i < j < front.len() implies (#[trigger] front[i]).id != (#[trigger] front[j]).id by {
                assert(front[i] == ls[i] && front[j] == ls[j]);
            }
        }
        lemma_swept(s, front, at);
        let before = swept(s, front, at);
        assert(ls[ls.len() - 1] == l);
        assert(!lands(front, l.id)) by {
            if lands(front, l.id) {
                let i = choose|i: int| 0 <= i < front.len() && (#[trigger] front[i]).id == l.id;
                assert(front[i] == ls[i]);
                assert(ls[i].id != ls[ls.len() - 1].id);
            }
        }
        assert(before.board.ticket(l.id) == s.board.ticket(l.id));
        let c = ColumnModel::Done { branch: l.branch, completed_at: now, discarded: false };
        lemma_closed(before, l.id, c, l.reason, now);
        lemma_closed_others(before, l.id, c, l.reason, now);
        let after = swept(s, ls, at).board;
        assert(after == closed(before, l.id, c, l.reason, now).board);
        assert forall|i: int| 0 <= i < ls.len() implies after.ticket((#[trigger] ls[i]).id) == Some(
            as_landed(s.board.ticket(ls[i].id)->0, ls[i], at[i]),
        ) by {
            if i < front.len() {
                assert(front[i] == ls[i]);
                assert(ls[i].id != ls[ls.len() - 1].id);
                assert(before.board.ticket(front[i].id) == Some(as_landed(s.board.ticket(front[i].id)->0, front[i], at[i])));
            }
        }
        assert forall|x: Text| !lands(ls, x) implies #[trigger] after.ticket(x) == s.board.ticket(x) by {
            assert(x != l.id);
            assert(!lands(front, x)) by {
                if lands(front, x) {
                    let i = choose|i: int| 0 <= i < front.len() && (#[trigger] front[i]).id == x;
                    assert(ls[i].id == x);
                }
            }
            assert(before.board.ticket(x) == s.board.ticket(x));
        }
    }
}

/// What a pass that came to its end has decided about each ticket.
proof fn lemma_sweep_decides(
    ts: Seq<TicketModel>,
    main: Text,
    heads: Seq<Text>,
    obs: Seq<(Text, Text)>,
    known: Seq<KnownModel>,
    ls: Seq<LandingModel>,
)
    requires
        sweep_spec(ts, main, heads, obs, known) == SweepModel::Done(ls),
        ticket_ids(ts).no_duplicates(),
    ensures
        forall|i: int, j: int| 0 <= i < j < ls.len() ==> (#[trigger] ls[i]).id != (#[trigger] ls[j]).id,
        forall|k: int|
            0 <= k < ts.len() && (#[trigger] ts[k]).column.id() == ColumnId::Review ==> match verdict_spec(
                ts[k],
                main,
                heads,
                obs,
                known,
            ) {
                VerdictModel::Ask(_) => false,
                VerdictModel::Land(_) => lands(ls, ts[k].id),
                VerdictModel::Stay => true,
            },
    decreases ts.len(),
{
    if ts.len() > 0 {
        let front = ts.drop_last();
        let t = ts.last();
        assert(ticket_ids(front) =~= ticket_ids(ts).drop_last());
        match sweep_spec(front, main, heads, obs, known) {
            SweepModel::Done(before) => {
                lemma_sweep_decides(front, main, heads, obs, known, before);
                only_review_tickets_are_swept(front, main, heads, obs, known);
                assert forall|i: int| 0 <= i < before.len() implies (#[trigger] before[i]).id != t.id by {
                    let k = choose|k: int|
                        0 <= k < front.len() && (#[trigger] front[k]).id == before[i].id && front[k].column.id()
                            == ColumnId::Review && front[k].column.branch() == before[i].branch;
                    assert(ticket_ids(ts)[k] == front[k].id && ticket_ids(ts)[ts.len() - 1] == t.id);
                }
                assert forall|i: int, j: int| 0 <= i < j < ls.len() implies (#[trigger] ls[i]).id != (#[trigger] ls[j]).id by {
                    assert(ls[i] == before[i]);
                    if j < before.len() {
                        assert(ls[j] == before[j]);
                    }
                }
                assert forall|k: int|
                    0 <= k < ts.len() && (#[trigger] ts[k]).column.id() == ColumnId::Review implies match verdict_spec(
                    ts[k],
                    main,
                    heads,
                    obs,
                    known,
                ) {
                    VerdictModel::Ask(_) => false,
                    VerdictModel::Land(_) => lands(ls, ts[k].id),
                    VerdictModel::Stay => true,
                } by {
                    if k < front.len() {
                        assert(front[k] == ts[k]);
                        if lands(before, ts[k].id) {
                            let i = choose|i: int| 0 <= i < before.len() && (#[trigger] before[i]).id == ts[k].id;
                            assert(ls[i] == before[i]);
                        }
                    } else if verdict_spec(t, main, heads, obs, known) is Land {
                        assert(ls[ls.len() - 1].id == t.id);
                    }
                }
            },
            SweepModel::Ask(_) => {},
        }
    }
}

proof fn lemma_nothing_to_land(
    ts: Seq<TicketModel>,
    main: Text,
    heads: Seq<Text>,
    obs: Seq<(Text, Text)>,
    known: Seq<KnownModel>,
)
    requires
        forall|k: int|
            0 <= k < ts.len() && (#[trigger] ts[k]).column.id() == ColumnId::Review ==> verdict_spec(
                ts[k],
                main,
                heads,
                obs,
                known,
            ) is Stay,
    ensures
        sweep_spec(ts, main, heads, obs, known) == SweepModel::Done(Seq::empty()),
    decreases ts.len(),
{
    if ts.len() > 0 {
        let front = ts.drop_last();
        assert forall|k: int|
            0 <= k < front.len() && (#[trigger] front[k]).column.id() == ColumnId::Review implies verdict_spec(
            front[k],
            main,
            heads,
            obs,
            known,
        ) is Stay by {
            assert(front[k] == ts[k]);
        }
        lemma_nothing_to_land(front, main, heads, obs, known);
        assert(ts[ts.len() - 1] == ts.last());
    }
}

proof fn lemma_landable(
    b: BoardModel,
    main: Text,
    heads: Seq<Text>,
    obs: Seq<(Text, Text)>,
    known: Seq<KnownModel>,
    ls: Seq<LandingModel>,
)
    requires
        ticket_ids(b.tickets).no_duplicates(),
        sweep_spec(b.tickets, main, heads, obs, known) == SweepModel::Done(ls),
    ensures
        landable(b, ls),
{
    let ts = b.tickets;
    lemma_sweep_decides(ts, main, heads, obs, known, ls);
    only_review_tickets_are_swept(ts, main, heads, obs, known);
    assert forall|i: int| 0 <= i < ls.len() implies up_for(b, #[trigger] ls[i]) by {
        let l = ls[i];
        assert(exists|k: int|
            0 <= k < ts.len() && (#[trigger] ts[k]).id == l.id && ts[k].column.id() == ColumnId::Review
                && ts[k].column.branch() == l.branch);
        let k = choose|k: int|
            0 <= k < ts.len() && (#[trigger] ts[k]).id == ls[i].id && ts[k].column.id() == ColumnId::Review
                && ts[k].column.branch() == ls[i].branch;
        lemma_ticket_there(b, k);
    }
}

/// A pass lands each ticket it names, once: from review to done on the same branch, kept, with the reason noted by the
/// board. It discards nothing, touches no other ticket, and leaves the board valid.
pub proof fn a_sweep_lands_what_it_names(
    s: StateModel,
    main: Text,
    heads: Seq<Text>,
    obs: Seq<(Text, Text)>,
    known: Seq<KnownModel>,
    ls: Seq<LandingModel>,
    at: Seq<Timestamp>,
)
    requires
        valid(s.board),
        sweep_spec(s.board.tickets, main, heads, obs, known) == SweepModel::Done(ls),
    ensures
        landable(s.board, ls),
        ({
            let after = swept(s, ls, at).board;
            &&& valid(after)
            &&& forall|i: int|
                0 <= i < ls.len() ==> after.ticket((#[trigger] ls[i]).id) == Some(
                    as_landed(s.board.ticket(ls[i].id)->0, ls[i], at[i]),
                )
            &&& forall|x: Text| !lands(ls, x) ==> #[trigger] after.ticket(x) == s.board.ticket(x)
        }),
{
    let b = s.board;
    valid_boards(b);
    lemma_landable(b, main, heads, obs, known, ls);
    lemma_swept(s, ls, at);
    let after = swept(s, ls, at).board;
    let (ts, us) = (b.tickets, after.tickets);
    assert forall|k: int| 0 <= k < us.len() implies exists|j: int|
        0 <= j < ts.len() && (#[trigger] ts[j]).id == (#[trigger] us[k]).id && ts[j].depends_on == us[k].depends_on
            && ts[j].epic == us[k].epic by {
        lemma_ticket_there(after, k);
        lemma_kept_fields(s, ls, at, us[k].id);
        let j = b.ticket_at(us[k].id);
        lemma_position_least(ticket_ids(ts), us[k].id);
        assert(ticket_ids(ts)[j] == us[k].id);
        assert(ts[j].id == us[k].id);
    }
    assert(references_sound(us)) by {
        assert forall|k: int, d: int| 0 <= k < us.len() && 0 <= d < us[k].depends_on.len() implies counts(
            us,
            us[k].id,
            #[trigger] us[k].depends_on[d],
        ) by {
            let j = choose|j: int|
                0 <= j < ts.len() && (#[trigger] ts[j]).id == us[k].id && ts[j].depends_on == us[k].depends_on && ts[j].epic
                    == us[k].epic;
            let dep = ts[j].depends_on[d];
            assert(counts(ts, ts[j].id, ts[j].depends_on[d]));
            lemma_position_least(ticket_ids(ts), dep);
            assert(b.has_ticket(dep));
            lemma_kept_fields(s, ls, at, dep);
            lemma_position_least(ticket_ids(us), dep);
            assert(ticket_ids(us)[after.ticket_at(dep)] == dep);
        }
    }
    assert(acyclic(us)) by {
        assert forall|k: int| 0 <= k < us.len() implies exists|j: int|
            0 <= j < ts.len() && asks_no_more(#[trigger] us[k], #[trigger] ts[j]) by {
            let j = choose|j: int|
                0 <= j < ts.len() && (#[trigger] ts[j]).id == us[k].id && ts[j].depends_on == us[k].depends_on && ts[j].epic
                    == us[k].epic;
            assert(asks_no_more(us[k], ts[j]));
        }
        asking_less_keeps_boards_acyclic(us, ts);
    }
    assert forall|k: int| 0 <= k < us.len() implies ((#[trigger] us[k]).epic matches Some(e) ==> epic_ids(
        after.epics,
    ).contains(e)) by {
        let j = choose|j: int|
            0 <= j < ts.len() && (#[trigger] ts[j]).id == us[k].id && ts[j].depends_on == us[k].depends_on && ts[j].epic
                == us[k].epic;
        assert(ts[j].epic == us[k].epic);
    }
    valid_boards(after);
}

/// A pass keeps every ticket on the board, with the dependencies and the epic it has.
proof fn lemma_kept_fields(s: StateModel, ls: Seq<LandingModel>, at: Seq<Timestamp>, x: Text)
    requires
        ticket_ids(s.board.tickets).no_duplicates(),
        landable(s.board, ls),
    ensures
        swept(s, ls, at).board.has_ticket(x) == s.board.has_ticket(x),
        s.board.has_ticket(x) ==> {
            let (t, u) = (s.board.ticket(x)->0, swept(s, ls, at).board.ticket(x)->0);
            u.depends_on == t.depends_on && u.epic == t.epic
        },
{
    lemma_swept(s, ls, at);
    if lands(ls, x) {
        let i = choose|i: int| 0 <= i < ls.len() && (#[trigger] ls[i]).id == x;
        assert(swept(s, ls, at).board.ticket(ls[i].id) == Some(as_landed(s.board.ticket(ls[i].id)->0, ls[i], at[i])));
    }
}

/// The verdict on a ticket that stays is the same once the branches are as they are remembered.
proof fn lemma_verdict_again(
    ts: Seq<TicketModel>,
    k: int,
    main: Text,
    heads: Seq<Text>,
    obs: Seq<(Text, Text)>,
    tips: Seq<(Text, Text)>,
    later: Seq<(Text, Text)>,
    known: Seq<KnownModel>,
)
    requires
        0 <= k < ts.len(),
        ts[k].column.id() == ColumnId::Review,
        forall|b: Text| #[trigger] observed(later, b) == remembered(ts, heads, obs, tips, b),
    ensures
        verdict_spec(ts[k], main, heads, later, known) == verdict_spec(ts[k], main, heads, obs, known),
{
    let t = ts[k];
    if t.external is None && t.column.branch() is Some {
        let branch = t.column.branch()->0;
        assert(watched(ts[k]) == Some(branch));
        assert(is_watched(ts, branch));
        if !heads.contains(branch) {
            assert(observed(later, branch) == observed(obs, branch));
        }
    }
}

/// A second pass over what the first one left, with nothing else changed and the branches as the first one remembered them,
/// asks nothing and lands nothing.
pub proof fn a_second_sweep_lands_nothing(
    s: StateModel,
    main: Text,
    heads: Seq<Text>,
    obs: Seq<(Text, Text)>,
    tips: Seq<(Text, Text)>,
    later: Seq<(Text, Text)>,
    known: Seq<KnownModel>,
    ls: Seq<LandingModel>,
    at: Seq<Timestamp>,
)
    requires
        valid(s.board),
        sweep_spec(s.board.tickets, main, heads, obs, known) == SweepModel::Done(ls),
        forall|b: Text| #[trigger] observed(later, b) == remembered(swept(s, ls, at).board.tickets, heads, obs, tips, b),
    ensures
        sweep_spec(swept(s, ls, at).board.tickets, main, heads, later, known) == SweepModel::Done(Seq::empty()),
{
    let b = s.board;
    valid_boards(b);
    lemma_landable(b, main, heads, obs, known, ls);
    lemma_swept(s, ls, at);
    lemma_sweep_decides(b.tickets, main, heads, obs, known, ls);
    let after = swept(s, ls, at).board;
    let us = after.tickets;
    assert forall|k: int| 0 <= k < us.len() && (#[trigger] us[k]).column.id() == ColumnId::Review implies verdict_spec(
        us[k],
        main,
        heads,
        later,
        known,
    ) is Stay by {
        let u = us[k];
        lemma_ticket_there(after, k);
        if lands(ls, u.id) {
            let i = choose|i: int| 0 <= i < ls.len() && (#[trigger] ls[i]).id == u.id;
            assert(after.ticket(ls[i].id) == Some(as_landed(b.ticket(ls[i].id)->0, ls[i], at[i])));
        } else {
            assert(after.ticket(u.id) == b.ticket(u.id));
            let j = b.ticket_at(u.id);
            lemma_position_least(ticket_ids(b.tickets), u.id);
            assert(b.tickets[j] == u);
            assert(verdict_spec(b.tickets[j], main, heads, obs, known) is Stay);
            lemma_verdict_again(us, k, main, heads, obs, tips, later, known);
        }
    }
    lemma_nothing_to_land(us, main, heads, later, known);
}

// ---- another round -----------------------------------------------------------------------------------------------------

/// A ticket that is sent back waits in `doing` on the branch it was reviewed on, unclaimed and marked, with the comment as
/// the last word on its log. So it still blocks whatever depends on it.
pub proof fn a_sent_back_ticket_waits_for_another_round(
    s: StateModel,
    id: Text,
    comment: Text,
    author: Text,
    now: Timestamp,
    dependent: TicketModel,
    d: int,
)
    requires
        request_spec(s, id, comment, author, now) is Ok,
        one_each(s.claims),
        ticket_ids(s.board.tickets).no_duplicates(),
        0 <= d < dependent.depends_on.len(),
        dependent.depends_on[d] == id,
    ensures
        ({
            let after = request_spec(s, id, comment, author, now)->Ok_0;
            &&& found(after.claims, id) is None
            &&& after.board.ticket(id) matches Some(t) && t.column is Doing && t.changes_requested && t.column.branch()
                == s.board.ticket(id)->0.column.branch() && t.notes.last().text == "changes requested: "@ + trim_spec(
                comment,
            )
            &&& is_blocked(dependent, after.board)
        }),
{
    let t = s.board.ticket(id)->0;
    let n = asked(t, comment, author, now);
    lemma_position_least(ticket_ids(s.board.tickets), id);
    assert(ticket_ids(s.board.tickets)[s.board.ticket_at(id)] == t.id);
    lemma_replaced(s.board, id, n);
    let b = with_ticket(s.board, id, n);
    assert(ticket_ids(b.tickets) =~= ticket_ids(s.board.tickets));
    lemma_moved_ticket(b, id, ColumnModel::Doing { owner: author, branch: t.column.branch() }, None);
    remove_then_find(s.claims, id, id);
    assert(!landed(request_spec(s, id, comment, author, now)->Ok_0.board, dependent.depends_on[d]));
}

/// Handing work in answers the request for changes: no ticket enters `review` or `done` by a move with one outstanding.
pub proof fn handing_in_answers_the_request(
    s: StateModel,
    id: Text,
    to: ColumnId,
    at: Option<usize>,
    owner: Option<Text>,
    branch: Option<Text>,
    now: Timestamp,
)
    requires
        ticket_ids(s.board.tickets).no_duplicates(),
        to == ColumnId::Review || to == ColumnId::Done,
        move_spec(s, id, to, at, owner, branch, now) is Ok,
    ensures
        move_spec(s, id, to, at, owner, branch, now)->Ok_0.board.ticket(id) matches Some(t) && !t.changes_requested
            && t.column.id() == to,
{
    let t = s.board.ticket(id)->0;
    let n = TicketModel { changes_requested: false, ..t };
    lemma_position_least(ticket_ids(s.board.tickets), id);
    assert(ticket_ids(s.board.tickets)[s.board.ticket_at(id)] == t.id);
    lemma_replaced(s.board, id, n);
    let b = answered(s.board, id, to);
    assert(b == with_ticket(s.board, id, n));
    assert(ticket_ids(b.tickets) =~= ticket_ids(s.board.tickets));
    lemma_moved_ticket(b, id, next_state(t.column, to, owner, branch, id, now)->Ok_0, at);
}

// ---- every operation ------------------------------------------------------------------------------------------------

proof fn lemma_epics_counters(b: BoardModel, specs: Seq<crate::ops::NewEpicSpec>, n: nat)
    requires
        b.epic_seq() + n <= u64::MAX,
    ensures
        epics_added(b, specs, n).next_ticket_seq == b.next_ticket_seq,
        epics_added(b, specs, n).next_epic_seq >= b.next_epic_seq,
        epics_added(b, specs, n).schema == b.schema,
        epics_added(b, specs, n).columns == b.columns,
        epics_added(b, specs, n).version == b.version,
        epics_added(b, specs, n).epic_seq() == b.epic_seq() + n,
        epics_added(b, specs, n).tickets == b.tickets,
    decreases n,
{
    if n > 0 {
        lemma_epics_counters(b, specs, (n - 1) as nat);
        crate::ops::lemma_epics_added(b, specs, n);
        crate::ops::lemma_epics_added(b, specs, (n - 1) as nat);
    }
}

/// No operation lowers an id counter, so with minting only ever raising them a number is issued once, whatever happens to
/// the tickets in between. Nor does any operation touch the schema, the columns or the version.
pub proof fn no_operation_lowers_a_counter(op: Op, s: StateModel, now: Timestamp)
    requires
        ids_fit(op, s.board),
    ensures
        transition_spec(op, s, now) matches Ok(done) ==> {
            &&& done.0.board.next_ticket_seq >= s.board.next_ticket_seq
            &&& done.0.board.next_epic_seq >= s.board.next_epic_seq
            &&& done.0.board.schema == s.board.schema
            &&& done.0.board.columns == s.board.columns
            &&& done.0.board.version == s.board.version
        },
{
    match op {
        Op::Refine { target, title, body, split_tickets, split_epics } => {
            if let Ok(done) = retitled(s.board, target, opt_model(title), body@) {
                crate::ops::lemma_seqs_after_retitle(s, target, opt_model(title), body@);
                let back = handed_back(StateModel { board: done.0, claims: s.claims }, target);
                lemma_epics_counters(back.board, split_epics@, split_epics@.len());
            }
        },
        _ => {},
    }
}

/// An operation that succeeds leaves a valid board, one version further; one that fails leaves no new store at all.
pub proof fn applied_operations_leave_valid_boards(s: StoreModel, expected: Option<u64>, op: Op, now: Timestamp)
    requires
        crate::ops::room_for(s, expected, op),
    ensures
        apply_spec(s, expected, op, now) matches Ok(done) ==> {
            &&& s.started(expected) is Ok
            &&& done.0.dir == s.dir
            &&& done.0.board_pending
            &&& done.0.board matches Some(b) && valid(b) && b.version == s.started(expected)->Ok_0.version + 1
            &&& done.0.claims_pending == (s.claims_pending || done.0.claims != s.claims)
        },
{
    if let Ok(b) = s.started(expected) {
        let st = StateModel { board: b, claims: s.claims };
        no_operation_lowers_a_counter(op, st, now);
        if let Ok(done) = transition_spec(op, st, now) {
            let nb = done.0.board;
            let next = BoardModel { version: (nb.version + 1) as u64, ..nb };
            assert(crate::store::validate::problems(next) == crate::store::validate::problems(nb));
        }
    }
}

/// Changing an epic, its grant above all, never writes anything onto a ticket.
pub proof fn changing_an_epic_touches_no_ticket(id: crate::store::model::EpicId, patch: crate::ops::EpicPatch, s: StateModel, now: Timestamp)
    ensures
        transition_spec(Op::UpdateEpic { id, patch }, s, now) matches Ok(done) ==> done.0.board.tickets == s.board.tickets
            && done.0.claims == s.claims,
{
}

/// A patch that mentions nothing changes nothing.
pub proof fn an_empty_patch_changes_nothing(t: TicketModel, patch: crate::ops::TicketPatch)
    requires
        patch.title is None && patch.body is None && patch.labels is None && patch.depends_on is None && patch.epic is None
            && patch.model is None && patch.effort is None && patch.auto_merge is None,
    ensures
        crate::ops::patched(t, patch) == t,
{
}

} // verus!
