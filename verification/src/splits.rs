//! What splitting work is for: what a refinement and a mirrored split make of the target and of each part.
use vstd::prelude::*;

use crate::effects::{
    lemma_claim_dropped, lemma_epic_named, lemma_epic_replaced, lemma_moved_only, lemma_named,
    only_claim_dropped, only_epic_changed, only_ticket_changed, only_ticket_moved,
};
use crate::laws::lemma_replaced;
use crate::ops::{
    all_resolved, epic_names, epics_added, handed_back, ids_fit, nested_batch, nested_count, refined_batch, refined_ticket,
    resolved, retitled, ticket_names, transition_spec, NewEpicSpec, NewTicketSpec, Op, OpErrorModel, PayloadModel,
    RefineTarget, StateModel, SubIssueSpec,
};
use crate::seqs::{models, opt_model};
use crate::store::claims::{found, one_each, upsert_then_find, ClaimKind, ClaimModel};
use crate::store::model::{
    epic_ids, epic_name, ticket_ids, ticket_name, ticket_names_differ, BoardModel, ColumnModel, EpicModel, ExternalModel,
    Status, TicketId, TicketModel,
};
use crate::text::{decimal, decimal_reads_back, has_prefix, Text};
use crate::time::Timestamp;

verus! {

// ---- refining -------------------------------------------------------------------------------------------------------

/// A dependency as the board has it: one written `new:<k>` names the `k`th of the split tickets, and one without that marker
/// is the id it is.
pub open spec fn names(dep: Text, written: Text, splits: Seq<TicketModel>) -> bool {
    &&& forall|k: int| 0 <= k < splits.len() && written == "new:"@ + decimal(k as nat) ==> dep == (#[trigger] splits[k]).id
    &&& !has_prefix(written, "new:"@) ==> dep == written
}

/// The ticket holds what its spec says, awaits the user's verdict in `todo`, and has no history. Without an epic of its own
/// it inherits one.
pub open spec fn holds(t: TicketModel, spec: NewTicketSpec, inherited: Option<Text>, splits: Seq<TicketModel>) -> bool {
    &&& t.title == spec.title@ && t.body == spec.body@ && t.labels == models(spec.labels@)
    &&& t.model == opt_model(spec.model) && t.effort == spec.effort
    &&& spec.epic matches Some(e) ==> t.epic == Some(e@)
    &&& spec.epic is None ==> t.epic == inherited
    &&& t.status == Status::Review && t.column is Todo && !t.auto_merge
    &&& t.notes.len() == 0 && t.external is None && t.pr is None && !t.changes_requested && !t.accepted && !t.landing_blocked
    &&& t.depends_on.len() == spec.depends_on@.len()
    &&& forall|d: int| 0 <= d < t.depends_on.len() ==> names(#[trigger] t.depends_on[d], spec.depends_on@[d]@, splits)
}

/// The epic holds what its spec says and awaits the user's verdict.
pub open spec fn epic_holds(e: EpicModel, spec: NewEpicSpec) -> bool {
    &&& e.title == spec.title@ && e.body == spec.body@ && e.status == Status::Review && !e.auto_merge
    &&& spec.color matches Some(c) ==> e.color == c@
}

/// The id is no id of the board's.
pub open spec fn unworn(id: Text, b: BoardModel) -> bool {
    !ticket_ids(b.tickets).contains(id)
}

proof fn lemma_fresh(b: BoardModel, n: nat)
    requires
        b.ticket_seq() <= n <= u64::MAX,
    ensures
        unworn(ticket_name(n), b),
{
    let later = BoardModel { next_ticket_seq: n as u64, ..b };
    crate::store::model::next_ticket_id_is_fresh(later);
    if ticket_ids(b.tickets).contains(ticket_name(n)) {
        let i = choose|i: int| 0 <= i < b.tickets.len() && ticket_ids(b.tickets)[i] == ticket_name(n);
        assert(later.tickets[i].id == ticket_name(n));
    }
}

proof fn lemma_all_resolved(deps: Seq<Text>, ids: Seq<Text>)
    requires
        all_resolved(deps, ids) is Ok,
    ensures
        ({
            let v = all_resolved(deps, ids)->Ok_0;
            v.len() == deps.len() && forall|d: int| 0 <= d < v.len() ==> Some(#[trigger] v[d]) == resolved(deps[d], ids)
        }),
    decreases deps.len(),
{
    if deps.len() > 0 {
        lemma_all_resolved(deps.drop_last(), ids);
    }
}

proof fn lemma_placeholder(k: nat, ids: Seq<Text>)
    requires
        k < ids.len() <= usize::MAX,
    ensures
        resolved("new:"@ + decimal(k), ids) == Some(ids[k as int]),
{
    let dep = "new:"@ + decimal(k);
    decimal_reads_back(k);
    assert(dep.subrange(0, "new:"@.len() as int) =~= "new:"@);
    assert(dep.subrange("new:"@.len() as int, dep.len() as int) =~= decimal(k));
}

proof fn lemma_batch(specs: Seq<NewTicketSpec>, first: nat, epic: Option<Text>, ids: Seq<Text>)
    requires
        refined_batch(specs, first, epic, ids) is Ok,
    ensures
        ({
            let v = refined_batch(specs, first, epic, ids)->Ok_0;
            v.len() == specs.len() && forall|i: int|
                0 <= i < v.len() ==> refined_ticket(specs[i], ticket_name((first + i) as nat), epic, ids) == Ok::<
                    TicketModel,
                    Text,
                >(#[trigger] v[i])
        }),
    decreases specs.len(),
{
    if specs.len() > 0 {
        lemma_batch(specs.drop_last(), first, epic, ids);
    }
}

proof fn lemma_holds(
    spec: NewTicketSpec,
    id: Text,
    epic: Option<Text>,
    ids: Seq<Text>,
    t: TicketModel,
    splits: Seq<TicketModel>,
)
    requires
        refined_ticket(spec, id, epic, ids) == Ok::<TicketModel, Text>(t),
        ids.len() == splits.len() <= usize::MAX,
        forall|k: int| 0 <= k < ids.len() ==> ids[k] == (#[trigger] splits[k]).id,
    ensures
        holds(t, spec, epic, splits),
        t.id == id,
{
    let deps = models(spec.depends_on@);
    lemma_all_resolved(deps, ids);
    assert forall|d: int| 0 <= d < t.depends_on.len() implies names(#[trigger] t.depends_on[d], spec.depends_on@[d]@, splits) by {
        let written = spec.depends_on@[d]@;
        assert(deps[d] == written);
        assert forall|k: int| 0 <= k < splits.len() && written == "new:"@ + decimal(k as nat) implies t.depends_on[d] == (
        #[trigger] splits[k]).id by {
            lemma_placeholder(k as nat, ids);
        }
    }
}

proof fn lemma_nested(specs: Seq<NewEpicSpec>, n: nat, epics_first: nat, first: nat, ids: Seq<Text>, e: int, i: int)
    requires
        nested_batch(specs, n, epics_first, first, ids) is Ok,
        0 <= e < n <= specs.len(),
        0 <= i < specs[e].tickets@.len(),
    ensures
        ({
            let v = nested_batch(specs, n, epics_first, first, ids)->Ok_0;
            let at = nested_count(specs, e as nat) + i;
            &&& 0 <= at < v.len()
            &&& refined_ticket(
                specs[e].tickets@[i],
                ticket_name((first + at) as nat),
                Some(epic_name((epics_first + e) as nat)),
                ids,
            ) == Ok::<TicketModel, Text>(v[at])
        }),
    decreases n,
{
    let v = nested_batch(specs, n, epics_first, first, ids)->Ok_0;
    let before = nested_batch(specs, (n - 1) as nat, epics_first, first, ids)->Ok_0;
    lemma_nested_len(specs, (n - 1) as nat, epics_first, first, ids);
    let start = nested_count(specs, (n - 1) as nat);
    let epic = Some(epic_name((epics_first + n - 1) as nat));
    lemma_batch(specs[n - 1].tickets@, first + start, epic, ids);
    if e < n - 1 {
        lemma_nested(specs, (n - 1) as nat, epics_first, first, ids, e, i);
    } else {
        let w = refined_batch(specs[n - 1].tickets@, first + start, epic, ids)->Ok_0;
        assert(v[start + i] == w[i]);
        assert(refined_ticket(specs[n - 1].tickets@[i], ticket_name((first + start + i) as nat), epic, ids) == Ok::<
            TicketModel,
            Text,
        >(w[i]));
    }
}

proof fn lemma_nested_len(specs: Seq<NewEpicSpec>, n: nat, epics_first: nat, first: nat, ids: Seq<Text>)
    requires
        nested_batch(specs, n, epics_first, first, ids) is Ok,
        n <= specs.len(),
    ensures
        nested_batch(specs, n, epics_first, first, ids)->Ok_0.len() == nested_count(specs, n),
        forall|j: int|
            0 <= j < nested_count(specs, n) ==> (#[trigger] nested_batch(specs, n, epics_first, first, ids)->Ok_0[j]).id
                == ticket_name((first + j) as nat),
    decreases n,
{
    if n > 0 {
        lemma_nested_len(specs, (n - 1) as nat, epics_first, first, ids);
        let start = nested_count(specs, (n - 1) as nat);
        let epic = Some(epic_name((epics_first + n - 1) as nat));
        lemma_batch(specs[n - 1].tickets@, first + start, epic, ids);
        let v = nested_batch(specs, n, epics_first, first, ids)->Ok_0;
        let before = nested_batch(specs, (n - 1) as nat, epics_first, first, ids)->Ok_0;
        let w = refined_batch(specs[n - 1].tickets@, first + start, epic, ids)->Ok_0;
        assert forall|j: int| 0 <= j < nested_count(specs, n) implies (#[trigger] v[j]).id == ticket_name((first + j) as nat) by {
            if j < start {
                assert(v[j] == before[j]);
            } else {
                assert(v[j] == w[j - start]);
                assert(refined_ticket(
                    specs[n - 1].tickets@[j - start],
                    ticket_name((first + start + (j - start)) as nat),
                    epic,
                    ids,
                ) == Ok::<TicketModel, Text>(w[j - start]));
            }
        }
    }
}

proof fn lemma_new_epics(b: BoardModel, specs: Seq<NewEpicSpec>, n: nat)
    requires
        b.epic_seq() + n <= u64::MAX,
        n <= specs.len(),
    ensures
        ({
            let es = epics_added(b, specs, n).epics;
            &&& es.len() == b.epics.len() + n
            &&& forall|k: int| 0 <= k < b.epics.len() ==> #[trigger] es[k] == b.epics[k]
            &&& forall|e: int|
                0 <= e < n ==> epic_holds(#[trigger] es[b.epics.len() + e], specs[e]) && es[b.epics.len() + e].id == epic_name(
                    (b.epic_seq() + e) as nat,
                )
        }),
    decreases n,
{
    if n > 0 {
        lemma_new_epics(b, specs, (n - 1) as nat);
        crate::ops::lemma_epics_added(b, specs, (n - 1) as nat);
        let before = epics_added(b, specs, (n - 1) as nat).epics;
        let es = epics_added(b, specs, n).epics;
        assert forall|e: int| 0 <= e < n implies epic_holds(#[trigger] es[b.epics.len() + e], specs[e]) && es[b.epics.len()
            + e].id == epic_name((b.epic_seq() + e) as nat) by {
            if e < n - 1 {
                assert(es[b.epics.len() + e] == before[b.epics.len() + e]);
            }
        }
    }
}

/// What a refinement leaves of the board that was there: the tickets and the epics before the ones it adds.
pub open spec fn kept(b: BoardModel, after: BoardModel) -> BoardModel {
    BoardModel {
        tickets: after.tickets.take(b.tickets.len() as int),
        epics: after.epics.take(b.epics.len() as int),
        next_ticket_seq: b.next_ticket_seq,
        next_epic_seq: b.next_epic_seq,
        ..after
    }
}

/// A refinement gives its target the new spec, and a new title where one is given, and leaves it awaiting the user's verdict.
/// A ticket loses its claim, and goes back on top of `todo` when it was being worked on; nothing else of it changes, nor any
/// other ticket or epic that was there. Only a stub, or what is being refined again, is refined.
pub proof fn a_refinement_rewrites_its_target(
    s: StateModel,
    target: RefineTarget,
    title: Option<String>,
    body: String,
    split_tickets: Vec<NewTicketSpec>,
    split_epics: Vec<NewEpicSpec>,
    now: Timestamp,
)
    requires
        ids_fit(Op::Refine { target, title, body, split_tickets, split_epics }, s.board),
        ticket_ids(s.board.tickets).no_duplicates(),
        one_each(s.claims),
    ensures
        transition_spec(Op::Refine { target, title, body, split_tickets, split_epics }, s, now) matches Ok(done) ==> {
            let b = s.board;
            let after = kept(b, done.0.board);
            match target {
                RefineTarget::Ticket(id) => b.ticket(id@) matches Some(t) && (after.ticket(id@) matches Some(u) && {
                    &&& t.status == Status::Stub || t.status == Status::Review
                    &&& u.body == body@ && u.status == Status::Review
                    &&& title matches Some(v) ==> u.title == v@
                    &&& title is None ==> u.title == t.title
                    &&& u == TicketModel { title: u.title, body: u.body, status: u.status, column: u.column, ..t }
                    &&& t.column is Doing ==> u.column is Todo && only_ticket_moved(b, after, id@, u, Some(0))
                    &&& !(t.column is Doing) ==> u.column == t.column && only_ticket_changed(b, after, id@)
                    &&& only_claim_dropped(s.claims, done.0.claims, id@)
                }),
                RefineTarget::Epic(id) => b.epic(id@) matches Some(e) && (after.epic(id@) matches Some(u) && {
                    &&& e.status == Status::Stub || e.status == Status::Review
                    &&& u.body == body@ && u.status == Status::Review
                    &&& title matches Some(v) ==> u.title == v@
                    &&& title is None ==> u.title == e.title
                    &&& u == EpicModel { title: u.title, body: u.body, status: u.status, ..e }
                    &&& only_epic_changed(b, after, id@)
                    &&& done.0.claims == s.claims
                }),
            }
        },
{
    let b = s.board;
    let op = Op::Refine { target, title, body, split_tickets, split_epics };
    if let Ok(done) = transition_spec(op, s, now) {
        let r = retitled(b, target, opt_model(title), body@)->Ok_0;
        crate::ops::lemma_seqs_after_retitle(s, target, opt_model(title), body@);
        let back = handed_back(StateModel { board: r.0, claims: s.claims }, target);
        lemma_new_epics(back.board, split_epics@, split_epics@.len());
        crate::ops::lemma_epics_added(back.board, split_epics@, split_epics@.len());
        lemma_frame(back.board, split_epics@, split_epics@.len());
        let after = kept(b, done.0.board);
        match target {
            RefineTarget::Ticket(id) => {
                lemma_named(b, id@);
                let t = b.ticket(id@)->0;
                let n = TicketModel {
                    title: crate::ops::or_else(opt_model(title), t.title),
                    body: body@,
                    status: Status::Review,
                    ..t
                };
                lemma_replaced(b, id@, n);
                lemma_moved_only(b, id@, n, ColumnModel::Todo, Some(0));
                lemma_claim_dropped(s.claims, id@);
                assert(back.board.tickets.len() == b.tickets.len());
                assert(after.tickets =~= back.board.tickets);
                assert(after.epics =~= b.epics);
                assert(after == back.board);
            },
            RefineTarget::Epic(id) => {
                lemma_epic_named(b, id@);
                let e = b.epic(id@)->0;
                let n = EpicModel {
                    title: crate::ops::or_else(opt_model(title), e.title),
                    body: body@,
                    status: Status::Review,
                    ..e
                };
                lemma_epic_replaced(b, id@, n);
                assert(after.tickets =~= b.tickets);
                assert(after.epics =~= back.board.epics);
                assert(after == back.board);
            },
        }
    }
}

proof fn lemma_frame(b: BoardModel, specs: Seq<NewEpicSpec>, n: nat)
    ensures
        epics_added(b, specs, n).columns == b.columns,
        epics_added(b, specs, n).schema == b.schema,
        epics_added(b, specs, n).version == b.version,
        epics_added(b, specs, n).next_ticket_seq == b.next_ticket_seq,
    decreases n,
{
    if n > 0 {
        lemma_frame(b, specs, (n - 1) as nat);
    }
}

/// A refinement adds, behind everything that was there, the split epics with what their specs say, the tickets of each of
/// them, which belong to it, and the split tickets, which inherit the target's epic. A dependency written `new:<k>` becomes
/// the id of the `k`th split ticket, wherever it is written, so that different numbers name different tickets. Every id it
/// creates is new, and they are reported in that order.
#[verifier::spinoff_prover]
#[verifier::rlimit(60)]
pub proof fn a_refinement_creates_its_parts(
    s: StateModel,
    target: RefineTarget,
    title: Option<String>,
    body: String,
    split_tickets: Vec<NewTicketSpec>,
    split_epics: Vec<NewEpicSpec>,
    now: Timestamp,
)
    requires
        ids_fit(Op::Refine { target, title, body, split_tickets, split_epics }, s.board),
    ensures
        transition_spec(Op::Refine { target, title, body, split_tickets, split_epics }, s, now) matches Ok(done) ==> {
            let b = s.board;
            let after = done.0.board;
            let nested = nested_count(split_epics@, split_epics@.len());
            let created = after.tickets.subrange(b.tickets.len() as int, after.tickets.len() as int);
            let splits = created.subrange(nested as int, created.len() as int);
            let epics = after.epics.subrange(b.epics.len() as int, after.epics.len() as int);
            &&& after.tickets.len() == b.tickets.len() + nested + split_tickets@.len()
            &&& after.epics.len() == b.epics.len() + split_epics@.len()
            &&& splits.len() == split_tickets@.len()
            &&& forall|i: int|
                0 <= i < splits.len() ==> holds(
                    #[trigger] splits[i],
                    split_tickets@[i],
                    match target {
                        RefineTarget::Ticket(id) => b.ticket(id@)->0.epic,
                        RefineTarget::Epic(id) => Some(id@),
                    },
                    splits,
                )
            &&& forall|e: int| 0 <= e < epics.len() ==> epic_holds(#[trigger] epics[e], split_epics@[e])
            &&& forall|e: int, i: int|
                0 <= e < epics.len() && 0 <= i < split_epics@[e].tickets@.len() ==> holds(
                    created[nested_count(split_epics@, e as nat) + i],
                    #[trigger] split_epics@[e].tickets@[i],
                    Some(epics[e].id),
                    splits,
                )
            &&& forall|i: int| 0 <= i < created.len() ==> unworn((#[trigger] created[i]).id, b)
            &&& forall|i: int, j: int|
                0 <= i < j < created.len() ==> (#[trigger] created[i]).id != (#[trigger] created[j]).id
            &&& done.1.created_ids == epic_ids(epics) + ticket_ids(created)
            &&& done.1.result == PayloadModel::Refined {
                target: match target {
                    RefineTarget::Ticket(id) => id@,
                    RefineTarget::Epic(id) => id@,
                },
                created: done.1.created_ids,
            }
        },
{
    let b = s.board;
    let op = Op::Refine { target, title, body, split_tickets, split_epics };
    if let Ok(done) = transition_spec(op, s, now) {
        let r = retitled(b, target, opt_model(title), body@)->Ok_0;
        crate::ops::lemma_seqs_after_retitle(s, target, opt_model(title), body@);
        let back = handed_back(StateModel { board: r.0, claims: s.claims }, target);
        lemma_lens(s, target, opt_model(title), body@);
        let m = split_epics@.len();
        lemma_new_epics(back.board, split_epics@, m);
        crate::ops::lemma_epics_added(back.board, split_epics@, m);
        let epics_first = b.epic_seq();
        let first = b.ticket_seq();
        let nested = nested_count(split_epics@, m);
        let ids = ticket_names(first + nested, split_tickets@.len());
        let children = nested_batch(split_epics@, m, epics_first, first, ids)->Ok_0;
        let tickets = refined_batch(split_tickets@, first + nested, r.1, ids)->Ok_0;
        lemma_nested_len(split_epics@, m, epics_first, first, ids);
        lemma_batch(split_tickets@, first + nested, r.1, ids);
        let after = done.0.board;
        let created = after.tickets.subrange(b.tickets.len() as int, after.tickets.len() as int);
        let splits = created.subrange(nested as int, created.len() as int);
        let epics = after.epics.subrange(b.epics.len() as int, after.epics.len() as int);
        assert(created =~= children + tickets);
        assert(splits =~= tickets);
        assert(split_tickets.len() == split_tickets@.len());
        assert forall|k: int| 0 <= k < ids.len() implies ids[k] == (#[trigger] splits[k]).id by {
            assert(refined_ticket(split_tickets@[k], ticket_name((first + nested + k) as nat), r.1, ids) == Ok::<
                TicketModel,
                Text,
            >(tickets[k]));
        }
        assert forall|i: int| 0 <= i < splits.len() implies holds(#[trigger] splits[i], split_tickets@[i], r.1, splits) by {
            assert(refined_ticket(split_tickets@[i], ticket_name((first + nested + i) as nat), r.1, ids) == Ok::<
                TicketModel,
                Text,
            >(tickets[i]));
            lemma_holds(split_tickets@[i], ticket_name((first + nested + i) as nat), r.1, ids, tickets[i], splits);
        }
        assert forall|e: int| 0 <= e < epics.len() implies epic_holds(#[trigger] epics[e], split_epics@[e]) && epics[e].id
            == epic_name((epics_first + e) as nat) by {
            assert(epics[e] == after.epics[b.epics.len() + e]);
        }
        assert forall|e: int, i: int| 0 <= e < epics.len() && 0 <= i < split_epics@[e].tickets@.len() implies holds(
            created[nested_count(split_epics@, e as nat) + i],
            #[trigger] split_epics@[e].tickets@[i],
            Some(epics[e].id),
            splits,
        ) by {
            lemma_nested(split_epics@, m, epics_first, first, ids, e, i);
            let at = nested_count(split_epics@, e as nat) + i;
            assert(created[at] == children[at]);
            assert(epic_holds(epics[e], split_epics@[e]));
            lemma_holds(
                split_epics@[e].tickets@[i],
                ticket_name((first + at) as nat),
                Some(epic_name((epics_first + e) as nat)),
                ids,
                children[at],
                splits,
            );
        }
        assert forall|i: int| 0 <= i < created.len() implies (#[trigger] created[i]).id == ticket_name((first + i) as nat) by {
            if i < nested {
                assert(created[i] == children[i]);
            } else {
                assert(created[i] == splits[i - nested]);
                assert(ids[i - nested] == splits[i - nested].id);
            }
        }
        assert forall|i: int| 0 <= i < created.len() implies unworn((#[trigger] created[i]).id, b) by {
            assert(created[i].id == ticket_name((first + i) as nat));
            lemma_fresh(b, (first + i) as nat);
        }
        assert forall|i: int, j: int| 0 <= i < j < created.len() implies (#[trigger] created[i]).id != (
        #[trigger] created[j]).id by {
            ticket_names_differ((first + i) as nat, (first + j) as nat);
        }
        assert(epic_ids(epics) =~= epic_names(epics_first, m));
        assert(ticket_ids(created) =~= ticket_names(first, nested) + ids);
        assert(done.1.created_ids =~= epic_ids(epics) + ticket_ids(created));
    }
}

proof fn lemma_lens(s: StateModel, target: RefineTarget, title: Option<Text>, body: Text)
    requires
        retitled(s.board, target, title, body) is Ok,
    ensures
        ({
            let r = retitled(s.board, target, title, body)->Ok_0;
            let back = handed_back(StateModel { board: r.0, claims: s.claims }, target).board;
            back.tickets.len() == s.board.tickets.len() && back.epics.len() == s.board.epics.len()
        }),
{
    let r = retitled(s.board, target, title, body)->Ok_0;
    match target {
        RefineTarget::Ticket(id) => {
            lemma_named(s.board, id@);
            let t = s.board.ticket(id@)->0;
            let n = TicketModel { title: crate::ops::or_else(title, t.title), body, status: Status::Review, ..t };
            lemma_replaced(s.board, id@, n);
            let ts = crate::ops::with_ticket(r.0, id@, TicketModel { column: ColumnModel::Todo, ..n }).tickets;
            lemma_replaced(r.0, id@, TicketModel { column: ColumnModel::Todo, ..n });
            crate::laws::lemma_members_count(ts.remove(r.0.ticket_at(id@)), crate::store::model::ColumnId::Todo);
            assert(ticket_ids(ts) =~= ticket_ids(r.0.tickets));
            let todo = crate::store::model::ColumnId::Todo;
            let rest = ts.remove(r.0.ticket_at(id@));
            let m = crate::ops::members(rest, todo);
            assert(m.len() > 0 ==> 0 <= m[m.len() - 1] < rest.len());
            assert(0 <= crate::ops::place(rest, todo, Some(0)) <= rest.len());
            assert(r.0 == crate::ops::with_ticket(s.board, id@, n));
            assert(r.0.tickets.len() == s.board.tickets.len());
            assert(r.0.tickets[r.0.ticket_at(id@)] == n);
            assert(crate::ops::moved(r.0, id@, ColumnModel::Todo, Some(0)).tickets == rest.insert(
                crate::ops::place(rest, todo, Some(0)),
                ts[r.0.ticket_at(id@)],
            ));
        },
        RefineTarget::Epic(id) => {
            lemma_epic_named(s.board, id@);
        },
    }
}

/// A dependency that a part may be given: the id of a ticket, or a placeholder that names one of `n` split tickets.
pub open spec fn well_written(dep: Text, n: nat) -> bool {
    !has_prefix(dep, "new:"@) || exists|k: nat| k < n && dep == "new:"@ + #[trigger] decimal(k)
}

/// Every dependency of the part is one it may be given.
pub open spec fn part_well_written(spec: NewTicketSpec, n: nat) -> bool {
    forall|d: int| 0 <= d < spec.depends_on@.len() ==> well_written(#[trigger] spec.depends_on@[d]@, n)
}

proof fn lemma_resolves(dep: Text, ids: Seq<Text>)
    requires
        ids.len() <= usize::MAX,
        well_written(dep, ids.len()),
    ensures
        resolved(dep, ids) is Some,
{
    if has_prefix(dep, "new:"@) {
        let k = choose|k: nat| k < ids.len() && dep == "new:"@ + #[trigger] decimal(k);
        lemma_placeholder(k, ids);
    }
}

proof fn lemma_all_resolve(deps: Seq<Text>, ids: Seq<Text>)
    requires
        ids.len() <= usize::MAX,
        forall|d: int| 0 <= d < deps.len() ==> well_written(#[trigger] deps[d], ids.len()),
    ensures
        all_resolved(deps, ids) is Ok,
    decreases deps.len(),
{
    if deps.len() > 0 {
        lemma_all_resolve(deps.drop_last(), ids);
        assert(well_written(deps[deps.len() - 1], ids.len()));
        lemma_resolves(deps.last(), ids);
    }
}

proof fn lemma_batch_succeeds(specs: Seq<NewTicketSpec>, first: nat, epic: Option<Text>, ids: Seq<Text>)
    requires
        ids.len() <= usize::MAX,
        forall|i: int| 0 <= i < specs.len() ==> part_well_written(#[trigger] specs[i], ids.len()),
    ensures
        refined_batch(specs, first, epic, ids) is Ok,
    decreases specs.len(),
{
    if specs.len() > 0 {
        lemma_batch_succeeds(specs.drop_last(), first, epic, ids);
        let spec = specs[specs.len() - 1];
        assert(part_well_written(spec, ids.len()));
        let deps = models(spec.depends_on@);
        assert forall|d: int| 0 <= d < deps.len() implies well_written(#[trigger] deps[d], ids.len()) by {
            assert(deps[d] == spec.depends_on@[d]@);
        }
        lemma_all_resolve(deps, ids);
    }
}

proof fn lemma_nested_succeeds(specs: Seq<NewEpicSpec>, n: nat, epics_first: nat, first: nat, ids: Seq<Text>)
    requires
        ids.len() <= usize::MAX,
        n <= specs.len(),
        forall|e: int, i: int|
            0 <= e < n && 0 <= i < specs[e].tickets@.len() ==> part_well_written(#[trigger] specs[e].tickets@[i], ids.len()),
    ensures
        nested_batch(specs, n, epics_first, first, ids) is Ok,
    decreases n,
{
    if n > 0 {
        lemma_nested_succeeds(specs, (n - 1) as nat, epics_first, first, ids);
        lemma_batch_succeeds(
            specs[n - 1].tickets@,
            first + nested_count(specs, (n - 1) as nat),
            Some(epic_name((epics_first + n - 1) as nat)),
            ids,
        );
    }
}

/// A refinement of a stub, or of what is being refined again, succeeds when every dependency of its parts is an id or names one
/// of its split tickets.
pub proof fn a_sound_refinement_succeeds(
    s: StateModel,
    target: RefineTarget,
    title: Option<String>,
    body: String,
    split_tickets: Vec<NewTicketSpec>,
    split_epics: Vec<NewEpicSpec>,
    now: Timestamp,
)
    requires
        match target {
            RefineTarget::Ticket(id) => s.board.has_ticket(id@) && (s.board.ticket(id@)->0.status == Status::Stub
                || s.board.ticket(id@)->0.status == Status::Review),
            RefineTarget::Epic(id) => s.board.has_epic(id@) && (s.board.epic(id@)->0.status == Status::Stub || s.board.epic(
                id@,
            )->0.status == Status::Review),
        },
        forall|i: int|
            0 <= i < split_tickets@.len() ==> part_well_written(#[trigger] split_tickets@[i], split_tickets@.len()),
        forall|e: int, i: int|
            0 <= e < split_epics@.len() && 0 <= i < split_epics@[e].tickets@.len() ==> part_well_written(
                #[trigger] split_epics@[e].tickets@[i],
                split_tickets@.len(),
            ),
    ensures
        transition_spec(Op::Refine { target, title, body, split_tickets, split_epics }, s, now) is Ok,
{
    let r = retitled(s.board, target, opt_model(title), body@)->Ok_0;
    let back = handed_back(StateModel { board: r.0, claims: s.claims }, target);
    let first = back.board.ticket_seq();
    let nested = nested_count(split_epics@, split_epics@.len());
    let ids = ticket_names(first + nested, split_tickets@.len());
    assert(split_tickets.len() == split_tickets@.len());
    lemma_nested_succeeds(split_epics@, split_epics@.len(), back.board.epic_seq(), first, ids);
    lemma_batch_succeeds(split_tickets@, first + nested, r.1, ids);
}

proof fn lemma_names_nothing(k: nat, ids: Seq<Text>)
    requires
        k >= ids.len(),
    ensures
        resolved("new:"@ + decimal(k), ids) is None,
{
    let dep = "new:"@ + decimal(k);
    decimal_reads_back(k);
    assert(dep.subrange(0, "new:"@.len() as int) =~= "new:"@);
    assert(dep.subrange("new:"@.len() as int, dep.len() as int) =~= decimal(k));
}

/// A refinement is refused as a whole when a part of it depends on a split ticket that there is none of, when what it would
/// refine is not there, and when that is neither a stub nor being refined again.
pub proof fn an_unsound_refinement_is_refused(
    s: StateModel,
    target: RefineTarget,
    title: Option<String>,
    body: String,
    split_tickets: Vec<NewTicketSpec>,
    split_epics: Vec<NewEpicSpec>,
    now: Timestamp,
)
    ensures
        ({
            let refused = transition_spec(Op::Refine { target, title, body, split_tickets, split_epics }, s, now) is Err;
            &&& forall|i: int, d: int, k: nat|
                0 <= i < split_tickets@.len() && 0 <= d < split_tickets@[i].depends_on@.len() && k >= split_tickets@.len()
                    && (#[trigger] split_tickets@[i].depends_on@[d])@ == "new:"@ + #[trigger] decimal(k) ==> refused
            &&& forall|e: int, i: int, d: int, k: nat|
                0 <= e < split_epics@.len() && 0 <= i < split_epics@[e].tickets@.len() && 0 <= d
                    < split_epics@[e].tickets@[i].depends_on@.len() && k >= split_tickets@.len() && (
                #[trigger] split_epics@[e].tickets@[i].depends_on@[d])@ == "new:"@ + #[trigger] decimal(k) ==> refused
            &&& match target {
                RefineTarget::Ticket(id) => !s.board.has_ticket(id@) || s.board.ticket(id@)->0.status == Status::Draft
                    || s.board.ticket(id@)->0.status == Status::Ready ==> refused,
                RefineTarget::Epic(id) => !s.board.has_epic(id@) || s.board.epic(id@)->0.status == Status::Draft
                    || s.board.epic(id@)->0.status == Status::Ready ==> refused,
            }
        }),
{
    let op = Op::Refine { target, title, body, split_tickets, split_epics };
    if transition_spec(op, s, now) is Ok {
        let r = retitled(s.board, target, opt_model(title), body@)->Ok_0;
        let back = handed_back(StateModel { board: r.0, claims: s.claims }, target);
        let first = back.board.ticket_seq();
        let nested = nested_count(split_epics@, split_epics@.len());
        let ids = ticket_names(first + nested, split_tickets@.len());
        lemma_batch(split_tickets@, first + nested, r.1, ids);
        assert forall|i: int, d: int, k: nat|
            0 <= i < split_tickets@.len() && 0 <= d < split_tickets@[i].depends_on@.len() && k >= split_tickets@.len() implies (
        #[trigger] split_tickets@[i].depends_on@[d])@ != "new:"@ + #[trigger] decimal(k) by {
            let t = refined_batch(split_tickets@, first + nested, r.1, ids)->Ok_0[i];
            assert(refined_ticket(split_tickets@[i], ticket_name((first + nested + i) as nat), r.1, ids) == Ok::<
                TicketModel,
                Text,
            >(t));
            let deps = models(split_tickets@[i].depends_on@);
            lemma_all_resolved(deps, ids);
            assert(Some(all_resolved(deps, ids)->Ok_0[d]) == resolved(deps[d], ids));
            lemma_names_nothing(k, ids);
        }
        assert forall|e: int, i: int, d: int, k: nat|
            0 <= e < split_epics@.len() && 0 <= i < split_epics@[e].tickets@.len() && 0 <= d
                < split_epics@[e].tickets@[i].depends_on@.len() && k >= split_tickets@.len() implies (
        #[trigger] split_epics@[e].tickets@[i].depends_on@[d])@ != "new:"@ + #[trigger] decimal(k) by {
            lemma_nested(split_epics@, split_epics@.len(), back.board.epic_seq(), first, ids, e, i);
            let deps = models(split_epics@[e].tickets@[i].depends_on@);
            lemma_all_resolved(deps, ids);
            assert(Some(all_resolved(deps, ids)->Ok_0[d]) == resolved(deps[d], ids));
            lemma_names_nothing(k, ids);
        }
    }
}

// ---- mirroring ------------------------------------------------------------------------------------------------------

/// The ticket mirrors one item of a split: it holds its title and body, is bound to it and nothing else, and is `ready` and
/// already `doing` in the delegate's name, in its parent's epic.
pub open spec fn mirrors(t: TicketModel, child: SubIssueSpec, epic: Option<Text>, agent: Text) -> bool {
    &&& t.title == child.title@ && t.body == child.body@ && t.epic == epic && t.status == Status::Ready
    &&& t.column == (ColumnModel::Doing { owner: agent, branch: None })
    &&& t.external matches Some(x) && x.provider == "github"@ && x.kind == "issue"@ && x.number == child.number && !x.closed
        && x.flag is None && x.sub_issues.len() == 0
    &&& t.labels.len() == 0 && t.depends_on.len() == 0 && t.notes.len() == 0 && t.model is None && t.effort is None
    &&& t.pr is None && !t.auto_merge && !t.changes_requested && !t.accepted && !t.landing_blocked
}

proof fn lemma_delegated_claims(cs: Seq<ClaimModel>, first: nat, n: nat, agent: Text, now: Timestamp)
    requires
        one_each(cs),
    ensures
        ({
            let after = crate::ops::delegated_claims(cs, first, n, agent, now);
            &&& one_each(after)
            &&& forall|i: int|
                0 <= i < n ==> #[trigger] found(after, ticket_name((first + i) as nat)) == Some(
                    ClaimModel {
                        ticket: ticket_name((first + i) as nat),
                        agent,
                        since: now,
                        path: None,
                        kind: ClaimKind::Work,
                    },
                )
            &&& forall|x: Text|
                (forall|i: int| 0 <= i < n ==> x != #[trigger] ticket_name((first + i) as nat)) ==> #[trigger] found(after, x)
                    == found(cs, x)
        }),
    decreases n,
{
    if n > 0 {
        let m = (n - 1) as nat;
        lemma_delegated_claims(cs, first, m, agent, now);
        let before = crate::ops::delegated_claims(cs, first, m, agent, now);
        let last = ticket_name((first + n - 1) as nat);
        let c = ClaimModel { ticket: last, agent, since: now, path: None, kind: ClaimKind::Work };
        let after = crate::ops::delegated_claims(cs, first, n, agent, now);
        assert(after == crate::store::claims::upserted(before, c));
        upsert_then_find(before, c, last);
        assert forall|i: int| 0 <= i < n implies #[trigger] found(after, ticket_name((first + i) as nat)) == Some(
            ClaimModel { ticket: ticket_name((first + i) as nat), agent, since: now, path: None, kind: ClaimKind::Work },
        ) by {
            if i < m {
                ticket_names_differ((first + i) as nat, (first + n - 1) as nat);
                upsert_then_find(before, c, ticket_name((first + i) as nat));
            }
        }
        assert forall|x: Text|
            (forall|i: int| 0 <= i < n ==> x != #[trigger] ticket_name((first + i) as nat)) implies #[trigger] found(after, x)
            == found(cs, x) by {
            assert(x != ticket_name((first + m) as nat));
            upsert_then_find(before, c, x);
        }
    }
}

/// Mirroring a split succeeds exactly on a bound ticket. The parent goes to the bottom of `review` on its branch, unclaimed,
/// depending on the mirrored tickets too, its binding naming their items; and behind everything else stands one ticket for
/// each item, in order, held by the delegate.
#[verifier::spinoff_prover]
#[verifier::rlimit(40)]
pub proof fn mirroring_creates_a_ticket_per_item(
    s: StateModel,
    parent: TicketId,
    agent: String,
    children: Vec<SubIssueSpec>,
    now: Timestamp,
)
    requires
        ids_fit(Op::MirrorSubIssues { parent, agent, children }, s.board),
        ticket_ids(s.board.tickets).no_duplicates(),
        one_each(s.claims),
    ensures
        match (s.board.ticket(parent@), transition_spec(Op::MirrorSubIssues { parent, agent, children }, s, now)) {
            (None, Err(e)) => e == OpErrorModel::NotFound(parent@),
            (Some(t), Err(_)) => t.external is None,
            (Some(t), Ok(done)) => {
                let b = s.board;
                let after = done.0.board;
                let base = kept(b, after);
                let created = after.tickets.subrange(b.tickets.len() as int, after.tickets.len() as int);
                let x = t.external->0;
                &&& t.external is Some
                &&& created.len() == children@.len()
                &&& forall|i: int|
                    0 <= i < created.len() ==> mirrors(#[trigger] created[i], children@[i], t.epic, agent@) && unworn(
                        created[i].id,
                        b,
                    )
                &&& forall|i: int, j: int|
                    0 <= i < j < created.len() ==> (#[trigger] created[i]).id != (#[trigger] created[j]).id
                &&& only_ticket_moved(
                    b,
                    base,
                    parent@,
                    TicketModel {
                        column: ColumnModel::Review { branch: t.column.branch() },
                        depends_on: t.depends_on + ticket_ids(created),
                        external: Some(
                            ExternalModel {
                                sub_issues: x.sub_issues + Seq::new(children@.len(), |i: int| children@[i].number),
                                ..x
                            },
                        ),
                        ..t
                    },
                    None,
                )
                &&& forall|i: int|
                    0 <= i < created.len() ==> (found(done.0.claims, (#[trigger] created[i]).id) matches Some(c) && c.agent
                        == agent@ && c.since == now && c.path is None && c.kind == ClaimKind::Work)
                &&& found(done.0.claims, parent@) is None
                &&& forall|y: Text|
                    y != parent@ && !ticket_ids(created).contains(y) ==> #[trigger] found(done.0.claims, y) == found(s.claims, y)
                &&& done.1.created_ids == ticket_ids(created)
            },
            _ => false,
        },
{
    let b = s.board;
    let op = Op::MirrorSubIssues { parent, agent, children };
    if b.has_ticket(parent@) {
        lemma_named(b, parent@);
        let t = b.ticket(parent@)->0;
        if let Ok(done) = transition_spec(op, s, now) {
            let x = t.external->0;
            let first = b.ticket_seq();
            let n = children@.len();
            let p = crate::ops::split_parent(t, x, first, children@);
            lemma_moved_only(b, parent@, p, ColumnModel::Review { branch: t.column.branch() }, None);
            let after = done.0.board;
            let base = kept(b, after);
            let parked = crate::ops::moved(
                crate::ops::with_ticket(b, parent@, p),
                parent@,
                ColumnModel::Review { branch: t.column.branch() },
                None,
            );
            assert(parked.tickets.len() == b.tickets.len());
            let created = after.tickets.subrange(b.tickets.len() as int, after.tickets.len() as int);
            let mirrored = Seq::new(
                n,
                |i: int| crate::ops::mirrored(ticket_name((first + i) as nat), t.epic, agent@, children@[i]),
            );
            assert(created =~= mirrored);
            assert(base.tickets =~= parked.tickets);
            assert(base.epics =~= b.epics);
            assert(base == parked);
            assert(ticket_ids(created) =~= ticket_names(first, n));
            assert(crate::ops::child_numbers(children@) =~= Seq::new(children@.len(), |i: int| children@[i].number));
            assert forall|i: int| 0 <= i < created.len() implies mirrors(
                #[trigger] created[i],
                children@[i],
                t.epic,
                agent@,
            ) && unworn(created[i].id, b) by {
                lemma_fresh(b, (first + i) as nat);
            }
            assert forall|i: int, j: int| 0 <= i < j < created.len() implies (#[trigger] created[i]).id != (
            #[trigger] created[j]).id by {
                ticket_names_differ((first + i) as nat, (first + j) as nat);
            }
            lemma_claim_dropped(s.claims, parent@);
            crate::store::claims::remove_then_find(s.claims, parent@, parent@);
            let dropped = crate::store::claims::removed(s.claims, parent@);
            lemma_delegated_claims(dropped, first, n, agent@, now);
            assert forall|i: int| 0 <= i < n implies parent@ != #[trigger] ticket_name((first + i) as nat) by {
                lemma_fresh(b, (first + i) as nat);
                assert(ticket_ids(b.tickets)[b.ticket_at(parent@)] == parent@);
            }
            assert forall|i: int| 0 <= i < created.len() implies (found(done.0.claims, (#[trigger] created[i]).id) matches Some(
                c,
            ) && c.agent == agent@ && c.since == now && c.path is None && c.kind == ClaimKind::Work) by {
                assert(found(done.0.claims, ticket_name((first + i) as nat)) is Some);
            }
            assert(found(done.0.claims, parent@) == found(dropped, parent@));
            assert forall|y: Text| y != parent@ && !ticket_ids(created).contains(y) implies #[trigger] found(done.0.claims, y)
                == found(s.claims, y) by {
                assert forall|i: int| 0 <= i < n implies y != #[trigger] ticket_name((first + i) as nat) by {
                    assert(ticket_ids(created)[i] == ticket_name((first + i) as nat));
                }
            }
        }
    }
}

} // verus!
