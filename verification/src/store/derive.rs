//! Read-side derivations: everything the board means but deliberately does not store.
//!
//! An epic's column, a ticket's blocked-ness, its live claim and the next thing to work on are all views over the board
//! and its claims, computed on every read so that they can never disagree with them.
use vstd::prelude::*;

use super::claims::{found, find, Claim, ClaimKind, ClaimModel, LANDING_STALE_AFTER};
use super::model::{
    clone_opt, is_epic, Board, BoardModel, Column, ColumnId, ColumnMeta, ColumnMetaModel, ColumnModel, Epic, EpicId, EpicModel,
    Status, Ticket, TicketId, TicketModel,
};
use crate::seqs::{models, opt_model};
use crate::text::{concat2, join, join_spec, listed, Text};
use crate::time::{within, Timestamp};

verus! {

broadcast use crate::seqs::group_models;

// ---- epics ----------------------------------------------------------------------------------------------------------

/// The ticket at `i` belongs to `epic`.
pub open spec fn member(ts: Seq<TicketModel>, epic: Text, i: int) -> bool {
    0 <= i < ts.len() && ts[i].epic == Some(epic)
}

/// An epic's column: `done` when every one of its tickets is done, `review` when each is at least code-complete, `doing`
/// once any has started, `todo` otherwise. An epic without tickets is `todo`.
pub open spec fn epic_column_spec(epic: Text, ts: Seq<TicketModel>) -> ColumnId {
    if !exists|i: int| member(ts, epic, i) {
        ColumnId::Todo
    } else if forall|i: int| member(ts, epic, i) ==> ts[i].column is Done {
        ColumnId::Done
    } else if forall|i: int| member(ts, epic, i) ==> ts[i].column is Done || ts[i].column is Review {
        ColumnId::Review
    } else if exists|i: int| member(ts, epic, i) && !(ts[i].column is Todo) {
        ColumnId::Doing
    } else {
        ColumnId::Todo
    }
}

/// An epic's derived column.
pub fn epic_column(epic: &EpicId, board: &Board) -> (r: ColumnId)
    ensures
        r == epic_column_spec(epic@, board@.tickets),
{
    let ghost ts = board@.tickets;
    let mut any: bool = false;
    let mut all_done: bool = true;
    let mut all_settled: bool = true;
    let mut started: bool = false;
    let mut i: usize = 0;
    while i < board.tickets.len()
        invariant
            ts == board@.tickets,
            i <= board.tickets@.len(),
            any == (exists|j: int| member(ts, epic@, j) && j < i),
            all_done == (forall|j: int| member(ts, epic@, j) && j < i ==> ts[j].column is Done),
            all_settled == (forall|j: int|
                member(ts, epic@, j) && j < i ==> ts[j].column is Done || ts[j].column is Review),
            started == (exists|j: int| member(ts, epic@, j) && j < i && !(ts[j].column is Todo)),
        decreases board.tickets@.len() - i,
    {
        assert(ts[i as int] == board.tickets@[i as int]@);
        if is_epic(&board.tickets[i].epic, epic) {
            assert(member(ts, epic@, i as int));
            any = true;
            match &board.tickets[i].column {
                Column::Done { .. } => {
                    started = true;
                },
                Column::Review { .. } => {
                    all_done = false;
                    started = true;
                },
                Column::Doing { .. } => {
                    all_done = false;
                    all_settled = false;
                    started = true;
                },
                Column::Todo => {
                    all_done = false;
                    all_settled = false;
                },
            }
        } else {
            assert(!member(ts, epic@, i as int));
        }
        i = i + 1;
    }
    if any && all_done {
        ColumnId::Done
    } else if any && all_settled {
        ColumnId::Review
    } else if started {
        ColumnId::Doing
    } else {
        ColumnId::Todo
    }
}

// ---- blocked, auto-merge --------------------------------------------------------------------------------------------

/// The ticket `dep` is on the board and landed.
pub open spec fn landed(b: BoardModel, dep: Text) -> bool {
    b.ticket(dep) matches Some(t) && t.column.landed()
}

/// Some dependency has not landed. A discarded or missing one never will.
pub open spec fn is_blocked(t: TicketModel, b: BoardModel) -> bool {
    exists|i: int| 0 <= i < t.depends_on.len() && !landed(b, #[trigger] t.depends_on[i])
}

/// The ticket's own grant, or its epic's.
pub open spec fn may_auto_merge(t: TicketModel, b: BoardModel) -> bool {
    t.auto_merge || (t.epic matches Some(e) && b.epic(e) matches Some(epic) && epic.auto_merge)
}

/// Whether the ticket `dep` is on the board and landed.
pub fn dependency_landed(board: &Board, dep: &TicketId) -> (r: bool)
    ensures
        r == landed(board@, dep@),
{
    match board.ticket(dep) {
        Some(t) => t.column.landed(),
        None => false,
    }
}

/// A ticket is blocked while any of its dependencies has not landed.
pub fn blocked(ticket: &Ticket, board: &Board) -> (r: bool)
    ensures
        r == is_blocked(ticket@, board@),
{
    let mut i: usize = 0;
    while i < ticket.depends_on.len()
        invariant
            i <= ticket.depends_on@.len(),
            forall|j: int| 0 <= j < i ==> landed(board@, #[trigger] ticket@.depends_on[j]),
        decreases ticket.depends_on@.len() - i,
    {
        if !dependency_landed(board, &ticket.depends_on[i]) {
            assert(!landed(board@, ticket@.depends_on[i as int]));
            return true;
        }
        i = i + 1;
    }
    false
}

/// Whether this ticket may land without a human seeing the merge: its own flag, or its epic's. A missing epic grants
/// nothing.
pub fn auto_merge(ticket: &Ticket, board: &Board) -> (r: bool)
    ensures
        r == may_auto_merge(ticket@, board@),
{
    if ticket.auto_merge {
        return true;
    }
    match &ticket.epic {
        Some(id) => match board.epic(id) {
            Some(e) => e.auto_merge,
            None => false,
        },
        None => false,
    }
}

// ---- the next ticket ------------------------------------------------------------------------------------------------

/// The handoff contract, apart from the column: `ready` or `stub`, not external, unblocked, unclaimed.
pub open spec fn eligible(t: TicketModel, b: BoardModel, cs: Seq<ClaimModel>) -> bool {
    &&& t.status == Status::Ready || t.status == Status::Stub
    &&& t.external is None
    &&& !is_blocked(t, b)
    &&& found(cs, t.id) is None
}

/// The ticket at `i` may be worked on next.
pub open spec fn offered(b: BoardModel, cs: Seq<ClaimModel>, i: int) -> bool {
    0 <= i < b.tickets.len() && b.tickets[i].column is Todo && eligible(b.tickets[i], b, cs)
}

/// `t` is the highest ticket that may be worked on next.
pub open spec fn highest_offered(b: BoardModel, cs: Seq<ClaimModel>, t: TicketModel) -> bool {
    exists|i: int|
        #[trigger] offered(b, cs, i) && b.tickets[i] == t && forall|j: int| 0 <= j < i ==> !(#[trigger] offered(b, cs, j))
}

fn is_eligible(t: &Ticket, board: &Board, claims: &[Claim]) -> (r: bool)
    ensures
        r == eligible(t@, board@, models(claims@)),
{
    (t.status == Status::Ready || t.status == Status::Stub) && t.external.is_none() && !blocked(t, board) && find(
        claims,
        &t.id,
    ).is_none()
}

/// The highest ticket in `todo` that is unblocked, unclaimed, not external, and either `ready` or `stub`.
pub fn next_ticket<'a>(board: &'a Board, claims: &[Claim]) -> (r: Option<&'a Ticket>)
    ensures
        match r {
            Some(t) => highest_offered(board@, models(claims@), t@),
            None => forall|i: int| !(#[trigger] offered(board@, models(claims@), i)),
        },
{
    let ghost cs = models(claims@);
    let mut i: usize = 0;
    while i < board.tickets.len()
        invariant
            cs == models(claims@),
            i <= board.tickets@.len(),
            forall|j: int| 0 <= j < i ==> !(#[trigger] offered(board@, cs, j)),
        decreases board.tickets@.len() - i,
    {
        let t: &'a Ticket = &board.tickets[i];
        assert(board@.tickets[i as int] == t@);
        if t.column.id() == ColumnId::Todo && is_eligible(t, board, claims) {
            assert(offered(board@, cs, i as int));
            return Some(t);
        }
        i = i + 1;
    }
    None
}

/// The dependencies of `deps` that have not landed, in order.
pub open spec fn unmet(deps: Seq<Text>, b: BoardModel) -> Seq<Text>
    decreases deps.len(),
{
    if deps.len() == 0 {
        Seq::empty()
    } else {
        let before = unmet(deps.drop_last(), b);
        if landed(b, deps.last()) {
            before
        } else {
            before.push(deps.last())
        }
    }
}

/// Why a todo ticket is not the next thing to work on: the first test it fails. `None` when it passes them all.
pub open spec fn ineligibility_spec(t: TicketModel, b: BoardModel, cs: Seq<ClaimModel>) -> Option<Text> {
    if t.status == Status::Draft {
        Some("draft — the human's to shape, never an agent's"@)
    } else if t.status == Status::Review {
        Some("status review — waiting to be promoted to ready"@)
    } else if t.external is Some {
        Some("external — worked by a delegate, not from here"@)
    } else if is_blocked(t, b) {
        Some("blocked by "@ + join_spec(unmet(t.depends_on, b), ", "@))
    } else {
        match found(cs, t.id) {
            Some(c) => Some("claimed by "@ + c.agent),
            None => None,
        }
    }
}

/// The reasons for every todo ticket among `ts` that is not eligible, in board order.
pub open spec fn ineligible_spec(ts: Seq<TicketModel>, b: BoardModel, cs: Seq<ClaimModel>) -> Seq<(Text, Text)>
    decreases ts.len(),
{
    if ts.len() == 0 {
        Seq::empty()
    } else {
        let before = ineligible_spec(ts.drop_last(), b, cs);
        let t = ts.last();
        if t.column is Todo {
            match ineligibility_spec(t, b, cs) {
                Some(why) => before.push((t.id, why)),
                None => before,
            }
        } else {
            before
        }
    }
}

/// Why this todo ticket is not the next thing to work on; `None` when it is eligible.
fn ineligibility(ticket: &Ticket, board: &Board, claims: &[Claim]) -> (r: Option<String>)
    ensures
        opt_model(r) == ineligibility_spec(ticket@, board@, models(claims@)),
{
    match ticket.status {
        Status::Draft => return Some("draft — the human's to shape, never an agent's".to_owned()),
        Status::Review => return Some("status review — waiting to be promoted to ready".to_owned()),
        Status::Ready => {},
        Status::Stub => {},
    }
    if ticket.external.is_some() {
        return Some("external — worked by a delegate, not from here".to_owned());
    }
    if blocked(ticket, board) {
        let ghost deps = ticket@.depends_on;
        let mut waiting: Vec<String> = Vec::new();
        let mut i: usize = 0;
        while i < ticket.depends_on.len()
            invariant
                deps == models(ticket.depends_on@),
                i <= ticket.depends_on@.len(),
                models(waiting@) == unmet(deps.take(i as int), board@),
            decreases ticket.depends_on@.len() - i,
        {
            proof {
                assert(deps.take(i + 1).drop_last() =~= deps.take(i as int));
                assert(deps.take(i + 1).last() == ticket.depends_on@[i as int]@);
            }
            if !dependency_landed(board, &ticket.depends_on[i]) {
                waiting.push(ticket.depends_on[i].to_string());
            }
            i = i + 1;
        }
        assert(deps.take(deps.len() as int) =~= deps);
        return Some(concat2("blocked by ", &join(&waiting, ", ")));
    }
    match find(claims, &ticket.id) {
        Some(c) => Some(concat2("claimed by ", &c.agent)),
        None => None,
    }
}

/// Pairs of a ticket id and a text, by their views.
pub open spec fn reasons(v: Seq<(TicketId, String)>) -> Seq<(Text, Text)> {
    Seq::new(v.len(), |i: int| (v[i].0@, v[i].1@))
}

/// Every todo ticket that is not eligible, and why.
pub fn ineligible(board: &Board, claims: &[Claim]) -> (r: Vec<(TicketId, String)>)
    ensures
        reasons(r@) == ineligible_spec(board@.tickets, board@, models(claims@)),
{
    let ghost ts = board@.tickets;
    let ghost cs = models(claims@);
    let mut out: Vec<(TicketId, String)> = Vec::new();
    let mut i: usize = 0;
    assert(reasons(out@) =~= ineligible_spec(ts.take(0), board@, cs));
    while i < board.tickets.len()
        invariant
            ts == board@.tickets,
            cs == models(claims@),
            i <= board.tickets@.len(),
            reasons(out@) == ineligible_spec(ts.take(i as int), board@, cs),
        decreases board.tickets@.len() - i,
    {
        let t: &Ticket = &board.tickets[i];
        let ghost so_far = out@;
        proof {
            assert(ts.take(i + 1).drop_last() =~= ts.take(i as int));
            assert(ts.take(i + 1).last() == t@);
        }
        if t.column.id() == ColumnId::Todo {
            match ineligibility(t, board, claims) {
                Some(why) => {
                    let ghost text = why@;
                    out.push((t.id.clone(), why));
                    assert(reasons(out@) =~= reasons(so_far).push((t@.id, text)));
                },
                None => {},
            }
        }
        i = i + 1;
    }
    assert(ts.take(ts.len() as int) =~= ts);
    out
}

// ---- the read model -------------------------------------------------------------------------------------------------

/// A live claim as readers see it, including whether its worktree has vanished.
#[derive(Debug)]
pub struct ClaimView {
    pub agent: String,
    pub since: Timestamp,
    pub path: Option<String>,
    /// The recorded worktree is not on disk: restorable, not live work.
    pub worktree_missing: bool,
    /// An in-flight landing rather than ownership.
    pub landing: bool,
    /// That landing is too old to believe.
    pub landing_stale: bool,
}

pub struct ClaimViewModel {
    pub agent: Text,
    pub since: Timestamp,
    pub path: Option<Text>,
    pub worktree_missing: bool,
    pub landing: bool,
    pub landing_stale: bool,
}

impl View for ClaimView {
    type V = ClaimViewModel;

    open spec fn view(&self) -> ClaimViewModel {
        ClaimViewModel {
            agent: self.agent@,
            since: self.since,
            path: opt_model(self.path),
            worktree_missing: self.worktree_missing,
            landing: self.landing,
            landing_stale: self.landing_stale,
        }
    }
}

/// A claim read at `now`, when the worktrees `gone` are not on disk.
pub open spec fn claim_view(c: ClaimModel, gone: Seq<Text>, now: Timestamp) -> ClaimViewModel {
    ClaimViewModel {
        agent: c.agent,
        since: c.since,
        path: c.path,
        worktree_missing: c.path matches Some(p) && gone.contains(p),
        landing: c.kind == ClaimKind::Landing,
        landing_stale: c.kind == ClaimKind::Landing && now.instant() - c.since.instant() >= LANDING_STALE_AFTER * 1_000_000_000,
    }
}

impl ClaimView {
    /// A claim as readers see it at `now`, when the worktrees `gone` are not on disk.
    pub fn of(c: &Claim, gone: &Vec<String>, now: Timestamp) -> (r: ClaimView)
        ensures
            r@ == claim_view(c@, models(gone@), now),
    {
        let worktree_missing: bool = match &c.path {
            Some(p) => listed(gone, p),
            None => false,
        };
        ClaimView {
            agent: c.agent.clone(),
            since: c.since,
            path: clone_opt(&c.path),
            worktree_missing,
            landing: c.is_landing(),
            landing_stale: c.is_landing() && !within(now, c.since, LANDING_STALE_AFTER),
        }
    }
}

/// A ticket plus its derived facts.
#[derive(Debug)]
pub struct TicketView {
    pub ticket: Ticket,
    /// True while any dependency has not landed.
    pub blocked: bool,
    /// The ticket's own `auto_merge` or its epic's.
    pub auto_merge_effective: bool,
    /// The live claim, when someone is working this right now.
    pub claim: Option<ClaimView>,
}

pub struct TicketViewModel {
    pub ticket: TicketModel,
    pub blocked: bool,
    pub auto_merge_effective: bool,
    pub claim: Option<ClaimViewModel>,
}

impl View for TicketView {
    type V = TicketViewModel;

    open spec fn view(&self) -> TicketViewModel {
        TicketViewModel {
            ticket: self.ticket@,
            blocked: self.blocked,
            auto_merge_effective: self.auto_merge_effective,
            claim: opt_model(self.claim),
        }
    }
}

/// One line of an epic's checklist.
#[derive(Debug)]
pub struct ChecklistItem {
    pub ticket: TicketId,
    pub title: String,
    pub done: bool,
}

pub struct ChecklistItemModel {
    pub ticket: Text,
    pub title: Text,
    pub done: bool,
}

impl View for ChecklistItem {
    type V = ChecklistItemModel;

    open spec fn view(&self) -> ChecklistItemModel {
        ChecklistItemModel { ticket: self.ticket@, title: self.title@, done: self.done }
    }
}

/// An epic plus its derived column and checklist.
#[derive(Debug)]
pub struct EpicView {
    pub epic: Epic,
    /// Derived from the epic's tickets, never stored.
    pub column: ColumnId,
    /// One line per ticket, ticked when done.
    pub tickets: Vec<ChecklistItem>,
}

pub struct EpicViewModel {
    pub epic: EpicModel,
    pub column: ColumnId,
    pub tickets: Seq<ChecklistItemModel>,
}

impl View for EpicView {
    type V = EpicViewModel;

    open spec fn view(&self) -> EpicViewModel {
        EpicViewModel { epic: self.epic@, column: self.column, tickets: models(self.tickets@) }
    }
}

/// Everything a reader of the board sees: stored state plus derived facts.
#[derive(Debug)]
pub struct BoardView {
    pub version: u64,
    pub columns: Vec<ColumnMeta>,
    pub tickets: Vec<TicketView>,
    pub epics: Vec<EpicView>,
}

pub struct BoardViewModel {
    pub version: u64,
    pub columns: Seq<ColumnMetaModel>,
    pub tickets: Seq<TicketViewModel>,
    pub epics: Seq<EpicViewModel>,
}

impl View for BoardView {
    type V = BoardViewModel;

    open spec fn view(&self) -> BoardViewModel {
        BoardViewModel {
            version: self.version,
            columns: models(self.columns@),
            tickets: models(self.tickets@),
            epics: models(self.epics@),
        }
    }
}

/// The view of one ticket.
pub open spec fn ticket_view(
    t: TicketModel,
    b: BoardModel,
    cs: Seq<ClaimModel>,
    gone: Seq<Text>,
    now: Timestamp,
) -> TicketViewModel {
    TicketViewModel {
        ticket: t,
        blocked: is_blocked(t, b),
        auto_merge_effective: may_auto_merge(t, b),
        claim: match found(cs, t.id) {
            Some(c) => Some(claim_view(c, gone, now)),
            None => None,
        },
    }
}

/// The checklist of an epic: one line per ticket that belongs to it, in board order.
pub open spec fn checklist(ts: Seq<TicketModel>, epic: Text) -> Seq<ChecklistItemModel>
    decreases ts.len(),
{
    if ts.len() == 0 {
        Seq::empty()
    } else {
        let before = checklist(ts.drop_last(), epic);
        let t = ts.last();
        if t.epic == Some(epic) {
            before.push(ChecklistItemModel { ticket: t.id, title: t.title, done: t.column is Done })
        } else {
            before
        }
    }
}

/// The view of one epic.
pub open spec fn epic_view(e: EpicModel, b: BoardModel) -> EpicViewModel {
    EpicViewModel { epic: e, column: epic_column_spec(e.id, b.tickets), tickets: checklist(b.tickets, e.id) }
}

/// The whole read model.
pub open spec fn board_view_spec(b: BoardModel, cs: Seq<ClaimModel>, gone: Seq<Text>, now: Timestamp) -> BoardViewModel {
    BoardViewModel {
        version: b.version,
        columns: b.columns,
        tickets: Seq::new(b.tickets.len(), |i: int| ticket_view(b.tickets[i], b, cs, gone, now)),
        epics: Seq::new(b.epics.len(), |i: int| epic_view(b.epics[i], b)),
    }
}

/// The checklist of `epic`.
pub fn checklist_of(board: &Board, epic: &EpicId) -> (r: Vec<ChecklistItem>)
    ensures
        models(r@) == checklist(board@.tickets, epic@),
{
    let ghost ts = board@.tickets;
    let mut out: Vec<ChecklistItem> = Vec::new();
    let mut i: usize = 0;
    while i < board.tickets.len()
        invariant
            ts == board@.tickets,
            i <= board.tickets@.len(),
            models(out@) == checklist(ts.take(i as int), epic@),
        decreases board.tickets@.len() - i,
    {
        let t: &Ticket = &board.tickets[i];
        proof {
            assert(ts.take(i + 1).drop_last() =~= ts.take(i as int));
            assert(ts.take(i + 1).last() == t@);
        }
        if is_epic(&t.epic, epic) {
            let done: bool = t.column.id() == ColumnId::Done;
            out.push(ChecklistItem { ticket: t.id.clone(), title: t.title.clone(), done });
        }
        i = i + 1;
    }
    assert(ts.take(ts.len() as int) =~= ts);
    out
}

/// The board joined with its live claims and every derived fact. `gone` lists the recorded worktrees that are not on
/// disk, `now` is the time of the read.
pub fn board_view(board: &Board, claims: &[Claim], gone: &Vec<String>, now: Timestamp) -> (r: BoardView)
    ensures
        r@ == board_view_spec(board@, models(claims@), models(gone@), now),
{
    let ghost spec = board_view_spec(board@, models(claims@), models(gone@), now);
    let mut tickets: Vec<TicketView> = Vec::new();
    let mut i: usize = 0;
    while i < board.tickets.len()
        invariant
            spec == board_view_spec(board@, models(claims@), models(gone@), now),
            i <= board.tickets@.len(),
            tickets@.len() == i,
            forall|j: int| 0 <= j < i ==> (#[trigger] tickets@[j])@ == spec.tickets[j],
        decreases board.tickets@.len() - i,
    {
        let t: &Ticket = &board.tickets[i];
        assert(board@.tickets[i as int] == t@);
        let claim: Option<ClaimView> = match find(claims, &t.id) {
            Some(c) => Some(ClaimView::of(c, gone, now)),
            None => None,
        };
        tickets.push(
            TicketView {
                ticket: t.clone(),
                blocked: blocked(t, board),
                auto_merge_effective: auto_merge(t, board),
                claim,
            },
        );
        i = i + 1;
    }
    let mut epics: Vec<EpicView> = Vec::new();
    let mut k: usize = 0;
    while k < board.epics.len()
        invariant
            spec == board_view_spec(board@, models(claims@), models(gone@), now),
            k <= board.epics@.len(),
            epics@.len() == k,
            forall|j: int| 0 <= j < k ==> (#[trigger] epics@[j])@ == spec.epics[j],
        decreases board.epics@.len() - k,
    {
        let e: &Epic = &board.epics[k];
        assert(board@.epics[k as int] == e@);
        epics.push(
            EpicView { epic: e.clone(), column: epic_column(&e.id, board), tickets: checklist_of(board, &e.id) },
        );
        k = k + 1;
    }
    let columns: Vec<ColumnMeta> = super::model::clone_columns(&board.columns);
    let r: BoardView = BoardView { version: board.version, columns, tickets, epics };
    assert(r@.tickets =~= spec.tickets);
    assert(r@.epics =~= spec.epics);
    r
}

// ---- laws -----------------------------------------------------------------------------------------------------------

/// A reason is given exactly for what is not eligible, so a todo ticket is either offered or explained.
pub proof fn every_todo_ticket_is_offered_or_explained(t: TicketModel, b: BoardModel, cs: Seq<ClaimModel>)
    ensures
        ineligibility_spec(t, b, cs) is None <==> eligible(t, b, cs),
{
}

/// `ineligible` names exactly the todo tickets that `next_ticket` would never hand out.
pub proof fn ineligible_names_what_is_not_offered(b: BoardModel, cs: Seq<ClaimModel>, i: int)
    requires
        0 <= i < b.tickets.len(),
    ensures
        b.tickets[i].column is Todo && !offered(b, cs, i) ==> exists|k: int|
            0 <= k < ineligible_spec(b.tickets, b, cs).len() && (#[trigger] ineligible_spec(b.tickets, b, cs)[k]).0
                == b.tickets[i].id,
        ineligible_spec(b.tickets, b, cs).len() == 0 <==> forall|j: int|
            0 <= j < b.tickets.len() && b.tickets[j].column is Todo ==> #[trigger] offered(b, cs, j),
{
    lemma_ineligible(b.tickets, b, cs, i);
    if ineligible_spec(b.tickets, b, cs).len() == 0 {
        assert forall|j: int| 0 <= j < b.tickets.len() && b.tickets[j].column is Todo implies #[trigger] offered(
            b,
            cs,
            j,
        ) by {
            lemma_ineligible(b.tickets, b, cs, j);
        }
    } else {
        lemma_ineligible_origin(b.tickets, b, cs);
        let ts = b.tickets;
        let j = choose|j: int| 0 <= j < ts.len() && (#[trigger] ts[j]).column is Todo && !eligible(ts[j], b, cs);
        assert(!offered(b, cs, j));
    }
}

proof fn lemma_ineligible(ts: Seq<TicketModel>, b: BoardModel, cs: Seq<ClaimModel>, i: int)
    requires
        0 <= i < ts.len(),
    ensures
        ts[i].column is Todo && !eligible(ts[i], b, cs) ==> exists|k: int|
            0 <= k < ineligible_spec(ts, b, cs).len() && (#[trigger] ineligible_spec(ts, b, cs)[k]).0 == ts[i].id,
    decreases ts.len(),
{
    every_todo_ticket_is_offered_or_explained(ts.last(), b, cs);
    let all = ineligible_spec(ts, b, cs);
    let before = ineligible_spec(ts.drop_last(), b, cs);
    if ts[i].column is Todo && !eligible(ts[i], b, cs) {
        if i == ts.len() - 1 {
            assert(all[all.len() - 1].0 == ts[i].id);
        } else {
            lemma_ineligible(ts.drop_last(), b, cs, i);
            let k = choose|k: int| 0 <= k < before.len() && (#[trigger] before[k]).0 == ts[i].id;
            assert(all[k] == before[k]);
        }
    }
}

proof fn lemma_ineligible_origin(ts: Seq<TicketModel>, b: BoardModel, cs: Seq<ClaimModel>)
    requires
        ineligible_spec(ts, b, cs).len() > 0,
    ensures
        exists|j: int| 0 <= j < ts.len() && (#[trigger] ts[j]).column is Todo && !eligible(ts[j], b, cs),
    decreases ts.len(),
{
    every_todo_ticket_is_offered_or_explained(ts.last(), b, cs);
    if ts.last().column is Todo && !eligible(ts.last(), b, cs) {
        assert(ts[ts.len() - 1].column is Todo);
    } else {
        lemma_ineligible_origin(ts.drop_last(), b, cs);
        let front = ts.drop_last();
        let j = choose|j: int| 0 <= j < front.len() && (#[trigger] front[j]).column is Todo && !eligible(front[j], b, cs);
        assert(ts[j].column is Todo);
    }
}

/// A ticket that depends on a discarded ticket stays blocked, whatever else has landed.
pub proof fn a_discarded_dependency_blocks(t: TicketModel, b: BoardModel, i: int)
    requires
        0 <= i < t.depends_on.len(),
        b.ticket(t.depends_on[i]) matches Some(d) && d.column matches ColumnModel::Done { discarded, .. } && discarded,
    ensures
        is_blocked(t, b),
{
    assert(!landed(b, t.depends_on[i]));
}

/// An epic's grant is only ever read: clearing it takes the permission back from each of its tickets that has no grant of
/// its own, and no ticket changes.
pub proof fn clearing_an_epics_grant_takes_it_back(t: TicketModel, b: BoardModel, epic: Text)
    requires
        t.epic == Some(epic),
        b.has_epic(epic),
    ensures
        ({
            let cleared = BoardModel {
                epics: b.epics.update(b.epic_at(epic), EpicModel { auto_merge: false, ..b.epics[b.epic_at(epic)] }),
                ..b
            };
            may_auto_merge(t, cleared) == t.auto_merge && cleared.tickets == b.tickets
        }),
{
    crate::seqs::lemma_position_least(super::model::epic_ids(b.epics), epic);
    let cleared = BoardModel {
        epics: b.epics.update(b.epic_at(epic), EpicModel { auto_merge: false, ..b.epics[b.epic_at(epic)] }),
        ..b
    };
    assert(super::model::epic_ids(cleared.epics) =~= super::model::epic_ids(b.epics));
}

/// A ticket is blocked exactly when one of its dependencies is not on the board, not done, or discarded.
pub proof fn blocked_means_a_dependency_has_not_landed(t: TicketModel, b: BoardModel)
    ensures
        is_blocked(t, b) <==> exists|i: int|
            0 <= i < t.depends_on.len() && match b.ticket(#[trigger] t.depends_on[i]) {
                None => true,
                Some(d) => match d.column {
                    ColumnModel::Done { discarded, .. } => discarded,
                    _ => true,
                },
            },
{
    if is_blocked(t, b) {
        let i = choose|i: int| 0 <= i < t.depends_on.len() && !landed(b, #[trigger] t.depends_on[i]);
        assert(!landed(b, t.depends_on[i]));
    } else {
        assert forall|i: int| 0 <= i < t.depends_on.len() implies landed(b, #[trigger] t.depends_on[i]) by {}
    }
}

/// A ticket may land unseen exactly when it says so itself, or the epic it belongs to is there and says so.
pub proof fn a_grant_is_the_tickets_or_its_epics(t: TicketModel, b: BoardModel)
    ensures
        t.auto_merge ==> may_auto_merge(t, b),
        !t.auto_merge && t.epic is None ==> !may_auto_merge(t, b),
        !t.auto_merge && t.epic is Some && b.epic(t.epic->0) is None ==> !may_auto_merge(t, b),
        !t.auto_merge && t.epic is Some && b.epic(t.epic->0) is Some ==> may_auto_merge(t, b) == (b.epic(t.epic->0)->0).auto_merge,
{
}

/// What is offered next is in `todo`, ready or a stub, worked here, claimed by nobody, and depends on landed work only; all
/// that is so is offered.
pub proof fn what_is_offered(b: BoardModel, cs: Seq<ClaimModel>, i: int)
    requires
        0 <= i < b.tickets.len(),
    ensures
        ({
            let t = b.tickets[i];
            offered(b, cs, i) <==> {
                &&& t.column is Todo
                &&& t.status == Status::Ready || t.status == Status::Stub
                &&& t.external is None
                &&& found(cs, t.id) is None
                &&& forall|d: int|
                    0 <= d < t.depends_on.len() ==> match b.ticket(#[trigger] t.depends_on[d]) {
                        Some(x) => match x.column {
                            ColumnModel::Done { discarded, .. } => !discarded,
                            _ => false,
                        },
                        None => false,
                    }
            }
        }),
{
    blocked_means_a_dependency_has_not_landed(b.tickets[i], b);
}

/// Why a todo ticket is not offered, test by test: whose turn it is, where it is worked, the dependencies that have not
/// landed, or who has it.
pub proof fn the_reason_is_the_first_test_failed(t: TicketModel, b: BoardModel, cs: Seq<ClaimModel>)
    ensures
        ({
            let why = ineligibility_spec(t, b, cs);
            let fit = t.status == Status::Ready || t.status == Status::Stub;
            &&& t.status == Status::Draft ==> why == Some("draft — the human's to shape, never an agent's"@)
            &&& t.status == Status::Review ==> why == Some("status review — waiting to be promoted to ready"@)
            &&& fit && t.external is Some ==> why == Some("external — worked by a delegate, not from here"@)
            &&& fit && t.external is None && is_blocked(t, b) ==> why == Some(
                "blocked by "@ + join_spec(t.depends_on.filter(|d: Text| !landed(b, d)), ", "@),
            )
            &&& fit && t.external is None && !is_blocked(t, b) && found(cs, t.id) is Some ==> why == Some(
                "claimed by "@ + (found(cs, t.id)->0).agent,
            )
            &&& fit && t.external is None && !is_blocked(t, b) && found(cs, t.id) is None ==> why is None
        }),
{
    lemma_unmet(t.depends_on, b);
}

proof fn lemma_unmet(deps: Seq<Text>, b: BoardModel)
    ensures
        unmet(deps, b) == deps.filter(|d: Text| !landed(b, d)),
    decreases deps.len(),
{
    reveal(Seq::filter);
    if deps.len() > 0 {
        lemma_unmet(deps.drop_last(), b);
    }
}

/// The reasons are given for the todo tickets that have one, in board order.
pub proof fn reasons_come_in_board_order(ts: Seq<TicketModel>, b: BoardModel, cs: Seq<ClaimModel>)
    ensures
        ineligible_spec(ts, b, cs) == ts.filter(
            |t: TicketModel| t.column is Todo && ineligibility_spec(t, b, cs) is Some,
        ).map_values(|t: TicketModel| (t.id, ineligibility_spec(t, b, cs)->0)),
    decreases ts.len(),
{
    reveal(Seq::filter);
    let told = |t: TicketModel| t.column is Todo && ineligibility_spec(t, b, cs) is Some;
    let tell = |t: TicketModel| (t.id, ineligibility_spec(t, b, cs)->0);
    if ts.len() > 0 {
        reasons_come_in_board_order(ts.drop_last(), b, cs);
        let before = ts.drop_last().filter(told);
        if told(ts.last()) {
            assert(before.push(ts.last()).map_values(tell) =~= before.map_values(tell).push(tell(ts.last())));
        }
    } else {
        assert(ts.filter(told).map_values(tell) =~= Seq::<(Text, Text)>::empty());
    }
}

/// Where an epic stands follows from its tickets: in `todo` while none has started, which holds of an epic without any; `done`
/// once there are some and all are; in `review` once all are code-complete and some still wait; in `doing` between.
pub proof fn an_epic_stands_where_its_tickets_do(epic: Text, ts: Seq<TicketModel>)
    ensures
        ({
            let column = epic_column_spec(epic, ts);
            let some = exists|i: int| 0 <= i < ts.len() && (#[trigger] ts[i]).epic == Some(epic);
            let started = exists|i: int|
                0 <= i < ts.len() && (#[trigger] ts[i]).epic == Some(epic) && !(ts[i].column is Todo);
            let unfinished = exists|i: int|
                0 <= i < ts.len() && (#[trigger] ts[i]).epic == Some(epic) && !(ts[i].column is Done);
            let unsettled = exists|i: int|
                0 <= i < ts.len() && (#[trigger] ts[i]).epic == Some(epic) && (ts[i].column is Todo || ts[i].column is Doing);
            &&& column == ColumnId::Todo <==> !started
            &&& column == ColumnId::Done <==> some && !unfinished
            &&& column == ColumnId::Review <==> some && unfinished && !unsettled
            &&& column == ColumnId::Doing <==> started && unsettled
        }),
{
    assert forall|i: int| 0 <= i < ts.len() && (#[trigger] ts[i]).epic == Some(epic) implies member(ts, epic, i) by {}
}

/// An epic's checklist has one line for each of its tickets, in board order, ticked when the ticket is done.
pub proof fn a_checklist_lists_the_epics_tickets(ts: Seq<TicketModel>, epic: Text)
    ensures
        checklist(ts, epic) == ts.filter(|t: TicketModel| t.epic == Some(epic)).map_values(
            |t: TicketModel|
                ChecklistItemModel {
                    ticket: t.id,
                    title: t.title,
                    done: match t.column {
                        ColumnModel::Done { .. } => true,
                        _ => false,
                    },
                },
        ),
    decreases ts.len(),
{
    reveal(Seq::filter);
    let of = |t: TicketModel| t.epic == Some(epic);
    let line = |t: TicketModel|
        ChecklistItemModel {
            ticket: t.id,
            title: t.title,
            done: match t.column {
                ColumnModel::Done { .. } => true,
                _ => false,
            },
        };
    if ts.len() > 0 {
        a_checklist_lists_the_epics_tickets(ts.drop_last(), epic);
        let before = ts.drop_last().filter(of);
        if of(ts.last()) {
            assert(before.push(ts.last()).map_values(line) =~= before.map_values(line).push(line(ts.last())));
        }
    } else {
        assert(ts.filter(of).map_values(line) =~= Seq::<ChecklistItemModel>::empty());
    }
}

/// The read model shows every ticket and every epic of the board as it is stored, in the board's order, beside what follows
/// from it: whether it is blocked, whether it may land unseen, and who has it.
pub proof fn the_read_model_shows_the_whole_board(b: BoardModel, cs: Seq<ClaimModel>, gone: Seq<Text>, now: Timestamp)
    ensures
        ({
            let v = board_view_spec(b, cs, gone, now);
            &&& v.version == b.version && v.columns == b.columns
            &&& v.tickets.len() == b.tickets.len() && v.epics.len() == b.epics.len()
            &&& forall|i: int|
                0 <= i < b.tickets.len() ==> {
                    let t = #[trigger] v.tickets[i];
                    &&& t.ticket == b.tickets[i]
                    &&& t.blocked == is_blocked(b.tickets[i], b)
                    &&& t.auto_merge_effective == may_auto_merge(b.tickets[i], b)
                    &&& t.claim is Some <==> found(cs, b.tickets[i].id) is Some
                    &&& t.claim matches Some(c) ==> c.agent == (found(cs, b.tickets[i].id)->0).agent && c.since == (found(
                        cs,
                        b.tickets[i].id,
                    )->0).since && c.path == (found(cs, b.tickets[i].id)->0).path
                }
            &&& forall|i: int|
                0 <= i < b.epics.len() ==> {
                    let e = #[trigger] v.epics[i];
                    &&& e.epic == b.epics[i]
                    &&& e.column == epic_column_spec(b.epics[i].id, b.tickets)
                    &&& e.tickets == checklist(b.tickets, b.epics[i].id)
                }
        }),
{
}

/// A claim's worktree is missing exactly when it has one that is not on disk. A landing is told from ownership, and goes stale
/// after its time; ownership never does.
pub proof fn a_claim_is_shown_as_it_is(c: ClaimModel, gone: Seq<Text>, now: Timestamp)
    ensures
        ({
            let v = claim_view(c, gone, now);
            &&& v.worktree_missing <==> c.path is Some && gone.contains(c.path->0)
            &&& v.landing <==> c.kind == ClaimKind::Landing
            &&& c.kind == ClaimKind::Work ==> !v.landing_stale
            &&& c.kind == ClaimKind::Landing ==> v.landing_stale == (now.instant() >= c.since.instant() + LANDING_STALE_AFTER
                * 1_000_000_000)
        }),
{
}

} // verus!
