//! What the pages show: every derived fact of a card, a pane or a form, computed from the read model, so that a template has
//! nothing left to decide.
use vstd::prelude::*;

use crate::config::{Config, ConfigModel};
use crate::diff::{FileDiff, FileDiffModel};
use crate::seqs::{clone_strings, models, opt_model};
use crate::server::docs::{DocEntry, DocEntryModel};
use crate::server::routes::{chosen, number_field, settings_spec, trimmed, AppErrorModel, SettingsForm};
use crate::server::search::{admitted, epic_admitted, external_text, query_spec, render_external, Query, TermModel};
use crate::store::claims::{find, found, Claim, ClaimModel};
use crate::store::derive::{
    auto_merge, blocked, claim_view, dependency_landed, epic_column, epic_column_spec, is_blocked, may_auto_merge,
    BoardView, BoardViewModel, ChecklistItem, ChecklistItemModel, ClaimView, ClaimViewModel, EpicView, EpicViewModel,
    TicketView, TicketViewModel,
};
use crate::store::model::{
    clone_opt, Board, BoardModel, Column, ColumnId, ColumnModel, Effort, Epic, EpicId, EpicModel, Note, NoteModel,
    PrModel, PrRef, PrState, Status, Ticket, TicketId, TicketModel,
};
use crate::text::{
    concat2, concat3, concat4, concat5, decimal, is_white, join, join_spec, lines_spec, listed, same, split_spec,
    to_decimal, trim_spec, trim_start_spec, Text,
};
use crate::time::{human_time, shown, Timestamp};

verus! {

broadcast use crate::seqs::group_models;

// ---- shared helpers -------------------------------------------------------------------------------------------------

/// The badge of a status: how well-defined the work is, at a glance.
pub open spec fn badge(s: Status) -> Text {
    match s {
        Status::Draft => "badge-ghost"@,
        Status::Stub => "badge-warning"@,
        Status::Review => "badge-info"@,
        Status::Ready => "badge-success"@,
    }
}

/// The badge of a status.
pub fn status_badge(s: Status) -> (r: &'static str)
    ensures
        r@ == badge(s),
{
    match s {
        Status::Draft => "badge-ghost",
        Status::Stub => "badge-warning",
        Status::Review => "badge-info",
        Status::Ready => "badge-success",
    }
}

/// A ticket's model and effort as one badge, or whichever half is set; none when neither is.
pub open spec fn run_text(t: TicketModel) -> Option<Text> {
    match (t.model, t.effort) {
        (None, None) => None,
        (Some(m), None) => Some(m),
        (None, Some(e)) => Some(e.name()),
        (Some(m), Some(e)) => Some(m + " · "@ + e.name()),
    }
}

/// A ticket's model and effort as one badge.
pub fn run_badge(t: &Ticket) -> (r: Option<String>)
    ensures
        opt_model(r) == run_text(t@),
{
    match (&t.model, t.effort) {
        (None, None) => None,
        (Some(m), None) => Some(m.clone()),
        (None, Some(e)) => Some(e.as_str().to_owned()),
        (Some(m), Some(e)) => Some(concat3(m, " · ", e.as_str())),
    }
}

/// The trouble a delegated ticket wears: a flag label verbatim, or that its issue was closed without a request. A done
/// ticket wears none, and closing an issue that was split is no trouble.
pub open spec fn trouble(t: TicketModel) -> Option<Text> {
    match t.external {
        None => None,
        Some(e) => if t.column.id() == ColumnId::Done {
            None
        } else if e.flag is Some {
            e.flag
        } else if e.closed && t.column.id() == ColumnId::Doing && t.pr is None && e.sub_issues.len() == 0 {
            Some("closed without a PR"@)
        } else {
            None
        },
    }
}

/// The trouble a delegated ticket wears.
pub fn external_flag(t: &Ticket) -> (r: Option<String>)
    ensures
        opt_model(r) == trouble(t@),
{
    match &t.external {
        None => None,
        Some(e) => {
            if t.column.id() == ColumnId::Done {
                return None;
            }
            if e.flag.is_some() {
                return clone_opt(&e.flag);
            }
            if e.closed && t.column.id() == ColumnId::Doing && t.pr.is_none() && e.sub_issues.len() == 0 {
                Some("closed without a PR".to_owned())
            } else {
                None
            }
        },
    }
}

/// The item elsewhere that a ticket is bound to.
pub open spec fn bound_to(t: TicketModel) -> Option<Text> {
    match t.external {
        Some(e) => Some(external_text(e)),
        None => None,
    }
}

fn external_of(t: &Ticket) -> (r: Option<String>)
    ensures
        opt_model(r) == bound_to(t@),
{
    match &t.external {
        Some(e) => Some(render_external(e)),
        None => None,
    }
}

// ---- filters --------------------------------------------------------------------------------------------------------

/// The board's active filters. An empty one filters nothing; the epic and the search box both have to admit a card.
#[derive(Debug)]
pub struct Filters {
    pub epic: String,
    /// The search box, raw.
    pub q: String,
}

impl Default for Filters {
    fn default() -> (r: Filters)
        ensures
            r.epic@.len() == 0 && r.q@.len() == 0,
    {
        Filters { epic: String::new(), q: String::new() }
    }
}

/// The filters admit a ticket.
pub open spec fn ticket_passes(epic: Text, terms: Seq<TermModel>, t: TicketViewModel, epics: Seq<EpicViewModel>) -> bool {
    (epic.len() == 0 || t.ticket.epic == Some(epic)) && admitted(terms, t, epics)
}

/// The filters admit an epic.
pub open spec fn epic_passes(epic: Text, terms: Seq<TermModel>, e: EpicViewModel) -> bool {
    (epic.len() == 0 || e.epic.id == epic) && epic_admitted(terms, e)
}

impl Filters {
    /// Whether these filters hide nothing: the board only drags while they do not.
    pub fn is_empty(&self, q: &Query) -> (r: bool)
        ensures
            r == (self.epic@.len() == 0 && q.terms@.len() == 0),
    {
        self.epic.as_str().is_empty() && q.is_empty()
    }

    /// Whether a ticket is shown.
    pub fn admits_ticket(&self, q: &Query, t: &TicketView, epics: &[EpicView]) -> (r: bool)
        ensures
            r == ticket_passes(self.epic@, models(q.terms@), t@, models(epics@)),
    {
        let in_epic: bool = self.epic.as_str().is_empty() || match &t.ticket.epic {
            Some(e) => same(&e.0, &self.epic),
            None => false,
        };
        in_epic && q.matches(t, epics)
    }

    /// Whether an epic is shown.
    pub fn admits_epic(&self, q: &Query, e: &EpicView) -> (r: bool)
        ensures
            r == epic_passes(self.epic@, models(q.terms@), e@),
    {
        (self.epic.as_str().is_empty() || same(&e.epic.id.0, &self.epic)) && q.matches_epic(e)
    }
}

// ---- options --------------------------------------------------------------------------------------------------------

/// One option of an epic dropdown.
#[derive(Debug)]
pub struct EpicOptionCtx {
    pub id: String,
    pub title: String,
    pub selected: bool,
}

/// The options are the epics, in order, with that one selected.
pub open spec fn lists_epics(os: Seq<EpicOptionCtx>, es: Seq<EpicModel>, selected: Option<Text>) -> bool {
    os.len() == es.len() && forall|i: int|
        0 <= i < es.len() ==> (#[trigger] os[i]).id@ == es[i].id && os[i].title@ == es[i].title && os[i].selected == (selected
            == Some(es[i].id))
}

/// The options of an epic dropdown.
pub fn epic_options(board: &Board, selected: Option<&str>) -> (r: Vec<EpicOptionCtx>)
    ensures
        lists_epics(
            r@,
            board@.epics,
            match selected {
                Some(s) => Some(s@),
                None => None,
            },
        ),
{
    let ghost es = board@.epics;
    let mut out: Vec<EpicOptionCtx> = Vec::new();
    let mut i: usize = 0;
    while i < board.epics.len()
        invariant
            es == models(board.epics@),
            i <= board.epics@.len(),
            out@.len() == i,
            forall|j: int|
                0 <= j < i ==> (#[trigger] out@[j]).id@ == es[j].id && out@[j].title@ == es[j].title && out@[j].selected == (
                match selected {
                    Some(s) => Some(s@),
                    None => None,
                } == Some(es[j].id)),
        decreases board.epics@.len() - i,
    {
        assert(es[i as int] == board.epics@[i as int]@);
        let e: &Epic = &board.epics[i];
        let chosen: bool = match selected {
            Some(s) => same(s, &e.id.0),
            None => false,
        };
        out.push(EpicOptionCtx { id: e.id.to_string(), title: e.title.clone(), selected: chosen });
        i = i + 1;
    }
    out
}

/// One option of the effort select.
#[derive(Debug, PartialEq, Eq)]
pub struct EffortOptCtx {
    pub name: &'static str,
    pub selected: bool,
}

/// The options are the effort levels, in order, with that one selected.
pub open spec fn lists_efforts(os: Seq<EffortOptCtx>, current: Option<Effort>) -> bool {
    os.len() == Effort::ALL@.len() && forall|i: int|
        0 <= i < os.len() ==> (#[trigger] os[i]).name@ == Effort::ALL@[i].name() && os[i].selected == (current == Some(
            Effort::ALL@[i],
        ))
}

/// The options of the effort select.
pub fn effort_options(current: Option<Effort>) -> (r: Vec<EffortOptCtx>)
    ensures
        lists_efforts(r@, current),
{
    let all: [Effort; 5] = Effort::ALL;
    let mut out: Vec<EffortOptCtx> = Vec::new();
    let mut i: usize = 0;
    while i < 5
        invariant
            all == Effort::ALL,
            i <= 5,
            out@.len() == i,
            forall|j: int|
                0 <= j < i ==> (#[trigger] out@[j]).name@ == all@[j].name() && out@[j].selected == (current == Some(all@[j])),
        decreases 5 - i,
    {
        let e: Effort = all[i];
        let selected: bool = match current {
            Some(c) => c == e,
            None => false,
        };
        out.push(EffortOptCtx { name: e.as_str(), selected });
        i = i + 1;
    }
    out
}

/// The four statuses in workflow order.
pub const STATUSES: [Status; 4] = [Status::Draft, Status::Stub, Status::Review, Status::Ready];

/// One of the status buttons.
#[derive(Debug, PartialEq, Eq)]
pub struct StatusOptCtx {
    pub name: &'static str,
    pub current: bool,
}

/// The buttons are the statuses in workflow order, with that one current.
pub open spec fn lists_statuses(os: Seq<StatusOptCtx>, current: Status) -> bool {
    os.len() == STATUSES@.len() && forall|i: int|
        0 <= i < os.len() ==> (#[trigger] os[i]).name@ == STATUSES@[i].name() && os[i].current == (STATUSES@[i]
            == current)
}

/// The status buttons.
pub fn status_options(current: Status) -> (r: Vec<StatusOptCtx>)
    ensures
        lists_statuses(r@, current),
{
    let all: [Status; 4] = STATUSES;
    let mut out: Vec<StatusOptCtx> = Vec::new();
    let mut i: usize = 0;
    while i < 4
        invariant
            all == STATUSES,
            i <= 4,
            out@.len() == i,
            forall|j: int| 0 <= j < i ==> (#[trigger] out@[j]).name@ == all@[j].name() && out@[j].current == (all@[j] == current),
        decreases 4 - i,
    {
        let s: Status = all[i];
        out.push(StatusOptCtx { name: s.as_str(), current: s == current });
        i = i + 1;
    }
    out
}

// ---- cards ----------------------------------------------------------------------------------------------------------

/// A bound pull request as one linked badge.
#[derive(Debug)]
pub struct PrCtx {
    pub url: String,
    pub label: String,
    pub class: &'static str,
    pub title: &'static str,
}

/// The badge shows that request: label and colour go by its state.
pub open spec fn shows_pr(c: PrCtx, pr: PrModel) -> bool {
    c.url@ == pr.url && match pr.state {
        PrState::Open => c.label@ == "PR #"@ + decimal(pr.number as nat) && c.class@ == "badge-ghost"@ && c.title@
            == "open on GitHub"@,
        PrState::Merged => c.label@ == "PR #"@ + decimal(pr.number as nat) + " merged — pull main"@ && c.class@
            == "badge-warning"@ && c.title@
            == "merged on GitHub; lands in done once the merge reaches your local main branch"@,
        PrState::Closed => c.label@ == "PR #"@ + decimal(pr.number as nat) + " closed"@ && c.class@ == "badge-error"@
            && c.title@ == "closed without merging — rework the ticket, or discard it"@,
    }
}

/// The badge shows that request, and there is none without one.
pub open spec fn shows_pr_of(c: Option<PrCtx>, pr: Option<PrModel>) -> bool {
    match (c, pr) {
        (Some(c), Some(pr)) => shows_pr(c, pr),
        (None, None) => true,
        _ => false,
    }
}

/// A pull request as a badge.
pub fn pr_ctx(pr: &PrRef) -> (r: PrCtx)
    ensures
        shows_pr(r, pr@),
{
    let n: String = to_decimal(pr.number);
    match pr.state {
        PrState::Open => PrCtx {
            url: pr.url.clone(),
            label: concat2("PR #", &n),
            class: "badge-ghost",
            title: "open on GitHub",
        },
        PrState::Merged => PrCtx {
            url: pr.url.clone(),
            label: concat3("PR #", &n, " merged — pull main"),
            class: "badge-warning",
            title: "merged on GitHub; lands in done once the merge reaches your local main branch",
        },
        PrState::Closed => PrCtx {
            url: pr.url.clone(),
            label: concat3("PR #", &n, " closed"),
            class: "badge-error",
            title: "closed without merging — rework the ticket, or discard it",
        },
    }
}

fn pr_ctx_of(pr: &Option<PrRef>) -> (r: Option<PrCtx>)
    ensures
        shows_pr_of(r, opt_model(*pr)),
{
    match pr {
        Some(pr) => Some(pr_ctx(pr)),
        None => None,
    }
}

/// A live claim.
#[derive(Debug)]
pub struct ClaimCtx {
    pub agent: String,
    pub since: String,
    pub path: Option<String>,
    pub worktree_missing: bool,
    /// An in-flight landing rather than ownership.
    pub landing: bool,
    /// That landing has outlived its staleness cutoff.
    pub landing_stale: bool,
}

/// It shows that claim.
pub open spec fn shows_claim(c: ClaimCtx, v: ClaimViewModel) -> bool {
    c.agent@ == v.agent && c.since@ == shown(v.since) && opt_model(c.path) == v.path && c.worktree_missing
        == v.worktree_missing && c.landing == v.landing && c.landing_stale == v.landing_stale
}

/// It shows that claim, and there is nothing to show without one.
pub open spec fn shows_claim_of(c: Option<ClaimCtx>, v: Option<ClaimViewModel>) -> bool {
    match (c, v) {
        (Some(c), Some(v)) => shows_claim(c, v),
        (None, None) => true,
        _ => false,
    }
}

/// A live claim as it is shown.
pub fn claim_ctx(c: &ClaimView) -> (r: ClaimCtx)
    ensures
        shows_claim(r, c@),
{
    ClaimCtx {
        agent: c.agent.clone(),
        since: human_time(c.since),
        path: clone_opt(&c.path),
        worktree_missing: c.worktree_missing,
        landing: c.landing,
        landing_stale: c.landing_stale,
    }
}

/// A ticket's card.
#[derive(Debug)]
pub struct CardCtx {
    pub id: String,
    pub title: String,
    pub color: String,
    pub status: Status,
    pub status_badge: &'static str,
    pub done: bool,
    pub blocked: bool,
    /// A stub in `doing` is having its spec written right now.
    pub refining: bool,
    /// Sent back from review.
    pub changes_requested: bool,
    /// Closed without landing: its dependents stay blocked.
    pub discarded: bool,
    /// The bound request, while the ticket is in flight.
    pub pr: Option<PrCtx>,
    /// A review ticket whose branch no longer exists locally, with nothing to prove that it landed.
    pub branch_gone: bool,
    /// The human has cleared this to land.
    pub accepted: bool,
    /// A landing attempt hit something only a human can resolve.
    pub landing_blocked: bool,
    /// The effective auto-merge grant.
    pub auto_merge: bool,
    /// The grant is the epic's alone.
    pub auto_merge_inherited: bool,
    pub labels: Vec<String>,
    pub run: Option<String>,
    pub external: Option<String>,
    pub external_flag: Option<String>,
    pub claim: Option<ClaimCtx>,
    pub branch: Option<String>,
    /// The owner, for cards that are owned but not claimed.
    pub owner: Option<String>,
}

/// The colour of a ticket with no epic.
pub const NO_EPIC_COLOR: &'static str = "#9ca3af";

/// The colour of the first epic under that id.
pub open spec fn color_of(es: Seq<EpicViewModel>, id: Text) -> Text
    decreases es.len(),
{
    if es.len() == 0 {
        NO_EPIC_COLOR@
    } else if es[0].epic.id == id {
        es[0].epic.color
    } else {
        color_of(es.subrange(1, es.len() as int), id)
    }
}

/// The colour of a ticket: its epic's, or a neutral one.
pub open spec fn card_color(es: Seq<EpicViewModel>, epic: Option<Text>) -> Text {
    match epic {
        Some(id) => color_of(es, id),
        None => NO_EPIC_COLOR@,
    }
}

/// The colour of a ticket.
pub fn epic_color(view: &BoardView, epic: Option<&str>) -> (r: String)
    ensures
        r@ == card_color(
            view@.epics,
            match epic {
                Some(e) => Some(e@),
                None => None,
            },
        ),
{
    let id: &str = match epic {
        Some(e) => e,
        None => return NO_EPIC_COLOR.to_owned(),
    };
    let ghost es = view@.epics;
    proof {
        assert(es.subrange(0, es.len() as int) =~= es);
    }
    let mut i: usize = 0;
    while i < view.epics.len()
        invariant
            es == view@.epics,
            epic == Some(id),
            i <= view.epics@.len(),
            color_of(es, id@) == color_of(es.subrange(i as int, es.len() as int), id@),
        decreases view.epics@.len() - i,
    {
        proof {
            let rest = es.subrange(i as int, es.len() as int);
            assert(rest[0] == view.epics@[i as int]@);
            assert(rest.subrange(1, rest.len() as int) =~= es.subrange(i + 1, es.len() as int));
        }
        if same(&view.epics[i].epic.id.0, id) {
            return view.epics[i].epic.color.clone();
        }
        i = i + 1;
    }
    NO_EPIC_COLOR.to_owned()
}

/// A review ticket worked here whose branch is not among the local ones. Unknown branches flag nothing.
pub open spec fn branch_lost(t: TicketModel, heads: Option<Seq<Text>>) -> bool {
    t.column.id() == ColumnId::Review && t.external is None && match (t.column.branch(), heads) {
        (Some(b), Some(h)) => !h.contains(b),
        _ => false,
    }
}

/// The owner of a ticket in `doing`.
pub open spec fn owner_of(t: TicketModel) -> Option<Text> {
    match t.column {
        ColumnModel::Doing { owner, .. } => Some(owner),
        _ => None,
    }
}

/// The ticket was closed without landing.
pub open spec fn is_discarded(t: TicketModel) -> bool {
    t.column matches ColumnModel::Done { discarded, .. } && discarded
}

fn discarded_of(t: &Ticket) -> (r: bool)
    ensures
        r == is_discarded(t@),
{
    match &t.column {
        Column::Done { discarded, .. } => *discarded,
        _ => false,
    }
}

/// The card shows that ticket.
pub open spec fn shows_card(c: CardCtx, t: TicketViewModel, es: Seq<EpicViewModel>, heads: Option<Seq<Text>>) -> bool {
    &&& c.id@ == t.ticket.id
    &&& c.title@ == t.ticket.title
    &&& c.color@ == card_color(es, t.ticket.epic)
    &&& c.status == t.ticket.status
    &&& c.status_badge@ == badge(t.ticket.status)
    &&& c.done == (t.ticket.column.id() == ColumnId::Done)
    &&& c.blocked == t.blocked
    &&& c.refining == (t.ticket.status == Status::Stub && t.ticket.column.id() == ColumnId::Doing)
    &&& c.changes_requested == t.ticket.changes_requested
    &&& c.discarded == is_discarded(t.ticket)
    &&& shows_pr_of(
        c.pr,
        if t.ticket.column.id() == ColumnId::Done {
            None
        } else {
            t.ticket.pr
        },
    )
    &&& c.branch_gone == branch_lost(t.ticket, heads)
    &&& c.accepted == t.ticket.accepted
    &&& c.landing_blocked == t.ticket.landing_blocked
    &&& c.auto_merge == t.auto_merge_effective
    &&& c.auto_merge_inherited == (t.auto_merge_effective && !t.ticket.auto_merge)
    &&& models(c.labels@) == t.ticket.labels
    &&& opt_model(c.run) == run_text(t.ticket)
    &&& opt_model(c.external) == bound_to(t.ticket)
    &&& opt_model(c.external_flag) == trouble(t.ticket)
    &&& shows_claim_of(c.claim, t.claim)
    &&& opt_model(c.branch) == t.ticket.column.branch()
    &&& opt_model(c.owner) == owner_of(t.ticket)
}

/// The local branches, where they are known.
pub open spec fn known_heads(heads: Option<&Vec<String>>) -> Option<Seq<Text>> {
    match heads {
        Some(h) => Some(models(h@)),
        None => None,
    }
}

fn branch_gone(t: &Ticket, heads: Option<&Vec<String>>) -> (r: bool)
    ensures
        r == branch_lost(t@, known_heads(heads)),
{
    if t.column.id() != ColumnId::Review || t.external.is_some() {
        return false;
    }
    match (t.column.branch_owned(), heads) {
        (Some(b), Some(h)) => !listed(h, &b),
        _ => false,
    }
}

/// A ticket's card.
pub fn card(t: &TicketView, view: &BoardView, heads: Option<&Vec<String>>) -> (r: CardCtx)
    ensures
        shows_card(r, t@, view@.epics, known_heads(heads)),
{
    let done: bool = t.ticket.column.id() == ColumnId::Done;
    let epic: Option<&str> = match &t.ticket.epic {
        Some(e) => Some(e.0.as_str()),
        None => None,
    };
    let claim: Option<ClaimCtx> = match &t.claim {
        Some(c) => Some(claim_ctx(c)),
        None => None,
    };
    let owner: Option<String> = match &t.ticket.column {
        Column::Doing { owner, .. } => Some(owner.clone()),
        _ => None,
    };
    let pr: Option<PrCtx> = if done { None } else { pr_ctx_of(&t.ticket.pr) };
    CardCtx {
        id: t.ticket.id.to_string(),
        title: t.ticket.title.clone(),
        color: epic_color(view, epic),
        status: t.ticket.status,
        status_badge: status_badge(t.ticket.status),
        done,
        blocked: t.blocked,
        refining: t.ticket.status == Status::Stub && t.ticket.column.id() == ColumnId::Doing,
        changes_requested: t.ticket.changes_requested,
        discarded: discarded_of(&t.ticket),
        pr,
        branch_gone: branch_gone(&t.ticket, heads),
        accepted: t.ticket.accepted,
        landing_blocked: t.ticket.landing_blocked,
        auto_merge: t.auto_merge_effective,
        auto_merge_inherited: t.auto_merge_effective && !t.ticket.auto_merge,
        labels: clone_strings(&t.ticket.labels),
        run: run_badge(&t.ticket),
        external: external_of(&t.ticket),
        external_flag: external_flag(&t.ticket),
        claim,
        branch: t.ticket.column.branch_owned(),
        owner,
    }
}

/// One line of an epic's checklist.
#[derive(Debug)]
pub struct ItemCtx {
    pub ticket: String,
    pub title: String,
    pub done: bool,
}

/// The lines are that checklist.
pub open spec fn shows_items(os: Seq<ItemCtx>, is: Seq<ChecklistItemModel>) -> bool {
    os.len() == is.len() && forall|i: int|
        0 <= i < is.len() ==> (#[trigger] os[i]).ticket@ == is[i].ticket && os[i].title@ == is[i].title && os[i].done
            == is[i].done
}

fn items_of(is: &Vec<ChecklistItem>) -> (r: Vec<ItemCtx>)
    ensures
        shows_items(r@, models(is@)),
{
    let ghost all = models(is@);
    let mut out: Vec<ItemCtx> = Vec::new();
    let mut i: usize = 0;
    while i < is.len()
        invariant
            all == models(is@),
            i <= is@.len(),
            out@.len() == i,
            forall|j: int|
                0 <= j < i ==> (#[trigger] out@[j]).ticket@ == all[j].ticket && out@[j].title@ == all[j].title && out@[j].done
                    == all[j].done,
        decreases is@.len() - i,
    {
        assert(all[i as int] == is@[i as int]@);
        let item: &ChecklistItem = &is[i];
        out.push(ItemCtx { ticket: item.ticket.to_string(), title: item.title.clone(), done: item.done });
        i = i + 1;
    }
    out
}

/// An epic's card.
#[derive(Debug)]
pub struct EpicCardCtx {
    pub id: String,
    pub title: String,
    pub color: String,
    pub status: Status,
    pub status_badge: &'static str,
    pub items: Vec<ItemCtx>,
}

/// The card shows that epic.
pub open spec fn shows_epic(c: EpicCardCtx, e: EpicViewModel) -> bool {
    c.id@ == e.epic.id && c.title@ == e.epic.title && c.color@ == e.epic.color && c.status == e.epic.status && c.status_badge@
        == badge(e.epic.status) && shows_items(c.items@, e.tickets)
}

/// An epic's card.
pub fn epic_card(e: &EpicView) -> (r: EpicCardCtx)
    ensures
        shows_epic(r, e@),
{
    EpicCardCtx {
        id: e.epic.id.to_string(),
        title: e.epic.title.clone(),
        color: e.epic.color.clone(),
        status: e.epic.status,
        status_badge: status_badge(e.epic.status),
        items: items_of(&e.tickets),
    }
}

// ---- the board ------------------------------------------------------------------------------------------------------

/// One column of the board.
#[derive(Debug)]
pub struct ColumnCtx {
    pub id: ColumnId,
    pub title: String,
    pub cards: Vec<CardCtx>,
    pub epics: Vec<EpicCardCtx>,
}

/// The board.
#[derive(Debug)]
pub struct BoardTpl {
    pub version: u64,
    /// Dragging is off while filters hide cards: a drop index among visible cards is meaningless.
    pub draggable: bool,
    pub columns: Vec<ColumnCtx>,
    pub epics: Vec<EpicOptionCtx>,
    pub filter_oob: bool,
}

/// The tickets of a column that the filters admit, in order.
pub open spec fn column_tickets(
    ts: Seq<TicketViewModel>,
    col: ColumnId,
    epic: Text,
    terms: Seq<TermModel>,
    es: Seq<EpicViewModel>,
) -> Seq<TicketViewModel>
    decreases ts.len(),
{
    if ts.len() == 0 {
        Seq::empty()
    } else {
        let before = column_tickets(ts.drop_last(), col, epic, terms, es);
        if ts.last().ticket.column.id() == col && ticket_passes(epic, terms, ts.last(), es) {
            before.push(ts.last())
        } else {
            before
        }
    }
}

/// The epics of a column that the filters admit, in order.
pub open spec fn column_epics(es: Seq<EpicViewModel>, col: ColumnId, epic: Text, terms: Seq<TermModel>) -> Seq<EpicViewModel>
    decreases es.len(),
{
    if es.len() == 0 {
        Seq::empty()
    } else {
        let before = column_epics(es.drop_last(), col, epic, terms);
        if es.last().column == col && epic_passes(epic, terms, es.last()) {
            before.push(es.last())
        } else {
            before
        }
    }
}

/// The cards show those tickets, in order.
pub open spec fn shows_cards(
    cs: Seq<CardCtx>,
    ts: Seq<TicketViewModel>,
    es: Seq<EpicViewModel>,
    heads: Option<Seq<Text>>,
) -> bool {
    cs.len() == ts.len() && forall|i: int| 0 <= i < ts.len() ==> shows_card(#[trigger] cs[i], ts[i], es, heads)
}

/// The cards show those epics, in order.
pub open spec fn shows_epics(cs: Seq<EpicCardCtx>, es: Seq<EpicViewModel>) -> bool {
    cs.len() == es.len() && forall|i: int| 0 <= i < es.len() ==> shows_epic(#[trigger] cs[i], es[i])
}

/// The column shows what the filters admit of the view.
pub open spec fn shows_column(
    c: ColumnCtx,
    meta: crate::store::model::ColumnMetaModel,
    v: BoardViewModel,
    epic: Text,
    terms: Seq<TermModel>,
    heads: Option<Seq<Text>>,
) -> bool {
    &&& c.id == meta.id
    &&& c.title@ == meta.title
    &&& shows_cards(c.cards@, column_tickets(v.tickets, meta.id, epic, terms, v.epics), v.epics, heads)
    &&& shows_epics(c.epics@, column_epics(v.epics, meta.id, epic, terms))
}

fn cards_in(view: &BoardView, col: ColumnId, filters: &Filters, query: &Query, heads: Option<&Vec<String>>) -> (r: Vec<
    CardCtx,
>)
    ensures
        shows_cards(
            r@,
            column_tickets(view@.tickets, col, filters.epic@, models(query.terms@), view@.epics),
            view@.epics,
            known_heads(heads),
        ),
{
    let ghost ts = view@.tickets;
    let ghost es = view@.epics;
    let ghost terms = models(query.terms@);
    let mut out: Vec<CardCtx> = Vec::new();
    let mut i: usize = 0;
    while i < view.tickets.len()
        invariant
            ts == models(view.tickets@),
            es == models(view.epics@),
            view@.epics == es,
            terms == models(query.terms@),
            i <= view.tickets@.len(),
            shows_cards(out@, column_tickets(ts.take(i as int), col, filters.epic@, terms, es), es, known_heads(heads)),
        decreases view.tickets@.len() - i,
    {
        proof {
            assert(ts.take(i + 1).drop_last() =~= ts.take(i as int));
            assert(ts.take(i + 1).last() == view.tickets@[i as int]@);
        }
        let t: &TicketView = &view.tickets[i];
        if t.ticket.column.id() == col && filters.admits_ticket(query, t, &view.epics) {
            out.push(card(t, view, heads));
        }
        i = i + 1;
    }
    assert(ts.take(ts.len() as int) =~= ts);
    out
}

fn epics_in(view: &BoardView, col: ColumnId, filters: &Filters, query: &Query) -> (r: Vec<EpicCardCtx>)
    ensures
        shows_epics(r@, column_epics(view@.epics, col, filters.epic@, models(query.terms@))),
{
    let ghost es = view@.epics;
    let ghost terms = models(query.terms@);
    let mut out: Vec<EpicCardCtx> = Vec::new();
    let mut i: usize = 0;
    while i < view.epics.len()
        invariant
            es == models(view.epics@),
            terms == models(query.terms@),
            i <= view.epics@.len(),
            shows_epics(out@, column_epics(es.take(i as int), col, filters.epic@, terms)),
        decreases view.epics@.len() - i,
    {
        proof {
            assert(es.take(i + 1).drop_last() =~= es.take(i as int));
            assert(es.take(i + 1).last() == view.epics@[i as int]@);
        }
        let e: &EpicView = &view.epics[i];
        if e.column == col && filters.admits_epic(query, e) {
            out.push(epic_card(e));
        }
        i = i + 1;
    }
    assert(es.take(es.len() as int) =~= es);
    out
}

/// The epics of a view.
pub open spec fn epics_alone(es: Seq<EpicViewModel>) -> Seq<EpicModel> {
    Seq::new(es.len(), |i: int| es[i].epic)
}

fn filter_options(view: &BoardView, selected: &str) -> (r: Vec<EpicOptionCtx>)
    ensures
        lists_epics(r@, epics_alone(view@.epics), Some(selected@)),
{
    let ghost es = epics_alone(view@.epics);
    let mut out: Vec<EpicOptionCtx> = Vec::new();
    let mut i: usize = 0;
    while i < view.epics.len()
        invariant
            es == epics_alone(models(view.epics@)),
            i <= view.epics@.len(),
            out@.len() == i,
            forall|j: int|
                0 <= j < i ==> (#[trigger] out@[j]).id@ == es[j].id && out@[j].title@ == es[j].title && out@[j].selected == (
                Some(selected@) == Some(es[j].id)),
        decreases view.epics@.len() - i,
    {
        assert(es[i as int] == view.epics@[i as int]@.epic);
        let e: &Epic = &view.epics[i].epic;
        out.push(EpicOptionCtx { id: e.id.to_string(), title: e.title.clone(), selected: same(&e.id.0, selected) });
        i = i + 1;
    }
    out
}

/// The board page shows the view through the filters: every column of the board, and draggable only while nothing is
/// hidden.
pub open spec fn shows_board(r: BoardTpl, v: BoardViewModel, epic: Text, q: Text, heads: Option<Seq<Text>>) -> bool {
    let terms = query_spec(q);
    &&& r.version == v.version
    &&& r.draggable == (epic.len() == 0 && terms.len() == 0)
    &&& r.columns@.len() == v.columns.len()
    &&& forall|i: int| 0 <= i < v.columns.len() ==> shows_column(#[trigger] r.columns@[i], v.columns[i], v, epic, terms, heads)
    &&& lists_epics(r.epics@, epics_alone(v.epics), Some(epic))
    &&& r.filter_oob
}

/// The board.
pub fn board(view: &BoardView, filters: &Filters, heads: Option<&Vec<String>>) -> (r: BoardTpl)
    ensures
        shows_board(r, view@, filters.epic@, filters.q@, known_heads(heads)),
{
    let query: Query = Query::parse(&filters.q);
    let ghost terms = models(query.terms@);
    let ghost cs = view@.columns;
    let mut columns: Vec<ColumnCtx> = Vec::new();
    let mut i: usize = 0;
    while i < view.columns.len()
        invariant
            cs == models(view.columns@),
            terms == models(query.terms@),
            i <= view.columns@.len(),
            columns@.len() == i,
            forall|j: int|
                0 <= j < i ==> shows_column(#[trigger] columns@[j], cs[j], view@, filters.epic@, terms, known_heads(heads)),
        decreases view.columns@.len() - i,
    {
        assert(cs[i as int] == view.columns@[i as int]@);
        let id: ColumnId = view.columns[i].id;
        columns.push(
            ColumnCtx {
                id,
                title: view.columns[i].title.clone(),
                cards: cards_in(view, id, filters, &query, heads),
                epics: epics_in(view, id, filters, &query),
            },
        );
        i = i + 1;
    }
    BoardTpl {
        version: view.version,
        draggable: filters.is_empty(&query),
        columns,
        epics: filter_options(view, &filters.epic),
        filter_oob: true,
    }
}

// ---- the page shell -------------------------------------------------------------------------------------------------

/// The page around the board.
#[derive(Debug)]
pub struct PageTpl {
    pub title: String,
    /// The version of the running build.
    pub version: String,
    pub repo_url: String,
    pub epics: Vec<EpicOptionCtx>,
    /// The model vocabulary offered by the create form, whose field stays free text.
    pub models: Vec<String>,
    /// The first of the vocabulary.
    pub model_placeholder: String,
    pub efforts: Vec<EffortOptCtx>,
    /// Whether the build can delegate.
    pub minesweeper_available: bool,
    pub filter_oob: bool,
}

/// The first of a list, or nothing.
pub open spec fn first_or_empty(l: Seq<Text>) -> Text {
    if l.len() == 0 {
        Seq::empty()
    } else {
        l[0]
    }
}

fn placeholder(l: &Vec<String>) -> (r: String)
    ensures
        r@ == first_or_empty(models(l@)),
{
    let ghost all = models(l@);
    if l.len() == 0 {
        String::new()
    } else {
        assert(all[0] == l@[0]@);
        l[0].clone()
    }
}

/// The page around the board, for a build of that version, from that repository, with or without delegation.
pub fn page(
    title: String,
    board: &Board,
    vocabulary: Vec<String>,
    version: String,
    repo_url: String,
    can_delegate: bool,
) -> (r: PageTpl)
    ensures
        r.title == title && r.version == version && r.repo_url == repo_url,
        lists_epics(r.epics@, board@.epics, None),
        r.models == vocabulary,
        r.model_placeholder@ == first_or_empty(models(vocabulary@)),
        lists_efforts(r.efforts@, None),
        r.minesweeper_available == can_delegate,
        !r.filter_oob,
{
    PageTpl {
        title,
        version,
        repo_url,
        epics: epic_options(board, None),
        model_placeholder: placeholder(&vocabulary),
        models: vocabulary,
        efforts: effort_options(None),
        minesweeper_available: can_delegate,
        filter_oob: false,
    }
}

// ---- a ticket's pane ------------------------------------------------------------------------------------------------

/// The epic of a ticket.
#[derive(Debug)]
pub struct EpicRefCtx {
    pub id: String,
    pub title: String,
    pub color: String,
}

/// One dependency.
#[derive(Debug)]
pub struct DepCtx {
    pub id: String,
    pub title: String,
    pub done: bool,
}

/// One entry of the progress log.
#[derive(Debug)]
pub struct NoteCtx {
    pub at: String,
    pub author: Option<String>,
    pub text: String,
}

/// The entries are that progress log.
pub open spec fn shows_notes(os: Seq<NoteCtx>, ns: Seq<NoteModel>) -> bool {
    os.len() == ns.len() && forall|i: int|
        0 <= i < ns.len() ==> (#[trigger] os[i]).at@ == shown(ns[i].at) && opt_model(os[i].author) == ns[i].author
            && os[i].text@ == ns[i].text
}

fn notes_of(ns: &Vec<Note>) -> (r: Vec<NoteCtx>)
    ensures
        shows_notes(r@, models(ns@)),
{
    let ghost all = models(ns@);
    let mut out: Vec<NoteCtx> = Vec::new();
    let mut i: usize = 0;
    while i < ns.len()
        invariant
            all == models(ns@),
            i <= ns@.len(),
            out@.len() == i,
            forall|j: int|
                0 <= j < i ==> (#[trigger] out@[j]).at@ == shown(all[j].at) && opt_model(out@[j].author) == all[j].author
                    && out@[j].text@ == all[j].text,
        decreases ns@.len() - i,
    {
        assert(all[i as int] == ns@[i as int]@);
        let n: &Note = &ns[i];
        out.push(NoteCtx { at: human_time(n.at), author: clone_opt(&n.author), text: n.text.clone() });
        i = i + 1;
    }
    out
}

/// The title of a dependency.
pub open spec fn dep_title(b: BoardModel, dep: Text) -> Text {
    match b.ticket(dep) {
        Some(d) => d.title,
        None => "(missing)"@,
    }
}

/// The lines are those dependencies: ticked when landed, as blocking goes.
pub open spec fn shows_deps(os: Seq<DepCtx>, deps: Seq<Text>, b: BoardModel) -> bool {
    os.len() == deps.len() && forall|i: int|
        0 <= i < deps.len() ==> (#[trigger] os[i]).id@ == deps[i] && os[i].title@ == dep_title(b, deps[i]) && os[i].done
            == crate::store::derive::landed(b, deps[i])
}

fn deps_of(t: &Ticket, board: &Board) -> (r: Vec<DepCtx>)
    ensures
        shows_deps(r@, t@.depends_on, board@),
{
    let ghost all = t@.depends_on;
    let mut out: Vec<DepCtx> = Vec::new();
    let mut i: usize = 0;
    while i < t.depends_on.len()
        invariant
            all == models(t.depends_on@),
            i <= t.depends_on@.len(),
            out@.len() == i,
            forall|j: int|
                0 <= j < i ==> (#[trigger] out@[j]).id@ == all[j] && out@[j].title@ == dep_title(board@, all[j])
                    && out@[j].done == crate::store::derive::landed(board@, all[j]),
        decreases t.depends_on@.len() - i,
    {
        assert(all[i as int] == t.depends_on@[i as int]@);
        let dep: &TicketId = &t.depends_on[i];
        let title: String = match board.ticket(dep) {
            Some(d) => d.title.clone(),
            None => "(missing)".to_owned(),
        };
        out.push(DepCtx { id: dep.to_string(), title, done: dependency_landed(board, dep) });
        i = i + 1;
    }
    out
}

/// What turning auto-merge on asks: what happens to main once a flagged ticket reaches review.
pub open spec fn auto_merge_question(target: Text, subject: Text) -> Text {
    "Turn on auto-merge for "@ + target + "? When "@ + subject
        + " reaches review, /kanban:work will rebase its branch onto main and fast-forward main into it with no human review of the merge, resolving any rebase conflicts on its own. There is no undo once main has moved."@
}

/// What turning auto-merge on asks.
pub fn auto_merge_on_confirm(target: &str, subject: &str) -> (r: String)
    ensures
        r@ == auto_merge_question(target@, subject@),
{
    concat5(
        "Turn on auto-merge for ",
        target,
        "? When ",
        subject,
        " reaches review, /kanban:work will rebase its branch onto main and fast-forward main into it with no human review of the merge, resolving any rebase conflicts on its own. There is no undo once main has moved.",
    )
}

/// An id with its title.
pub open spec fn headline(id: Text, title: Text) -> Text {
    id + " — "@ + title
}

/// What a ticket's auto-merge toggle asks. A grant that is the epic's cannot be taken away here, and the question says so.
pub open spec fn ticket_question(id: Text, title: Text, on: bool, from_epic: Option<EpicModel>) -> Text {
    if !on {
        auto_merge_question(headline(id, title), "this ticket"@)
    } else {
        match from_epic {
            Some(e) => "Auto-merge for "@ + headline(id, title) + " comes from "@ + headline(e.id, e.title) + (
            ", not from the ticket. Clearing the ticket's own flag leaves the epic's grant standing, so "@ + id
                + " still auto-merges — switch it off on the epic instead."@),
            None => "Turn off auto-merge for "@ + headline(id, title)
                + "? It goes back to waiting for your review before it lands."@,
        }
    }
}

/// What a ticket's auto-merge toggle asks.
pub fn ticket_auto_merge_confirm(id: &str, title: &str, on: bool, from_epic: Option<&Epic>) -> (r: String)
    ensures
        r@ == ticket_question(
            id@,
            title@,
            on,
            match from_epic {
                Some(e) => Some(e@),
                None => None,
            },
        ),
{
    let head: String = concat3(id, " — ", title);
    if !on {
        return auto_merge_on_confirm(&head, "this ticket");
    }
    match from_epic {
        Some(e) => {
            let whose: String = concat3(&e.id.0, " — ", &e.title);
            let rest: String = concat3(
                ", not from the ticket. Clearing the ticket's own flag leaves the epic's grant standing, so ",
                id,
                " still auto-merges — switch it off on the epic instead.",
            );
            concat5("Auto-merge for ", &head, " comes from ", &whose, &rest)
        },
        None => concat3(
            "Turn off auto-merge for ",
            &head,
            "? It goes back to waiting for your review before it lands.",
        ),
    }
}

/// A ticket's pane.
#[derive(Debug)]
pub struct DetailTpl {
    pub ticket: TicketCtx,
}

#[derive(Debug)]
pub struct TicketCtx {
    pub id: String,
    pub title: String,
    pub status: Status,
    pub status_badge: &'static str,
    pub column: ColumnId,
    pub blocked: bool,
    pub external: Option<String>,
    pub external_flag: Option<String>,
    pub epic: Option<EpicRefCtx>,
    pub labels: Vec<String>,
    pub run: Option<String>,
    pub claim: Option<ClaimCtx>,
    pub branch: Option<String>,
    pub completed_at: Option<String>,
    /// Whether a request can be opened from here.
    pub can_pr: bool,
    /// Whether there is a diff to look at.
    pub can_diff: bool,
    /// The bound request, whatever the column.
    pub pr: Option<PrCtx>,
    /// Review tickets can be retired without landing.
    pub can_discard: bool,
    /// Whether the review is ours: not that of a ticket worked elsewhere.
    pub can_review: bool,
    pub changes_requested: bool,
    pub accepted: bool,
    pub landing_blocked: bool,
    pub discarded: bool,
    /// The effective auto-merge grant.
    pub auto_merge: bool,
    /// The grant is the epic's alone.
    pub auto_merge_inherited: bool,
    /// What the toggle asks.
    pub auto_merge_confirm: String,
    pub deps: Vec<DepCtx>,
    pub notes: Vec<NoteCtx>,
    pub statuses: Vec<StatusOptCtx>,
}

/// The epic of a ticket, where it is on the board.
pub open spec fn epic_of_ticket(t: TicketModel, b: BoardModel) -> Option<EpicModel> {
    match t.epic {
        Some(id) => b.epic(id),
        None => None,
    }
}

/// It shows that epic, and there is nothing to show without one.
pub open spec fn shows_epic_ref(c: Option<EpicRefCtx>, e: Option<EpicModel>) -> bool {
    match (c, e) {
        (Some(c), Some(e)) => c.id@ == e.id && c.title@ == e.title && c.color@ == e.color,
        (None, None) => true,
        _ => false,
    }
}

/// When a done ticket was done.
pub open spec fn completion(t: TicketModel) -> Option<Text> {
    match t.column {
        ColumnModel::Done { completed_at, .. } => Some(shown(completed_at)),
        _ => None,
    }
}

/// What readers see of the claim on a ticket.
pub open spec fn claim_on(cs: Seq<ClaimModel>, id: Text, gone: Seq<Text>, now: Timestamp) -> Option<ClaimViewModel> {
    match found(cs, id) {
        Some(c) => Some(claim_view(c, gone, now)),
        None => None,
    }
}

/// The pane shows that ticket of the board.
pub open spec fn shows_detail(
    c: TicketCtx,
    t: TicketModel,
    b: BoardModel,
    claim: Option<ClaimViewModel>,
    can_pr: bool,
    can_diff: bool,
) -> bool {
    let granted = may_auto_merge(t, b);
    let inherited = granted && !t.auto_merge;
    &&& c.id@ == t.id
    &&& c.title@ == t.title
    &&& c.status == t.status
    &&& c.status_badge@ == badge(t.status)
    &&& c.column == t.column.id()
    &&& c.blocked == is_blocked(t, b)
    &&& opt_model(c.external) == bound_to(t)
    &&& opt_model(c.external_flag) == trouble(t)
    &&& shows_epic_ref(c.epic, epic_of_ticket(t, b))
    &&& models(c.labels@) == t.labels
    &&& opt_model(c.run) == run_text(t)
    &&& shows_claim_of(c.claim, claim)
    &&& opt_model(c.branch) == t.column.branch()
    &&& opt_model(c.completed_at) == completion(t)
    &&& c.can_pr == can_pr
    &&& c.can_diff == can_diff
    &&& shows_pr_of(c.pr, t.pr)
    &&& c.can_discard == (t.column.id() == ColumnId::Review)
    &&& c.can_review == (t.column.id() == ColumnId::Review && t.external is None)
    &&& c.changes_requested == t.changes_requested
    &&& c.accepted == t.accepted
    &&& c.landing_blocked == t.landing_blocked
    &&& c.discarded == is_discarded(t)
    &&& c.auto_merge == granted
    &&& c.auto_merge_inherited == inherited
    &&& c.auto_merge_confirm@ == ticket_question(
        t.id,
        t.title,
        granted,
        if inherited {
            epic_of_ticket(t, b)
        } else {
            None
        },
    )
    &&& shows_deps(c.deps@, t.depends_on, b)
    &&& shows_notes(c.notes@, t.notes)
    &&& lists_statuses(c.statuses@, t.status)
}

/// A ticket's pane. Whether a request can be opened, and whether there is a diff, the caller has to find out.
pub fn detail(
    board: &Board,
    claims: &[Claim],
    id: &TicketId,
    can_pr: bool,
    can_diff: bool,
    gone: &Vec<String>,
    now: Timestamp,
) -> (r: Option<DetailTpl>)
    ensures
        match board@.ticket(id@) {
            Some(t) => r matches Some(d) && shows_detail(
                d.ticket,
                t,
                board@,
                claim_on(models(claims@), id@, models(gone@), now),
                can_pr,
                can_diff,
            ),
            None => r is None,
        },
{
    let t: &Ticket = match board.ticket(id) {
        Some(t) => t,
        None => return None,
    };
    let claim: Option<ClaimCtx> = match find(claims, id) {
        Some(c) => Some(claim_ctx(&ClaimView::of(c, gone, now))),
        None => None,
    };
    let completed_at: Option<String> = match &t.column {
        Column::Done { completed_at, .. } => Some(human_time(*completed_at)),
        _ => None,
    };
    let epic: Option<&Epic> = match &t.epic {
        Some(eid) => board.epic(eid),
        None => None,
    };
    let granted: bool = auto_merge(t, board);
    let inherited: bool = granted && !t.auto_merge;
    let from_epic: Option<&Epic> = if inherited { epic } else { None };
    let epic_ref: Option<EpicRefCtx> = match epic {
        Some(e) => Some(EpicRefCtx { id: e.id.to_string(), title: e.title.clone(), color: e.color.clone() }),
        None => None,
    };
    let ticket: TicketCtx = TicketCtx {
        id: t.id.to_string(),
        title: t.title.clone(),
        status: t.status,
        status_badge: status_badge(t.status),
        column: t.column.id(),
        blocked: blocked(t, board),
        external: external_of(t),
        external_flag: external_flag(t),
        epic: epic_ref,
        labels: clone_strings(&t.labels),
        run: run_badge(t),
        claim,
        branch: t.column.branch_owned(),
        completed_at,
        can_pr,
        can_diff,
        pr: pr_ctx_of(&t.pr),
        can_discard: t.column.id() == ColumnId::Review,
        can_review: t.column.id() == ColumnId::Review && t.external.is_none(),
        changes_requested: t.changes_requested,
        accepted: t.accepted,
        landing_blocked: t.landing_blocked,
        discarded: discarded_of(t),
        auto_merge: granted,
        auto_merge_inherited: inherited,
        auto_merge_confirm: ticket_auto_merge_confirm(&t.id.0, &t.title, granted, from_epic),
        deps: deps_of(t, board),
        notes: notes_of(&t.notes),
        statuses: status_options(t.status),
    };
    Some(DetailTpl { ticket })
}

// ---- the review pane ------------------------------------------------------------------------------------------------

/// The review pane.
#[derive(Debug)]
pub struct ReviewTpl {
    pub review: ReviewCtx,
}

#[derive(Debug)]
pub struct ReviewCtx {
    pub id: String,
    pub title: String,
    pub branch: Option<String>,
    /// The worktree kept through review.
    pub worktree_path: Option<String>,
    /// That worktree has uncommitted changes.
    pub worktree_dirty: bool,
    /// What the landing pass says.
    pub landing: Option<String>,
    pub accepted: bool,
    pub landing_blocked: bool,
    pub notes: Vec<NoteCtx>,
    pub discard_confirm: String,
    pub can_diff: bool,
}

/// What discarding asks.
pub open spec fn discard_question(t: TicketModel) -> Text {
    "Discard "@ + headline(t.id, t.title)
        + "? It closes as done without landing, and tickets depending on it stay blocked."@
}

/// The review pane of a review ticket that is ours to judge; none for anything else. What only git can tell is passed in.
pub fn review(
    board: &Board,
    id: &TicketId,
    worktree_path: Option<String>,
    worktree_dirty: bool,
    landing: Option<String>,
    can_diff: bool,
) -> (r: Option<ReviewTpl>)
    ensures
        match board@.ticket(id@) {
            Some(t) => if t.column.id() == ColumnId::Review && t.external is None {
                r is Some && {
                    let c = r->Some_0.review;
                    &&& c.id@ == t.id
                    &&& c.title@ == t.title
                    &&& opt_model(c.branch) == t.column.branch()
                    &&& c.worktree_path == worktree_path
                    &&& c.worktree_dirty == worktree_dirty
                    &&& c.landing == landing
                    &&& c.accepted == t.accepted
                    &&& c.landing_blocked == t.landing_blocked
                    &&& shows_notes(c.notes@, t.notes)
                    &&& c.discard_confirm@ == discard_question(t)
                    &&& c.can_diff == can_diff
                }
            } else {
                r is None
            },
            None => r is None,
        },
{
    let t: &Ticket = match board.ticket(id) {
        Some(t) => t,
        None => return None,
    };
    if t.column.id() != ColumnId::Review || t.external.is_some() {
        return None;
    }
    let head: String = concat3(&t.id.0, " — ", &t.title);
    let discard_confirm: String = concat3(
        "Discard ",
        &head,
        "? It closes as done without landing, and tickets depending on it stay blocked.",
    );
    Some(
        ReviewTpl {
            review: ReviewCtx {
                id: t.id.to_string(),
                title: t.title.clone(),
                branch: t.column.branch_owned(),
                worktree_path,
                worktree_dirty,
                landing,
                accepted: t.accepted,
                landing_blocked: t.landing_blocked,
                notes: notes_of(&t.notes),
                discard_confirm,
                can_diff,
            },
        },
    )
}

// ---- the diff pane --------------------------------------------------------------------------------------------------

/// The diff pane.
#[derive(Debug)]
pub struct DiffTpl {
    /// Whose diff this is.
    pub ticket_id: String,
    pub branch: String,
    pub main: String,
    pub files: Vec<FileDiff>,
    pub files_changed: usize,
    pub added: usize,
    pub deleted: usize,
}

/// The added lines of some files, all told.
pub open spec fn total_added(fs: Seq<FileDiffModel>) -> nat
    decreases fs.len(),
{
    if fs.len() == 0 {
        0
    } else {
        total_added(fs.drop_last()) + fs.last().added as nat
    }
}

/// The deleted lines of some files, all told.
pub open spec fn total_deleted(fs: Seq<FileDiffModel>) -> nat
    decreases fs.len(),
{
    if fs.len() == 0 {
        0
    } else {
        total_deleted(fs.drop_last()) + fs.last().deleted as nat
    }
}

proof fn lemma_totals_grow(fs: Seq<FileDiffModel>, n: int)
    requires
        0 <= n <= fs.len(),
    ensures
        total_added(fs.take(n)) <= total_added(fs),
        total_deleted(fs.take(n)) <= total_deleted(fs),
    decreases fs.len() - n,
{
    if n < fs.len() {
        assert(fs.take(n + 1).drop_last() =~= fs.take(n));
        lemma_totals_grow(fs, n + 1);
    } else {
        assert(fs.take(n) =~= fs);
    }
}

/// The diff pane: the files, and the sums of its summary line.
pub fn diff(ticket_id: String, branch: String, main: String, files: Vec<FileDiff>) -> (r: DiffTpl)
    requires
        total_added(models(files@)) <= usize::MAX,
        total_deleted(models(files@)) <= usize::MAX,
    ensures
        r.ticket_id == ticket_id && r.branch == branch && r.main == main && r.files == files,
        r.files_changed == files@.len(),
        r.added == total_added(models(files@)),
        r.deleted == total_deleted(models(files@)),
{
    let ghost fs = models(files@);
    let mut added: usize = 0;
    let mut deleted: usize = 0;
    let mut i: usize = 0;
    while i < files.len()
        invariant
            fs == models(files@),
            i <= files@.len(),
            added == total_added(fs.take(i as int)),
            deleted == total_deleted(fs.take(i as int)),
            total_added(fs) <= usize::MAX,
            total_deleted(fs) <= usize::MAX,
        decreases files@.len() - i,
    {
        proof {
            assert(fs.take(i + 1).drop_last() =~= fs.take(i as int));
            assert(fs.take(i + 1).last() == files@[i as int]@);
            lemma_totals_grow(fs, i + 1);
        }
        added = added + files[i].added;
        deleted = deleted + files[i].deleted;
        i = i + 1;
    }
    assert(fs.take(fs.len() as int) =~= fs);
    let files_changed: usize = files.len();
    DiffTpl { ticket_id, branch, main, files, files_changed, added, deleted }
}

// ---- the edit form --------------------------------------------------------------------------------------------------

/// A ticket's edit form.
#[derive(Debug)]
pub struct DetailEditTpl {
    pub ticket: EditCtx,
    pub epics: Vec<EpicOptionCtx>,
    pub models: Vec<String>,
    pub model_placeholder: String,
    pub efforts: Vec<EffortOptCtx>,
    /// Whether the form offers to hand the ticket over: the build can delegate, the ticket is unbound and still in todo.
    pub can_hand_over: bool,
}

#[derive(Debug)]
pub struct EditCtx {
    pub id: String,
    pub title: String,
    pub body: String,
    pub labels_csv: String,
    pub deps_csv: String,
    /// Empty means whatever the session is running.
    pub model: String,
}

fn id_texts(ids: &Vec<TicketId>) -> (r: Vec<String>)
    ensures
        models(r@) == models(ids@),
{
    let mut out: Vec<String> = Vec::new();
    let mut i: usize = 0;
    while i < ids.len()
        invariant
            i <= ids@.len(),
            out@.len() == i,
            forall|j: int| 0 <= j < i ==> (#[trigger] out@[j])@ == ids@[j]@,
        decreases ids@.len() - i,
    {
        out.push(ids[i].to_string());
        i = i + 1;
    }
    assert(models(out@) =~= models(ids@));
    out
}

/// The text of an optional value, empty without one.
pub open spec fn text_or_empty(s: Option<Text>) -> Text {
    match s {
        Some(t) => t,
        None => Seq::empty(),
    }
}

fn or_empty(s: &Option<String>) -> (r: String)
    ensures
        r@ == text_or_empty(opt_model(*s)),
{
    match s {
        Some(t) => t.clone(),
        None => String::new(),
    }
}

/// A ticket's edit form.
pub fn detail_edit(board: &Board, id: &TicketId, vocabulary: Vec<String>, can_delegate: bool) -> (r: Option<DetailEditTpl>)
    ensures
        match board@.ticket(id@) {
            Some(t) => r is Some && {
                let f = r->Some_0;
                &&& f.ticket.id@ == t.id
                &&& f.ticket.title@ == t.title
                &&& f.ticket.body@ == t.body
                &&& f.ticket.labels_csv@ == join_spec(t.labels, ", "@)
                &&& f.ticket.deps_csv@ == join_spec(t.depends_on, ", "@)
                &&& f.ticket.model@ == text_or_empty(t.model)
                &&& lists_epics(f.epics@, board@.epics, t.epic)
                &&& f.models == vocabulary
                &&& f.model_placeholder@ == first_or_empty(models(vocabulary@))
                &&& lists_efforts(f.efforts@, t.effort)
                &&& f.can_hand_over == (can_delegate && t.external is None && t.column.id() == ColumnId::Todo)
            },
            None => r is None,
        },
{
    let t: &Ticket = match board.ticket(id) {
        Some(t) => t,
        None => return None,
    };
    let epic: Option<&str> = match &t.epic {
        Some(e) => Some(e.0.as_str()),
        None => None,
    };
    Some(
        DetailEditTpl {
            ticket: EditCtx {
                id: t.id.to_string(),
                title: t.title.clone(),
                body: t.body.clone(),
                labels_csv: join(&t.labels, ", "),
                deps_csv: join(&id_texts(&t.depends_on), ", "),
                model: or_empty(&t.model),
            },
            epics: epic_options(board, epic),
            model_placeholder: placeholder(&vocabulary),
            models: vocabulary,
            efforts: effort_options(t.effort),
            can_hand_over: can_delegate && t.external.is_none() && t.column.id() == ColumnId::Todo,
        },
    )
}

// ---- an epic's pane -------------------------------------------------------------------------------------------------

/// An epic's pane.
#[derive(Debug)]
pub struct EpicDetailTpl {
    pub epic: EpicDetailCtx,
}

#[derive(Debug)]
pub struct EpicDetailCtx {
    pub id: String,
    pub title: String,
    pub color: String,
    pub status: Status,
    pub status_badge: &'static str,
    pub column: ColumnId,
    pub has_body: bool,
    pub items: Vec<ItemCtx>,
    pub statuses: Vec<StatusOptCtx>,
    /// What deleting asks.
    pub delete_confirm: String,
    /// The epic's own auto-merge grant.
    pub auto_merge: bool,
    /// What the toggle asks.
    pub auto_merge_confirm: String,
}

/// How many lines of a checklist are ticked.
pub open spec fn done_count(is: Seq<ChecklistItemModel>) -> nat
    decreases is.len(),
{
    if is.len() == 0 {
        0
    } else {
        done_count(is.drop_last()) + (if is.last().done {
            1nat
        } else {
            0nat
        })
    }
}

/// One ticket, or several.
pub open spec fn tickets_word(n: nat) -> Text {
    if n == 1 {
        "ticket"@
    } else {
        "tickets"@
    }
}

/// What deleting an epic asks: how many tickets go with it, and how many of them were done.
pub open spec fn delete_question(id: Text, title: Text, is: Seq<ChecklistItemModel>) -> Text {
    if is.len() == 0 {
        "Delete "@ + headline(id, title) + "? It has no tickets."@
    } else {
        let done = done_count(is);
        let already = if done == 0 {
            Seq::empty()
        } else {
            " ("@ + decimal(done) + " already done)"@
        };
        "Delete "@ + headline(id, title) + " and its "@ + (decimal(is.len()) + " "@ + tickets_word(is.len()) + already)
            + "? The tickets are deleted with it, other tickets' dependencies on them are removed, and any worktrees or branches stay on disk. There is no undo."@
    }
}

/// What an epic's auto-merge toggle asks: how many tickets the grant reaches.
pub open spec fn epic_question(id: Text, title: Text, on: bool, count: nat) -> Text {
    if on {
        "Turn off auto-merge for "@ + headline(id, title)
            + "? Its tickets keep whatever flags they set for themselves."@
    } else if count == 0 {
        auto_merge_question(headline(id, title), "a ticket filed under it"@)
    } else {
        auto_merge_question(
            headline(id, title) + " and its "@ + decimal(count) + (" "@ + tickets_word(count)),
            "any of them"@,
        )
    }
}

fn plural(n: usize) -> (r: &'static str)
    ensures
        r@ == tickets_word(n as nat),
{
    if n == 1 {
        "ticket"
    } else {
        "tickets"
    }
}

/// What deleting an epic asks.
pub fn epic_delete_confirm(id: &str, title: &str, items: &Vec<ChecklistItem>) -> (r: String)
    ensures
        r@ == delete_question(id@, title@, models(items@)),
{
    let head: String = concat3(id, " — ", title);
    if items.len() == 0 {
        return concat3("Delete ", &head, "? It has no tickets.");
    }
    let ghost is = models(items@);
    let mut done: usize = 0;
    let mut i: usize = 0;
    while i < items.len()
        invariant
            is == models(items@),
            i <= items@.len(),
            done == done_count(is.take(i as int)),
            done <= i,
        decreases items@.len() - i,
    {
        proof {
            assert(is.take(i + 1).drop_last() =~= is.take(i as int));
            assert(is.take(i + 1).last() == items@[i as int]@);
        }
        if items[i].done {
            done = done + 1;
        }
        i = i + 1;
    }
    assert(is.take(is.len() as int) =~= is);
    let already: String = if done == 0 {
        String::new()
    } else {
        concat3(" (", &to_decimal(done as u64), " already done)")
    };
    let count: String = concat4(&to_decimal(items.len() as u64), " ", plural(items.len()), &already);
    concat5(
        "Delete ",
        &head,
        " and its ",
        &count,
        "? The tickets are deleted with it, other tickets' dependencies on them are removed, and any worktrees or branches stay on disk. There is no undo.",
    )
}

/// What an epic's auto-merge toggle asks.
pub fn epic_auto_merge_confirm(id: &str, title: &str, on: bool, count: usize) -> (r: String)
    ensures
        r@ == epic_question(id@, title@, on, count as nat),
{
    let head: String = concat3(id, " — ", title);
    if on {
        return concat3(
            "Turn off auto-merge for ",
            &head,
            "? Its tickets keep whatever flags they set for themselves.",
        );
    }
    if count == 0 {
        return auto_merge_on_confirm(&head, "a ticket filed under it");
    }
    let target: String = concat4(&head, " and its ", &to_decimal(count as u64), &concat2(" ", plural(count)));
    auto_merge_on_confirm(&target, "any of them")
}

/// An epic's pane.
pub fn epic_detail(board: &Board, id: &EpicId) -> (r: Option<EpicDetailTpl>)
    ensures
        match board@.epic(id@) {
            Some(e) => r is Some && {
                let c = r->Some_0.epic;
                let is = crate::store::derive::checklist(board@.tickets, id@);
                &&& c.id@ == e.id
                &&& c.title@ == e.title
                &&& c.color@ == e.color
                &&& c.status == e.status
                &&& c.status_badge@ == badge(e.status)
                &&& c.column == epic_column_spec(id@, board@.tickets)
                &&& c.has_body == (e.body.len() > 0)
                &&& shows_items(c.items@, is)
                &&& lists_statuses(c.statuses@, e.status)
                &&& c.delete_confirm@ == delete_question(e.id, e.title, is)
                &&& c.auto_merge == e.auto_merge
                &&& c.auto_merge_confirm@ == epic_question(e.id, e.title, e.auto_merge, is.len())
            },
            None => r is None,
        },
{
    let e: &Epic = match board.epic(id) {
        Some(e) => e,
        None => return None,
    };
    let list: Vec<ChecklistItem> = crate::store::derive::checklist_of(board, id);
    assert(models(list@).len() == list@.len());
    Some(
        EpicDetailTpl {
            epic: EpicDetailCtx {
                id: e.id.to_string(),
                title: e.title.clone(),
                color: e.color.clone(),
                status: e.status,
                status_badge: status_badge(e.status),
                column: epic_column(id, board),
                has_body: !e.body.as_str().is_empty(),
                delete_confirm: epic_delete_confirm(&e.id.0, &e.title, &list),
                auto_merge: e.auto_merge,
                auto_merge_confirm: epic_auto_merge_confirm(&e.id.0, &e.title, e.auto_merge, list.len()),
                items: items_of(&list),
                statuses: status_options(e.status),
            },
        },
    )
}

/// An epic's edit form.
#[derive(Debug)]
pub struct EpicEditTpl {
    pub epic: EpicEditCtx,
}

#[derive(Debug)]
pub struct EpicEditCtx {
    pub id: String,
    pub title: String,
    pub color: String,
    pub body: String,
}

/// An epic's edit form.
pub fn epic_edit(board: &Board, id: &EpicId) -> (r: Option<EpicEditTpl>)
    ensures
        match board@.epic(id@) {
            Some(e) => r matches Some(f) && f.epic.id@ == e.id && f.epic.title@ == e.title && f.epic.color@ == e.color
                && f.epic.body@ == e.body,
            None => r is None,
        },
{
    match board.epic(id) {
        Some(e) => Some(
            EpicEditTpl {
                epic: EpicEditCtx {
                    id: e.id.to_string(),
                    title: e.title.clone(),
                    color: e.color.clone(),
                    body: e.body.clone(),
                },
            },
        ),
        None => None,
    }
}

// ---- settings -------------------------------------------------------------------------------------------------------

/// The settings form: every key as the file has it, empty for one that is unset.
#[derive(Debug)]
pub struct SettingsTpl {
    pub worktree_root: String,
    /// One entry per line.
    pub copy_to_worktrees: String,
    pub max_workers: String,
    pub idle_time: String,
    pub port: String,
    pub main_branch: String,
    pub poll_interval: String,
    pub minesweeper: bool,
    pub minesweeper_label: String,
    /// Comma-separated.
    pub minesweeper_flag_labels: String,
    /// One entry per line.
    pub models: String,
    /// Right after a save.
    pub saved: bool,
}

/// A number as its field shows it, empty without one.
pub open spec fn number_or_empty(n: Option<u64>) -> Text {
    match n {
        Some(n) => decimal(n as nat),
        None => Seq::empty(),
    }
}

fn show(n: Option<u64>) -> (r: String)
    ensures
        r@ == number_or_empty(n),
{
    match n {
        Some(n) => to_decimal(n),
        None => String::new(),
    }
}

/// The form shows that configuration.
pub open spec fn shows_settings(r: SettingsTpl, c: ConfigModel) -> bool {
    &&& r.worktree_root@ == text_or_empty(c.worktree_root)
    &&& r.copy_to_worktrees@ == join_spec(c.copy_to_worktrees, "\n"@)
    &&& r.max_workers@ == number_or_empty(
        match c.max_workers {
            Some(n) => Some(n as u64),
            None => None,
        },
    )
    &&& r.idle_time@ == number_or_empty(c.idle_time)
    &&& r.port@ == number_or_empty(
        match c.port {
            Some(n) => Some(n as u64),
            None => None,
        },
    )
    &&& r.main_branch@ == text_or_empty(c.main_branch)
    &&& r.poll_interval@ == number_or_empty(c.poll_interval)
    &&& r.minesweeper == (c.minesweeper == Some(true))
    &&& r.minesweeper_label@ == text_or_empty(c.minesweeper_label)
    &&& r.minesweeper_flag_labels@ == join_spec(c.minesweeper_flag_labels, ", "@)
    &&& r.models@ == join_spec(c.models, "\n"@)
}

/// The settings form.
pub fn settings(config: &Config, saved: bool) -> (r: SettingsTpl)
    ensures
        shows_settings(r, config@),
        r.saved == saved,
{
    let max_workers: Option<u64> = match config.max_workers {
        Some(n) => Some(n as u64),
        None => None,
    };
    let port: Option<u64> = match config.port {
        Some(n) => Some(n as u64),
        None => None,
    };
    SettingsTpl {
        worktree_root: or_empty(&config.worktree_root),
        copy_to_worktrees: join(&config.copy_to_worktrees, "\n"),
        max_workers: show(max_workers),
        idle_time: show(config.idle_time),
        port: show(port),
        main_branch: or_empty(&config.main_branch),
        poll_interval: show(config.poll_interval),
        minesweeper: config.minesweeper(),
        minesweeper_label: or_empty(&config.minesweeper_label),
        minesweeper_flag_labels: join(&config.minesweeper_flag_labels, ", "),
        models: join(&config.models, "\n"),
        saved,
    }
}

// ---- docs -----------------------------------------------------------------------------------------------------------

/// The docs pane: the table of contents, with its first entry opened.
#[derive(Debug)]
pub struct DocsTpl {
    pub entries: Vec<DocEntryCtx>,
    pub first: Option<DocEntryCtx>,
}

#[derive(Debug)]
pub struct DocEntryCtx {
    pub file: String,
    pub title: String,
    /// The entry that is open to begin with.
    pub first: bool,
}

/// It shows that entry.
pub open spec fn shows_entry(c: DocEntryCtx, e: DocEntryModel, first: bool) -> bool {
    c.file@ == e.file && c.title@ == e.title && c.first == first
}

/// The docs pane.
pub fn docs(entries: &Vec<DocEntry>) -> (r: DocsTpl)
    ensures
        r.entries@.len() == entries@.len(),
        forall|i: int| 0 <= i < entries@.len() ==> shows_entry(#[trigger] r.entries@[i], entries@[i]@, i == 0),
        match r.first {
            Some(f) => entries@.len() > 0 && shows_entry(f, entries@[0]@, true),
            None => entries@.len() == 0,
        },
{
    let mut out: Vec<DocEntryCtx> = Vec::new();
    let mut i: usize = 0;
    while i < entries.len()
        invariant
            i <= entries@.len(),
            out@.len() == i,
            forall|j: int| 0 <= j < i ==> shows_entry(#[trigger] out@[j], entries@[j]@, j == 0),
        decreases entries@.len() - i,
    {
        let e: &DocEntry = &entries[i];
        out.push(DocEntryCtx { file: e.file.clone(), title: e.title.clone(), first: i == 0 });
        i = i + 1;
    }
    let first: Option<DocEntryCtx> = if entries.len() == 0 {
        None
    } else {
        Some(DocEntryCtx { file: entries[0].file.clone(), title: entries[0].title.clone(), first: true })
    };
    DocsTpl { entries: out, first }
}

// ---- toasts ---------------------------------------------------------------------------------------------------------

/// A toast.
#[derive(Debug, PartialEq, Eq)]
pub struct ToastTpl {
    pub kind: &'static str,
    pub message: String,
}

impl ToastTpl {
    pub fn error(message: String) -> (r: ToastTpl)
        ensures
            r.kind@ == "alert-error"@ && r.message == message,
    {
        ToastTpl { kind: "alert-error", message }
    }

    pub fn warning(message: String) -> (r: ToastTpl)
        ensures
            r.kind@ == "alert-warning"@ && r.message == message,
    {
        ToastTpl { kind: "alert-warning", message }
    }
}

// ---- laws -----------------------------------------------------------------------------------------------------------

/// The checkmarks of a pane agree with the board: a ticket is blocked exactly when one of its dependencies is not ticked.
pub proof fn the_checkmarks_explain_the_block(os: Seq<DepCtx>, t: TicketModel, b: BoardModel)
    requires
        shows_deps(os, t.depends_on, b),
    ensures
        is_blocked(t, b) <==> exists|i: int| 0 <= i < os.len() && !(#[trigger] os[i]).done,
{
    if is_blocked(t, b) {
        let i = choose|i: int|
            0 <= i < t.depends_on.len() && !crate::store::derive::landed(b, #[trigger] t.depends_on[i]);
        assert(!os[i].done);
    }
    if exists|i: int| 0 <= i < os.len() && !(#[trigger] os[i]).done {
        let i = choose|i: int| 0 <= i < os.len() && !(#[trigger] os[i]).done;
        assert(!crate::store::derive::landed(b, t.depends_on[i]));
    }
}

/// Dragging is on exactly while nothing is hidden by the epic filter or by a term of the search.
pub proof fn only_an_unfiltered_board_drags(r: BoardTpl, v: BoardViewModel, epic: Text, q: Text, heads: Option<Seq<Text>>)
    requires
        shows_board(r, v, epic, q, heads),
        r.draggable,
    ensures
        forall|t: TicketViewModel| #[trigger] ticket_passes(epic, query_spec(q), t, v.epics),
        forall|e: EpicViewModel| #[trigger] epic_passes(epic, query_spec(q), e),
{
}

/// An entry that trimming leaves alone: not empty, no white space at either end.
pub open spec fn plain_entry(t: Text) -> bool {
    t.len() > 0 && !is_white(t[0]) && !is_white(t.last())
}

/// Every entry is plain, and none holds the separator.
pub open spec fn plain_list(l: Seq<Text>, separator: char) -> bool {
    forall|i: int| 0 <= i < l.len() ==> plain_entry(#[trigger] l[i]) && !l[i].contains(separator)
}

/// A configuration that a form can carry: entries that trimming leaves alone, and that do not hold what separates them.
pub open spec fn plain_config(c: ConfigModel) -> bool {
    &&& c.worktree_root matches Some(t) ==> plain_entry(t)
    &&& c.main_branch matches Some(t) ==> plain_entry(t)
    &&& c.minesweeper_label matches Some(t) ==> plain_entry(t)
    &&& plain_list(c.copy_to_worktrees, '\n')
    &&& plain_list(c.models, '\n')
    &&& plain_list(c.minesweeper_flag_labels, ',')
}

/// The form posts what the page shows.
pub open spec fn posts(form: SettingsForm, tpl: SettingsTpl) -> bool {
    &&& form.worktree_root@ == tpl.worktree_root@
    &&& form.copy_to_worktrees@ == tpl.copy_to_worktrees@
    &&& form.max_workers@ == tpl.max_workers@
    &&& form.idle_time@ == tpl.idle_time@
    &&& form.port@ == tpl.port@
    &&& form.main_branch@ == tpl.main_branch@
    &&& form.poll_interval@ == tpl.poll_interval@
    &&& (form.minesweeper@.len() > 0) == tpl.minesweeper
    &&& form.minesweeper_label@ == tpl.minesweeper_label@
    &&& form.minesweeper_flag_labels@ == tpl.minesweeper_flag_labels@
    &&& form.models@ == tpl.models@
}

proof fn lemma_split_append(s: Text, w: Text, c: char)
    requires
        !w.contains(c),
    ensures
        split_spec(s, c).len() > 0,
        split_spec(s + w, c) == split_spec(s, c).update(
            split_spec(s, c).len() - 1,
            split_spec(s, c).last() + w,
        ),
    decreases w.len(),
{
    let base = split_spec(s, c);
    lemma_split_nonempty(s, c);
    if w.len() == 0 {
        assert(s + w =~= s);
        assert(base.last() + w =~= base.last());
        assert(base.update(base.len() - 1, base.last()) =~= base);
    } else {
        let front = w.drop_last();
        assert forall|i: int| 0 <= i < front.len() implies front[i] != c by {
            assert(w.contains(w[i]));
        }
        lemma_split_append(s, front, c);
        assert((s + w).drop_last() =~= s + front);
        assert(w.contains(w[w.len() - 1]));
        assert((base.last() + front).push(w.last()) =~= base.last() + w);
        assert(split_spec(s + w, c) =~= base.update(base.len() - 1, base.last() + w));
    }
}

proof fn lemma_split_nonempty(s: Text, c: char)
    ensures
        split_spec(s, c).len() > 0,
    decreases s.len(),
{
    if s.len() > 0 {
        lemma_split_nonempty(s.drop_last(), c);
    }
}

/// The entries as they stand between separators, each but the first behind the padding.
pub open spec fn padded_pieces(l: Seq<Text>, pad: Text) -> Seq<Text> {
    Seq::new(
        l.len(),
        |i: int|
            if i == 0 {
                l[i]
            } else {
                pad + l[i]
            },
    )
}

proof fn lemma_split_joined(l: Seq<Text>, c: char, pad: Text, sep: Text)
    requires
        l.len() > 0,
        sep == seq![c] + pad,
        !pad.contains(c),
        forall|i: int| 0 <= i < l.len() ==> !(#[trigger] l[i]).contains(c),
    ensures
        split_spec(join_spec(l, sep), c) == padded_pieces(l, pad),
    decreases l.len(),
{
    if l.len() == 1 {
        let none = Seq::<char>::empty();
        lemma_split_append(none, l[0], c);
        assert(none + l[0] =~= l[0]);
        assert(split_spec(l[0], c) =~= padded_pieces(l, pad));
    } else {
        let front = l.drop_last();
        lemma_split_joined(front, c, pad, sep);
        let before = join_spec(front, sep);
        let cut = before.push(c);
        let w = pad + l.last();
        assert forall|i: int| 0 <= i < w.len() implies w[i] != c by {
            if i < pad.len() {
                assert(pad.contains(pad[i]));
            } else {
                assert(l[l.len() - 1].contains(l.last()[i - pad.len()]));
            }
        }
        assert(join_spec(l, sep) =~= cut + w);
        assert(cut.drop_last() =~= before);
        lemma_split_append(cut, w, c);
        let pieces = split_spec(cut, c);
        assert(pieces == padded_pieces(front, pad).push(Seq::empty()));
        assert(pieces.last() + w =~= w);
        assert(split_spec(cut + w, c) =~= padded_pieces(l, pad));
    }
}

proof fn lemma_trim_plain(t: Text, pad: Text)
    requires
        plain_entry(t),
        pad.len() == 0 || pad == seq![' '],
    ensures
        trim_spec(pad + t) == t,
{
    if pad.len() == 0 {
        assert(pad + t =~= t);
    } else {
        let s = pad + t;
        assert(s.subrange(1, s.len() as int) =~= t);
        assert(trim_start_spec(s) == trim_start_spec(t));
    }
}

proof fn lemma_trimmed_pieces(l: Seq<Text>, pad: Text)
    requires
        forall|i: int| 0 <= i < l.len() ==> plain_entry(#[trigger] l[i]),
        pad.len() == 0 || pad == seq![' '],
    ensures
        trimmed(padded_pieces(l, pad)) == l,
    decreases l.len(),
{
    let ps = padded_pieces(l, pad);
    if l.len() == 0 {
        assert(trimmed(ps) =~= l);
    } else {
        let front = l.drop_last();
        lemma_trimmed_pieces(front, pad);
        assert(ps.drop_last() =~= padded_pieces(front, pad));
        lemma_trim_plain(l.last(), pad);
        lemma_trim_plain(l.last(), Seq::empty());
        assert(Seq::<char>::empty() + l.last() =~= l.last());
        assert(trim_spec(ps.last()) == l.last());
        assert(trimmed(ps) =~= l);
    }
}

proof fn lemma_lines_of_joined(l: Seq<Text>)
    requires
        plain_list(l, '\n'),
    ensures
        trimmed(lines_spec(join_spec(l, "\n"@))) == l,
{
    reveal_strlit("\n");
    let none = Seq::<char>::empty();
    let text = join_spec(l, "\n"@);
    assert("\n"@ =~= seq!['\n'] + none);
    if l.len() == 0 {
        assert(split_spec(text, '\n') =~= seq![none]);
        assert(lines_spec(text) =~= l);
        assert(trimmed(l) =~= l);
    } else {
        lemma_split_joined(l, '\n', none, "\n"@);
        let ps = split_spec(text, '\n');
        assert forall|i: int| 0 <= i < l.len() implies ps[i] == l[i] by {
            assert(none + l[i] =~= l[i]);
        }
        assert forall|i: int| 0 <= i < l.len() implies crate::text::without_return(l[i]) == l[i] by {
            assert(plain_entry(l[i]));
            assert(is_white('\r'));
        }
        assert(plain_entry(l[l.len() - 1]));
        assert(lines_spec(text) =~= l);
        assert(padded_pieces(l, none) =~= l) by {
            assert forall|i: int| 0 <= i < l.len() implies padded_pieces(l, none)[i] == l[i] by {
                assert(none + l[i] =~= l[i]);
            }
        }
        lemma_trimmed_pieces(l, none);
    }
}

proof fn lemma_csv_of_joined(l: Seq<Text>)
    requires
        plain_list(l, ','),
    ensures
        trimmed(split_spec(join_spec(l, ", "@), ',')) == l,
{
    reveal_strlit(", ");
    let pad = seq![' '];
    assert(", "@ =~= seq![','] + pad);
    if l.len() == 0 {
        let none = Seq::<char>::empty();
        assert(join_spec(l, ", "@) =~= none);
        assert(split_spec(none, ',') =~= seq![none]);
        let one = seq![none];
        assert(one.drop_last() =~= Seq::<Text>::empty());
        assert(trim_spec(none).len() == 0);
        assert(trimmed(one.drop_last()) =~= Seq::<Text>::empty());
        assert(one.last() == none);
        assert(trimmed(one) =~= l);
    } else {
        lemma_split_joined(l, ',', pad, ", "@);
        lemma_trimmed_pieces(l, pad);
    }
}

proof fn lemma_decimal_is_plain(n: nat)
    ensures
        plain_entry(decimal(n)),
    decreases n,
{
    if n >= 10 {
        lemma_decimal_is_plain(n / 10);
        assert(decimal(n)[0] == decimal(n / 10)[0]);
    }
}

proof fn lemma_number_field(n: Option<u64>, max: nat, field: Text)
    requires
        n matches Some(k) ==> k <= max,
    ensures
        number_field(number_or_empty(n), max, field) == Ok::<Option<nat>, AppErrorModel>(
            match n {
                Some(k) => Some(k as nat),
                None => None,
            },
        ),
{
    match n {
        Some(k) => {
            lemma_decimal_is_plain(k as nat);
            lemma_trim_plain(decimal(k as nat), Seq::empty());
            assert(Seq::<char>::empty() + decimal(k as nat) =~= decimal(k as nat));
            crate::text::decimal_reads_back(k as nat);
        },
        None => {
            assert(trim_spec(Seq::empty()) =~= Seq::<char>::empty());
        },
    }
}

proof fn lemma_text_field(t: Option<Text>)
    requires
        t matches Some(s) ==> plain_entry(s),
    ensures
        chosen(trim_spec(text_or_empty(t))) == t,
{
    match t {
        Some(s) => {
            lemma_trim_plain(s, Seq::empty());
            assert(Seq::<char>::empty() + s =~= s);
        },
        None => {
            assert(trim_spec(Seq::empty()) =~= Seq::<char>::empty());
        },
    }
}

/// Saving the settings form unchanged keeps the configuration, but that delegation is then explicitly on or off. The
/// entries must be ones that a form can carry.
pub proof fn saving_unchanged_settings_keeps_them(form: SettingsForm, tpl: SettingsTpl, c: ConfigModel)
    requires
        shows_settings(tpl, c),
        posts(form, tpl),
        plain_config(c),
    ensures
        settings_spec(form) == Ok::<ConfigModel, AppErrorModel>(
            ConfigModel { minesweeper: Some(c.minesweeper == Some(true)), ..c },
        ),
{
    let workers = match c.max_workers {
        Some(n) => Some(n as u64),
        None => None,
    };
    let port = match c.port {
        Some(n) => Some(n as u64),
        None => None,
    };
    lemma_number_field(workers, usize::MAX as nat, "max_workers"@);
    lemma_number_field(c.idle_time, u64::MAX as nat, "idle_time"@);
    lemma_number_field(port, u16::MAX as nat, "port"@);
    lemma_number_field(c.poll_interval, u64::MAX as nat, "poll_interval"@);
    lemma_text_field(c.worktree_root);
    lemma_text_field(c.main_branch);
    lemma_text_field(c.minesweeper_label);
    lemma_lines_of_joined(c.copy_to_worktrees);
    lemma_lines_of_joined(c.models);
    lemma_csv_of_joined(c.minesweeper_flag_labels);
}

// ---- what a card tells ----------------------------------------------------------------------------------------------

/// Each status has a badge of its own.
pub proof fn a_badge_tells_the_status(s: Status)
    ensures
        badge(s) == "badge-ghost"@ <==> s == Status::Draft,
        badge(s) == "badge-warning"@ <==> s == Status::Stub,
        badge(s) == "badge-info"@ <==> s == Status::Review,
        badge(s) == "badge-success"@ <==> s == Status::Ready,
{
    reveal_strlit("badge-ghost");
    reveal_strlit("badge-warning");
    reveal_strlit("badge-info");
    reveal_strlit("badge-success");
    assert("badge-ghost"@.len() == 11 && "badge-warning"@.len() == 13 && "badge-info"@.len() == 10 && "badge-success"@.len()
        == 13);
    assert("badge-warning"@[6] == 'w' && "badge-success"@[6] == 's');
}

/// A card says what a run of the ticket would take, as far as that was chosen: the model, the effort, or both.
pub proof fn a_card_says_what_a_run_takes(t: TicketModel)
    ensures
        t.model is None && t.effort is None ==> run_text(t) is None,
        t.model is Some && t.effort is None ==> run_text(t) == t.model,
        t.model is None && t.effort is Some ==> run_text(t) == Some((t.effort->0).name()),
        t.model is Some && t.effort is Some ==> run_text(t) == Some(t.model->0 + " · "@ + (t.effort->0).name()),
{
}

/// A delegated ticket that is not done wears its flag. Without a flag it wears that its issue was closed, if that happened in
/// `doing` with no request and no split to show for it. Nothing else is trouble.
pub proof fn only_trouble_is_shown_as_trouble(t: TicketModel)
    ensures
        ({
            let e = t.external->0;
            let dropped = e.closed && t.column is Doing && t.pr is None && e.sub_issues.len() == 0;
            &&& t.external is None || t.column is Done ==> trouble(t) is None
            &&& t.external is Some && !(t.column is Done) && e.flag is Some ==> trouble(t) == e.flag
            &&& t.external is Some && !(t.column is Done) && e.flag is None && dropped ==> trouble(t) == Some(
                "closed without a PR"@,
            )
            &&& t.external is Some && !(t.column is Done) && e.flag is None && !dropped ==> trouble(t) is None
        }),
{
}

/// A branch is lost when the ticket is under review here and its branch is not among the local ones; with the local branches
/// unknown none is.
pub proof fn a_lost_branch_is_a_missing_review_branch(t: TicketModel, heads: Option<Seq<Text>>)
    ensures
        branch_lost(t, heads) <==> t.column is Review && t.external is None && t.column.branch() is Some && heads is Some
            && !(heads->0).contains(t.column.branch()->0),
{
}

/// A card has the colour of its epic: that of the first one under the id. Without an epic, or with one that is not there, it
/// has the neutral colour.
pub proof fn a_card_wears_its_epics_colour(es: Seq<EpicViewModel>, epic: Text)
    ensures
        card_color(es, None) == NO_EPIC_COLOR@,
        (forall|i: int| 0 <= i < es.len() ==> (#[trigger] es[i]).epic.id != epic) ==> card_color(es, Some(epic))
            == NO_EPIC_COLOR@,
        forall|i: int|
            0 <= i < es.len() && (#[trigger] es[i]).epic.id == epic && (forall|k: int|
                0 <= k < i ==> (#[trigger] es[k]).epic.id != epic) ==> card_color(es, Some(epic)) == es[i].epic.color,
    decreases es.len(),
{
    if es.len() > 0 && es[0].epic.id != epic {
        let rest = es.subrange(1, es.len() as int);
        a_card_wears_its_epics_colour(rest, epic);
        if forall|i: int| 0 <= i < es.len() ==> (#[trigger] es[i]).epic.id != epic {
            assert forall|i: int| 0 <= i < rest.len() implies (#[trigger] rest[i]).epic.id != epic by {
                assert(rest[i] == es[i + 1]);
            }
        }
        assert forall|i: int|
            0 <= i < es.len() && (#[trigger] es[i]).epic.id == epic && (forall|k: int|
                0 <= k < i ==> (#[trigger] es[k]).epic.id != epic) implies card_color(es, Some(epic)) == es[i].epic.color by {
            assert(rest[i - 1] == es[i]);
            assert forall|k: int| 0 <= k < i - 1 implies (#[trigger] rest[k]).epic.id != epic by {
                assert(rest[k] == es[k + 1]);
            }
        }
    }
}

/// A card shows its ticket: what it is called and where it stands, and every mark that the ticket has earned and no other.
pub proof fn a_card_shows_every_mark(c: CardCtx, t: TicketViewModel, es: Seq<EpicViewModel>, heads: Option<Seq<Text>>)
    requires
        shows_card(c, t, es, heads),
    ensures
        c.id@ == t.ticket.id && c.title@ == t.ticket.title && c.status == t.ticket.status,
        c.color@ == card_color(es, t.ticket.epic),
        c.done <==> t.ticket.column is Done,
        c.discarded <==> t.ticket.column is Done && t.ticket.column->discarded,
        c.refining <==> t.ticket.status == Status::Stub && t.ticket.column is Doing,
        c.blocked == t.blocked,
        c.changes_requested == t.ticket.changes_requested && c.accepted == t.ticket.accepted && c.landing_blocked
            == t.ticket.landing_blocked,
        c.auto_merge == t.auto_merge_effective,
        c.auto_merge_inherited <==> t.auto_merge_effective && !t.ticket.auto_merge,
        c.pr is Some <==> t.ticket.pr is Some && !(t.ticket.column is Done),
        c.pr matches Some(p) ==> p.url@ == (t.ticket.pr->0).url,
        c.branch_gone == branch_lost(t.ticket, heads),
        models(c.labels@) == t.ticket.labels,
        opt_model(c.run) == run_text(t.ticket),
        c.external is Some <==> t.ticket.external is Some,
        opt_model(c.external_flag) == trouble(t.ticket),
        c.claim is Some <==> t.claim is Some,
        c.claim matches Some(k) ==> k.agent@ == (t.claim->0).agent && opt_model(k.path) == (t.claim->0).path && k.landing
            == (t.claim->0).landing && k.landing_stale == (t.claim->0).landing_stale && k.worktree_missing
            == (t.claim->0).worktree_missing && k.since@ == shown((t.claim->0).since),
        opt_model(c.branch) == t.ticket.column.branch(),
        c.owner is Some <==> t.ticket.column is Doing,
        c.owner matches Some(o) ==> o@ == t.ticket.column->Doing_owner,
{
}

/// A request's badge says its number, and behind it what became of it: nothing while it is open, that main has to be pulled
/// once it is merged, and that it was closed.
pub proof fn a_requests_badge_says_its_state(c: PrCtx, pr: PrModel)
    requires
        shows_pr(c, pr),
    ensures
        c.url@ == pr.url,
        pr.state == PrState::Open ==> c.label@ == "PR #"@ + decimal(pr.number as nat) && c.class@ == "badge-ghost"@,
        pr.state == PrState::Merged ==> c.label@ == "PR #"@ + decimal(pr.number as nat) + " merged — pull main"@ && c.class@
            == "badge-warning"@,
        pr.state == PrState::Closed ==> c.label@ == "PR #"@ + decimal(pr.number as nat) + " closed"@ && c.class@
            == "badge-error"@,
{
}

/// A column shows, in board order, its tickets and epics that the filters admit: those of the chosen epic, or of any when
/// none is chosen, that every term admits.
pub proof fn a_column_shows_what_the_filters_admit(
    ts: Seq<TicketViewModel>,
    es: Seq<EpicViewModel>,
    col: ColumnId,
    epic: Text,
    terms: Seq<TermModel>,
)
    ensures
        column_tickets(ts, col, epic, terms, es) == ts.filter(
            |t: TicketViewModel|
                t.ticket.column.id() == col && (epic.len() == 0 || t.ticket.epic == Some(epic)) && admitted(terms, t, es),
        ),
        column_epics(es, col, epic, terms) == es.filter(
            |e: EpicViewModel| e.column == col && (epic.len() == 0 || e.epic.id == epic) && epic_admitted(terms, e),
        ),
{
    lemma_column_tickets(ts, es, col, epic, terms);
    lemma_column_epics(es, col, epic, terms);
}

proof fn lemma_column_tickets(
    ts: Seq<TicketViewModel>,
    es: Seq<EpicViewModel>,
    col: ColumnId,
    epic: Text,
    terms: Seq<TermModel>,
)
    ensures
        column_tickets(ts, col, epic, terms, es) == ts.filter(
            |t: TicketViewModel|
                t.ticket.column.id() == col && (epic.len() == 0 || t.ticket.epic == Some(epic)) && admitted(terms, t, es),
        ),
    decreases ts.len(),
{
    reveal(Seq::filter);
    if ts.len() > 0 {
        lemma_column_tickets(ts.drop_last(), es, col, epic, terms);
    }
}

proof fn lemma_column_epics(es: Seq<EpicViewModel>, col: ColumnId, epic: Text, terms: Seq<TermModel>)
    ensures
        column_epics(es, col, epic, terms) == es.filter(
            |e: EpicViewModel| e.column == col && (epic.len() == 0 || e.epic.id == epic) && epic_admitted(terms, e),
        ),
    decreases es.len(),
{
    reveal(Seq::filter);
    if es.len() > 0 {
        lemma_column_epics(es.drop_last(), col, epic, terms);
    }
}

/// The board page has every column of the board, in order, and a card for each ticket and epic that belongs there.
pub proof fn the_page_has_every_column(r: BoardTpl, v: BoardViewModel, epic: Text, q: Text, heads: Option<Seq<Text>>, i: int)
    requires
        shows_board(r, v, epic, q, heads),
        0 <= i < v.columns.len(),
    ensures
        r.version == v.version,
        r.columns@.len() == v.columns.len(),
        r.columns@[i].id == v.columns[i].id && r.columns@[i].title@ == v.columns[i].title,
        ({
            let ts = column_tickets(v.tickets, v.columns[i].id, epic, query_spec(q), v.epics);
            let cards = r.columns@[i].cards@;
            cards.len() == ts.len() && forall|k: int|
                0 <= k < ts.len() ==> (#[trigger] cards[k]).id@ == ts[k].ticket.id && shows_card(cards[k], ts[k], v.epics, heads)
        }),
        ({
            let es = column_epics(v.epics, v.columns[i].id, epic, query_spec(q));
            let cards = r.columns@[i].epics@;
            cards.len() == es.len() && forall|k: int|
                0 <= k < es.len() ==> (#[trigger] cards[k]).id@ == es[k].epic.id && cards[k].title@ == es[k].epic.title
                    && cards[k].color@ == es[k].epic.color && cards[k].status == es[k].epic.status && cards[k].items@.len()
                    == es[k].tickets.len()
        }),
        forall|k: int|
            0 <= k < v.epics.len() ==> (#[trigger] r.epics@[k]).id@ == v.epics[k].epic.id && (r.epics@[k].selected <==> epic
                == v.epics[k].epic.id),
{
    assert(shows_column(r.columns@[i], v.columns[i], v, epic, query_spec(q), heads));
    let ts = column_tickets(v.tickets, v.columns[i].id, epic, query_spec(q), v.epics);
    let cards = r.columns@[i].cards@;
    assert forall|k: int| 0 <= k < ts.len() implies (#[trigger] cards[k]).id@ == ts[k].ticket.id && shows_card(
        cards[k],
        ts[k],
        v.epics,
        heads,
    ) by {
        assert(shows_card(cards[k], ts[k], v.epics, heads));
    }
    let es = column_epics(v.epics, v.columns[i].id, epic, query_spec(q));
    let epic_cards = r.columns@[i].epics@;
    assert forall|k: int| 0 <= k < es.len() implies (#[trigger] epic_cards[k]).id@ == es[k].epic.id && epic_cards[k].title@
        == es[k].epic.title && epic_cards[k].color@ == es[k].epic.color && epic_cards[k].status == es[k].epic.status
        && epic_cards[k].items@.len() == es[k].tickets.len() by {
        assert(shows_epic(epic_cards[k], es[k]));
    }
    assert forall|k: int| 0 <= k < v.epics.len() implies (#[trigger] r.epics@[k]).id@ == v.epics[k].epic.id && (
    r.epics@[k].selected <==> epic == v.epics[k].epic.id) by {
        assert(epics_alone(v.epics)[k] == v.epics[k].epic);
    }
}

/// The pane shows its ticket in full, offers a discard and a verdict only under review, the verdict only for work done here,
/// and says of each dependency what it is called and whether it landed.
pub proof fn the_pane_shows_the_ticket_in_full(
    c: TicketCtx,
    t: TicketModel,
    b: BoardModel,
    claim: Option<ClaimViewModel>,
    can_pr: bool,
    can_diff: bool,
)
    requires
        shows_detail(c, t, b, claim, can_pr, can_diff),
    ensures
        c.id@ == t.id && c.title@ == t.title && c.status == t.status && c.column == t.column.id(),
        c.blocked == is_blocked(t, b),
        c.can_discard <==> t.column is Review,
        c.can_review <==> t.column is Review && t.external is None,
        c.can_pr == can_pr && c.can_diff == can_diff,
        c.changes_requested == t.changes_requested && c.accepted == t.accepted && c.landing_blocked == t.landing_blocked,
        c.discarded <==> t.column is Done && t.column->discarded,
        c.completed_at is Some <==> t.column is Done,
        c.completed_at matches Some(at) ==> at@ == shown(t.column->completed_at),
        opt_model(c.branch) == t.column.branch(),
        models(c.labels@) == t.labels,
        c.pr is Some <==> t.pr is Some,
        c.claim is Some <==> claim is Some,
        c.epic is Some <==> t.epic is Some && b.epic(t.epic->0) is Some,
        c.epic matches Some(e) ==> e.id@ == (b.epic(t.epic->0)->0).id && e.title@ == (b.epic(t.epic->0)->0).title && e.color@
            == (b.epic(t.epic->0)->0).color,
        c.auto_merge == may_auto_merge(t, b),
        c.auto_merge_inherited <==> may_auto_merge(t, b) && !t.auto_merge,
        c.deps@.len() == t.depends_on.len(),
        forall|i: int|
            0 <= i < t.depends_on.len() ==> (#[trigger] c.deps@[i]).id@ == t.depends_on[i] && (c.deps@[i].done
                <==> crate::store::derive::landed(b, t.depends_on[i])) && (b.ticket(t.depends_on[i]) is Some ==> c.deps@[i].title@
                == (b.ticket(t.depends_on[i])->0).title) && (b.ticket(t.depends_on[i]) is None ==> c.deps@[i].title@
                == "(missing)"@),
        c.notes@.len() == t.notes.len(),
        forall|i: int|
            0 <= i < t.notes.len() ==> (#[trigger] c.notes@[i]).text@ == t.notes[i].text && opt_model(c.notes@[i].author)
                == t.notes[i].author && c.notes@[i].at@ == shown(t.notes[i].at),
{
}

/// What the toggle of a ticket's grant asks: to turn it on, what it leads to; to turn it off, that the ticket waits again, or
/// that the grant is the epic's and stays.
pub proof fn the_toggle_says_what_it_does(id: Text, title: Text, e: EpicModel)
    ensures
        ticket_question(id, title, false, None) == auto_merge_question(id + " — "@ + title, "this ticket"@),
        ticket_question(id, title, false, Some(e)) == auto_merge_question(id + " — "@ + title, "this ticket"@),
        ticket_question(id, title, true, None) == "Turn off auto-merge for "@ + (id + " — "@ + title)
            + "? It goes back to waiting for your review before it lands."@,
        ticket_question(id, title, true, Some(e)) == "Auto-merge for "@ + (id + " — "@ + title) + " comes from "@ + (e.id
            + " — "@ + e.title) + (
        ", not from the ticket. Clearing the ticket's own flag leaves the epic's grant standing, so "@ + id
            + " still auto-merges — switch it off on the epic instead."@),
        epic_question(id, title, true, 0) == "Turn off auto-merge for "@ + (id + " — "@ + title)
            + "? Its tickets keep whatever flags they set for themselves."@,
        epic_question(id, title, false, 0) == auto_merge_question(id + " — "@ + title, "a ticket filed under it"@),
{
}

/// The toggle of an epic's grant says how many tickets it reaches.
pub proof fn an_epics_toggle_counts_its_tickets(id: Text, title: Text, count: nat)
    requires
        count > 0,
    ensures
        epic_question(id, title, true, count) == epic_question(id, title, true, 0),
        count == 1 ==> epic_question(id, title, false, count) == auto_merge_question(
            id + " — "@ + title + " and its "@ + decimal(1) + (" "@ + "ticket"@),
            "any of them"@,
        ),
        count > 1 ==> epic_question(id, title, false, count) == auto_merge_question(
            id + " — "@ + title + " and its "@ + decimal(count) + (" "@ + "tickets"@),
            "any of them"@,
        ),
{
}

/// Deleting an epic says how many tickets go with it and, where some were, how many of them were done.
pub proof fn deleting_an_epic_counts_its_tickets(id: Text, title: Text, is: Seq<ChecklistItemModel>)
    ensures
        done_count(is) == is.filter(|i: ChecklistItemModel| i.done).len(),
        is.len() == 0 ==> delete_question(id, title, is) == "Delete "@ + (id + " — "@ + title) + "? It has no tickets."@,
        is.len() > 0 && done_count(is) > 0 ==> delete_question(id, title, is) == "Delete "@ + (id + " — "@ + title)
            + " and its "@ + (decimal(is.len()) + " "@ + tickets_word(is.len()) + (" ("@ + decimal(done_count(is))
            + " already done)"@))
            + "? The tickets are deleted with it, other tickets' dependencies on them are removed, and any worktrees or branches stay on disk. There is no undo."@,
        is.len() > 0 && done_count(is) == 0 ==> delete_question(id, title, is) == "Delete "@ + (id + " — "@ + title)
            + " and its "@ + (decimal(is.len()) + " "@ + tickets_word(is.len()))
            + "? The tickets are deleted with it, other tickets' dependencies on them are removed, and any worktrees or branches stay on disk. There is no undo."@,
        tickets_word(is.len()) == "ticket"@ <==> is.len() == 1,
        tickets_word(is.len()) == "tickets"@ <==> is.len() != 1,
{
    lemma_done_count(is);
    reveal_strlit("ticket");
    reveal_strlit("tickets");
    assert("ticket"@.len() != "tickets"@.len());
    let words = decimal(is.len()) + " "@ + tickets_word(is.len());
    assert(words + Seq::<char>::empty() =~= words);
}

proof fn lemma_done_count(is: Seq<ChecklistItemModel>)
    ensures
        done_count(is) == is.filter(|i: ChecklistItemModel| i.done).len(),
    decreases is.len(),
{
    reveal(Seq::filter);
    if is.len() > 0 {
        lemma_done_count(is.drop_last());
    }
}

/// The lines of a diff are counted over all its files.
pub proof fn a_diff_counts_all_its_files(fs: Seq<FileDiffModel>)
    ensures
        total_added(fs) == fs.fold_left(0nat, |n: nat, f: FileDiffModel| n + f.added as nat),
        total_deleted(fs) == fs.fold_left(0nat, |n: nat, f: FileDiffModel| n + f.deleted as nat),
    decreases fs.len(),
{
    reveal(Seq::fold_left);
    if fs.len() > 0 {
        a_diff_counts_all_its_files(fs.drop_last());
    }
}

/// The settings page shows each setting in the input of its name, and a blank one where it is not set.
pub proof fn the_settings_page_shows_every_setting(r: SettingsTpl, c: ConfigModel)
    requires
        shows_settings(r, c),
    ensures
        c.worktree_root is None ==> r.worktree_root@.len() == 0,
        c.worktree_root matches Some(t) ==> r.worktree_root@ == t,
        c.main_branch is None ==> r.main_branch@.len() == 0,
        c.main_branch matches Some(t) ==> r.main_branch@ == t,
        c.minesweeper_label is None ==> r.minesweeper_label@.len() == 0,
        c.minesweeper_label matches Some(t) ==> r.minesweeper_label@ == t,
        c.max_workers is None ==> r.max_workers@.len() == 0,
        c.max_workers matches Some(n) ==> r.max_workers@ == decimal(n as nat),
        c.idle_time is None ==> r.idle_time@.len() == 0,
        c.idle_time matches Some(n) ==> r.idle_time@ == decimal(n as nat),
        c.port is None ==> r.port@.len() == 0,
        c.port matches Some(n) ==> r.port@ == decimal(n as nat),
        c.poll_interval is None ==> r.poll_interval@.len() == 0,
        c.poll_interval matches Some(n) ==> r.poll_interval@ == decimal(n as nat),
        r.minesweeper <==> c.minesweeper == Some(true),
        r.copy_to_worktrees@ == join_spec(c.copy_to_worktrees, "\n"@) && r.models@ == join_spec(c.models, "\n"@),
        r.minesweeper_flag_labels@ == join_spec(c.minesweeper_flag_labels, ", "@),
{
}

/// The effort levels are all on offer, in order, and so are the statuses; the one that is set is marked, and no other.
pub proof fn every_level_and_status_is_on_offer(
    efforts: Seq<EffortOptCtx>,
    effort: Option<Effort>,
    statuses: Seq<StatusOptCtx>,
    status: Status,
)
    requires
        lists_efforts(efforts, effort) && lists_statuses(statuses, status),
    ensures
        efforts.len() == 5 && efforts[0].name@ == "low"@ && efforts[1].name@ == "medium"@ && efforts[2].name@ == "high"@
            && efforts[3].name@ == "xhigh"@ && efforts[4].name@ == "max"@,
        efforts[0].selected <==> effort == Some(Effort::Low),
        efforts[1].selected <==> effort == Some(Effort::Medium),
        efforts[2].selected <==> effort == Some(Effort::High),
        efforts[3].selected <==> effort == Some(Effort::Xhigh),
        efforts[4].selected <==> effort == Some(Effort::Max),
        statuses.len() == 4 && statuses[0].name@ == "draft"@ && statuses[1].name@ == "stub"@ && statuses[2].name@ == "review"@
            && statuses[3].name@ == "ready"@,
        statuses[0].current <==> status == Status::Draft,
        statuses[1].current <==> status == Status::Stub,
        statuses[2].current <==> status == Status::Review,
        statuses[3].current <==> status == Status::Ready,
{
}

/// The claim shown on a ticket is the one it has; a discard asks by the ticket's name; a page of the manual is shown by its
/// file and title; a list's placeholder is its first entry.
pub proof fn panes_show_what_they_are_about(
    cs: Seq<ClaimModel>,
    t: TicketModel,
    gone: Seq<Text>,
    now: Timestamp,
    c: DocEntryCtx,
    e: DocEntryModel,
    first: bool,
    l: Seq<Text>,
)
    ensures
        claim_on(cs, t.id, gone, now) is Some <==> found(cs, t.id) is Some,
        found(cs, t.id) matches Some(k) ==> claim_on(cs, t.id, gone, now) == Some(claim_view(k, gone, now)),
        discard_question(t) == "Discard "@ + (t.id + " — "@ + t.title)
            + "? It closes as done without landing, and tickets depending on it stay blocked."@,
        shows_entry(c, e, first) ==> c.file@ == e.file && c.title@ == e.title && c.first == first,
        l.len() == 0 ==> first_or_empty(l).len() == 0,
        l.len() > 0 ==> first_or_empty(l) == l[0],
{
}

} // verus!
