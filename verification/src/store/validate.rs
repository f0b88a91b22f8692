//! Whole-board invariants, the same for a board that was read and for one that is about to be written.
//!
//! All problems are reported, not just the first: someone fixing a board by hand wants them in one pass.
use vstd::prelude::*;

use super::model::{epic_ids, ticket_ids, Board, BoardModel, ColumnId, ColumnMetaModel, TicketId, TicketModel};
use crate::seqs::{lemma_position_least, models, position};
use crate::text::{concat2, concat3, concat5, decimal, insert_sorted, inserted, join, join_spec, to_decimal, Text};

verus! {

broadcast use crate::seqs::group_models;

// ---- columns --------------------------------------------------------------------------------------------------------

/// How many of the columns are `id`.
pub open spec fn column_count(cs: Seq<ColumnMetaModel>, id: ColumnId) -> nat
    decreases cs.len(),
{
    if cs.len() == 0 {
        0
    } else {
        column_count(cs.drop_last(), id) + if cs.last().id == id {
            1nat
        } else {
            0nat
        }
    }
}

/// What is wrong with the metadata of column `id`: nothing when it stands there exactly once.
pub open spec fn column_problem(cs: Seq<ColumnMetaModel>, id: ColumnId) -> Seq<Text> {
    let n = column_count(cs, id);
    if n == 0 {
        seq!["columns: missing metadata for '"@ + id.name() + "'"@]
    } else if n == 1 {
        Seq::empty()
    } else {
        seq!["columns: '"@ + id.name() + "' defined "@ + decimal(n) + " times"@]
    }
}

pub open spec fn column_problems(cs: Seq<ColumnMetaModel>) -> Seq<Text> {
    column_problem(cs, ColumnId::Todo) + column_problem(cs, ColumnId::Doing) + column_problem(cs, ColumnId::Review)
        + column_problem(cs, ColumnId::Done)
}

fn check_column(board: &Board, id: ColumnId, out: &mut Vec<String>)
    ensures
        models(final(out)@) == models(old(out)@) + column_problem(board@.columns, id),
{
    let ghost cs = board@.columns;
    let mut n: usize = 0;
    let mut i: usize = 0;
    while i < board.columns.len()
        invariant
            cs == board@.columns,
            n <= i <= board.columns@.len(),
            n == column_count(cs.take(i as int), id),
        decreases board.columns@.len() - i,
    {
        proof {
            assert(cs.take(i + 1).drop_last() =~= cs.take(i as int));
            assert(cs.take(i + 1).last() == board.columns@[i as int]@);
        }
        if board.columns[i].id == id {
            n = n + 1;
        }
        i = i + 1;
    }
    assert(cs.take(cs.len() as int) =~= cs);
    let ghost before = models(out@);
    if n == 0 {
        out.push(concat3("columns: missing metadata for '", id.as_str(), "'"));
    } else if n > 1 {
        out.push(concat5("columns: '", id.as_str(), "' defined ", &to_decimal(n as u64), " times"));
    }
    assert(models(out@) =~= before + column_problem(cs, id));
}

// ---- ids ------------------------------------------------------------------------------------------------------------

/// The entries that stand earlier in the list already, in order.
pub open spec fn repeats(ids: Seq<Text>) -> Seq<Text>
    decreases ids.len(),
{
    if ids.len() == 0 {
        Seq::empty()
    } else {
        let before = repeats(ids.drop_last());
        if ids.drop_last().contains(ids.last()) {
            before.push(ids.last())
        } else {
            before
        }
    }
}

/// Each of `names` put between the two given texts.
pub open spec fn quoted(left: Text, names: Seq<Text>, right: Text) -> Seq<Text> {
    Seq::new(names.len(), |i: int| left + names[i] + right)
}

pub open spec fn id_problems(b: BoardModel) -> Seq<Text> {
    quoted("tickets: duplicate id '"@, repeats(ticket_ids(b.tickets)), "'"@) + quoted(
        "epics: duplicate id '"@,
        repeats(epic_ids(b.epics)),
        "'"@,
    )
}

/// Whether `id` is among `ids`.
fn among(ids: &Vec<String>, upto: usize, id: &String) -> (r: bool)
    requires
        upto <= ids@.len(),
    ensures
        r == models(ids@).take(upto as int).contains(id@),
{
    let ghost some = models(ids@).take(upto as int);
    let mut i: usize = 0;
    while i < upto
        invariant
            upto <= ids@.len(),
            some == models(ids@).take(upto as int),
            i <= upto,
            forall|j: int| 0 <= j < i ==> some[j] != id@,
        decreases upto - i,
    {
        if ids[i] == *id {
            assert(some[i as int] == id@);
            return true;
        }
        i = i + 1;
    }
    false
}

fn duplicates(ids: &Vec<String>) -> (r: Vec<String>)
    ensures
        models(r@) == repeats(models(ids@)),
{
    let ghost all = models(ids@);
    let mut out: Vec<String> = Vec::new();
    let mut i: usize = 0;
    while i < ids.len()
        invariant
            all == models(ids@),
            i <= ids@.len(),
            models(out@) == repeats(all.take(i as int)),
        decreases ids@.len() - i,
    {
        proof {
            assert(all.take(i + 1).drop_last() =~= all.take(i as int));
            assert(all.take(i + 1).last() == ids@[i as int]@);
        }
        if among(ids, i, &ids[i]) {
            out.push(ids[i].clone());
        }
        i = i + 1;
    }
    assert(all.take(all.len() as int) =~= all);
    out
}

/// Report each of `names` between the two given texts.
fn report_all(left: &str, names: &Vec<String>, right: &str, out: &mut Vec<String>)
    ensures
        models(final(out)@) == models(old(out)@) + quoted(left@, models(names@), right@),
{
    let ghost before = models(out@);
    let ghost all = quoted(left@, models(names@), right@);
    let mut i: usize = 0;
    assert(before + all.take(0) =~= before);
    while i < names.len()
        invariant
            all == quoted(left@, models(names@), right@),
            i <= names@.len(),
            models(out@) == before + all.take(i as int),
        decreases names@.len() - i,
    {
        out.push(concat3(left, &names[i], right));
        assert((before + all.take(i as int)).push(all[i as int]) =~= before + all.take(i + 1));
        i = i + 1;
    }
    assert(all.take(all.len() as int) =~= all);
}

/// The ids of the board's tickets, as text.
pub fn ticket_id_texts(board: &Board) -> (r: Vec<String>)
    ensures
        models(r@) == ticket_ids(board@.tickets),
        r@.len() == board.tickets@.len(),
{
    let mut out: Vec<String> = Vec::new();
    let mut i: usize = 0;
    while i < board.tickets.len()
        invariant
            i <= board.tickets@.len(),
            out@.len() == i,
            forall|j: int| 0 <= j < i ==> (#[trigger] out@[j])@ == board@.tickets[j].id,
        decreases board.tickets@.len() - i,
    {
        out.push(board.tickets[i].id.to_string());
        i = i + 1;
    }
    assert(models(out@) =~= ticket_ids(board@.tickets));
    out
}

/// The ids of the board's epics, as text.
pub fn epic_id_texts(board: &Board) -> (r: Vec<String>)
    ensures
        models(r@) == epic_ids(board@.epics),
        r@.len() == board.epics@.len(),
{
    let mut out: Vec<String> = Vec::new();
    let mut i: usize = 0;
    while i < board.epics.len()
        invariant
            i <= board.epics@.len(),
            out@.len() == i,
            forall|j: int| 0 <= j < i ==> (#[trigger] out@[j])@ == board@.epics[j].id,
        decreases board.epics@.len() - i,
    {
        out.push(board.epics[i].id.to_string());
        i = i + 1;
    }
    assert(models(out@) =~= epic_ids(board@.epics));
    out
}

fn check_unique_ids(tickets: &Vec<String>, epics: &Vec<String>, out: &mut Vec<String>)
    ensures
        models(final(out)@) == models(old(out)@) + quoted("tickets: duplicate id '"@, repeats(models(tickets@)), "'"@) + quoted(
            "epics: duplicate id '"@,
            repeats(models(epics@)),
            "'"@,
        ),
{
    report_all("tickets: duplicate id '", &duplicates(tickets), "'", out);
    report_all("epics: duplicate id '", &duplicates(epics), "'", out);
}

// ---- epic references ------------------------------------------------------------------------------------------------

/// What is wrong with the epic reference of `t`.
pub open spec fn epic_ref_problem(t: TicketModel, epics: Seq<Text>) -> Seq<Text> {
    match t.epic {
        Some(e) => if epics.contains(e) {
            Seq::empty()
        } else {
            seq![t.id + ": epic '"@ + e + "' does not exist"@]
        },
        None => Seq::empty(),
    }
}

pub open spec fn epic_ref_problems(ts: Seq<TicketModel>, epics: Seq<Text>) -> Seq<Text>
    decreases ts.len(),
{
    if ts.len() == 0 {
        Seq::empty()
    } else {
        epic_ref_problems(ts.drop_last(), epics) + epic_ref_problem(ts.last(), epics)
    }
}

fn check_epic_refs(board: &Board, epics: &Vec<String>, out: &mut Vec<String>)
    ensures
        models(final(out)@) == models(old(out)@) + epic_ref_problems(board@.tickets, models(epics@)),
{
    let ghost before = models(out@);
    let ghost ts = board@.tickets;
    let ghost known = models(epics@);
    let mut i: usize = 0;
    assert(before + epic_ref_problems(ts.take(0), known) =~= before);
    assert(known.take(known.len() as int) =~= known);
    while i < board.tickets.len()
        invariant
            ts == board@.tickets,
            known == models(epics@),
            known.take(known.len() as int) == known,
            i <= board.tickets@.len(),
            models(out@) == before + epic_ref_problems(ts.take(i as int), known),
        decreases board.tickets@.len() - i,
    {
        proof {
            assert(ts.take(i + 1).drop_last() =~= ts.take(i as int));
            assert(ts.take(i + 1).last() == board.tickets@[i as int]@);
        }
        let ghost so_far = models(out@);
        match &board.tickets[i].epic {
            Some(e) => {
                if !among(epics, epics.len(), &e.0) {
                    out.push(crate::text::concat4(board.tickets[i].id.0.as_str(), ": epic '", e.0.as_str(), "' does not exist"));
                }
            },
            None => {},
        }
        assert(models(out@) =~= so_far + epic_ref_problem(ts[i as int], known));
        assert(models(out@) =~= before + epic_ref_problems(ts.take(i + 1), known));
        i = i + 1;
    }
    assert(ts.take(ts.len() as int) =~= ts);
}

// ---- dependencies ---------------------------------------------------------------------------------------------------

/// What is wrong with the dependency of `id` on `dep`.
pub open spec fn dep_problem(id: Text, dep: Text, known: Seq<Text>) -> Seq<Text> {
    if dep == id {
        seq![id + ": depends on itself"@]
    } else if !known.contains(dep) {
        seq![id + ": depends_on '"@ + dep + "' does not exist"@]
    } else {
        Seq::empty()
    }
}

pub open spec fn deps_problems(id: Text, deps: Seq<Text>, known: Seq<Text>) -> Seq<Text>
    decreases deps.len(),
{
    if deps.len() == 0 {
        Seq::empty()
    } else {
        deps_problems(id, deps.drop_last(), known) + dep_problem(id, deps.last(), known)
    }
}

pub open spec fn reference_problems(ts: Seq<TicketModel>, known: Seq<Text>) -> Seq<Text>
    decreases ts.len(),
{
    if ts.len() == 0 {
        Seq::empty()
    } else {
        reference_problems(ts.drop_last(), known) + deps_problems(ts.last().id, ts.last().depends_on, known)
    }
}

/// A dependency that counts towards a cycle: on another ticket that exists.
pub open spec fn counts(ts: Seq<TicketModel>, id: Text, dep: Text) -> bool {
    dep != id && ticket_ids(ts).contains(dep)
}

/// The ticket at `i` depends on `dep`, and the dependency counts.
pub open spec fn depends(ts: Seq<TicketModel>, i: int, dep: Text) -> bool {
    0 <= i < ts.len() && ts[i].depends_on.contains(dep) && counts(ts, ts[i].id, dep)
}

/// `id` can be worked off in `k` rounds: in each round every ticket goes whose dependencies have all gone before.
pub open spec fn settles(ts: Seq<TicketModel>, id: Text, k: nat) -> bool
    decreases k,
{
    k > 0 && forall|i: int, dep: Text|
        (#[trigger] depends(ts, i, dep)) && ts[i].id == id ==> settles(ts, dep, (k - 1) as nat)
}

/// `id` can never be worked off: it sits on a cycle of dependencies, or waits for one.
pub open spec fn stuck(ts: Seq<TicketModel>, id: Text) -> bool {
    !settles(ts, id, ts.len())
}

/// The stuck ids among the first `n` tickets, sorted, each once.
pub open spec fn stuck_upto(ts: Seq<TicketModel>, n: nat) -> Seq<Text>
    decreases n,
{
    if n == 0 {
        Seq::empty()
    } else if stuck(ts, ts[n - 1].id) {
        inserted(stuck_upto(ts, (n - 1) as nat), ts[n - 1].id)
    } else {
        stuck_upto(ts, (n - 1) as nat)
    }
}

pub open spec fn stuck_ids(ts: Seq<TicketModel>) -> Seq<Text> {
    stuck_upto(ts, ts.len())
}

pub open spec fn cycle_problems(ts: Seq<TicketModel>) -> Seq<Text> {
    if stuck_ids(ts).len() == 0 {
        Seq::empty()
    } else {
        seq!["depends_on cycle involving: "@ + join_spec(stuck_ids(ts), ", "@)]
    }
}

/// Everything wrong with a board, in the order it is reported.
pub open spec fn problems(b: BoardModel) -> Seq<Text> {
    column_problems(b.columns) + id_problems(b) + epic_ref_problems(b.tickets, epic_ids(b.epics)) + reference_problems(
        b.tickets,
        ticket_ids(b.tickets),
    ) + cycle_problems(b.tickets)
}

/// The board meets every invariant.
pub open spec fn valid(b: BoardModel) -> bool {
    problems(b).len() == 0
}

fn check_references(board: &Board, known: &Vec<String>, out: &mut Vec<String>)
    requires
        models(known@) == ticket_ids(board@.tickets),
    ensures
        models(final(out)@) == models(old(out)@) + reference_problems(board@.tickets, ticket_ids(board@.tickets)),
{
    let ghost before = models(out@);
    let ghost ts = board@.tickets;
    let ghost ids = ticket_ids(ts);
    let mut i: usize = 0;
    assert(before + reference_problems(ts.take(0), ids) =~= before);
    while i < board.tickets.len()
        invariant
            ts == board@.tickets,
            ids == ticket_ids(ts),
            models(known@) == ids,
            i <= board.tickets@.len(),
            models(out@) == before + reference_problems(ts.take(i as int), ids),
        decreases board.tickets@.len() - i,
    {
        let ghost so_far = models(out@);
        let t: &super::model::Ticket = &board.tickets[i];
        let ghost deps = ts[i as int].depends_on;
        let mut d: usize = 0;
        assert(so_far + deps_problems(t.id@, deps.take(0), ids) =~= so_far);
        while d < t.depends_on.len()
            invariant
                deps == models(t.depends_on@),
                models(known@) == ids,
                d <= t.depends_on@.len(),
                models(out@) == so_far + deps_problems(t.id@, deps.take(d as int), ids),
            decreases t.depends_on@.len() - d,
        {
            let ghost part = models(out@);
            proof {
                assert(deps.take(d + 1).drop_last() =~= deps.take(d as int));
                assert(deps.take(d + 1).last() == t.depends_on@[d as int]@);
                assert(ids.take(ids.len() as int) =~= ids);
            }
            let dep: &TicketId = &t.depends_on[d];
            if dep.same(&t.id) {
                out.push(concat2(t.id.0.as_str(), ": depends on itself"));
            } else if !among(known, known.len(), &dep.0) {
                out.push(crate::text::concat4(t.id.0.as_str(), ": depends_on '", dep.0.as_str(), "' does not exist"));
            }
            assert(models(out@) =~= part + dep_problem(t.id@, dep@, ids));
            assert(models(out@) =~= so_far + deps_problems(t.id@, deps.take(d + 1), ids));
            d = d + 1;
        }
        proof {
            assert(deps.take(deps.len() as int) =~= deps);
            assert(ts.take(i + 1).drop_last() =~= ts.take(i as int));
            assert(ts.take(i + 1).last() == board.tickets@[i as int]@);
            assert(models(out@) =~= before + reference_problems(ts.take(i + 1), ids));
        }
        i = i + 1;
    }
    assert(ts.take(ts.len() as int) =~= ts);
}

/// Where `id` first stands in `ids`; the length when it does not.
fn index_of(ids: &Vec<String>, id: &String) -> (r: usize)
    ensures
        r == position(models(ids@), id@),
        r <= ids@.len(),
{
    let ghost s = models(ids@);
    let mut i: usize = 0;
    while i < ids.len()
        invariant
            s == models(ids@),
            i <= ids@.len(),
            forall|j: int| 0 <= j < i ==> s[j] != id@,
        decreases ids@.len() - i,
    {
        if ids[i] == *id {
            proof {
                crate::seqs::lemma_position(s, id@, i as int);
            }
            return i;
        }
        i = i + 1;
    }
    proof {
        crate::seqs::lemma_position(s, id@, i as int);
    }
    i
}

proof fn lemma_settles_grows(ts: Seq<TicketModel>, id: Text, k: nat)
    requires
        settles(ts, id, k),
    ensures
        settles(ts, id, k + 1),
    decreases k,
{
    assert forall|i: int, dep: Text| (#[trigger] depends(ts, i, dep)) && ts[i].id == id implies settles(ts, dep, k) by {
        lemma_settles_grows(ts, dep, (k - 1) as nat);
    }
}

/// Once a round settles no further ticket, no later round does.
proof fn lemma_settled_for_good(ts: Seq<TicketModel>, k: nat, m: nat, id: Text)
    requires
        k <= m,
        ticket_ids(ts).contains(id),
        forall|x: Text| ticket_ids(ts).contains(x) ==> settles(ts, x, k + 1) == #[trigger] settles(ts, x, k),
    ensures
        settles(ts, id, m) == settles(ts, id, k),
    decreases m,
{
    if m > k {
        assert forall|i: int, dep: Text| (#[trigger] depends(ts, i, dep)) && ts[i].id == id implies settles(
            ts,
            dep,
            (m - 1) as nat,
        ) == settles(ts, dep, k) by {
            lemma_settled_for_good(ts, k, (m - 1) as nat, dep);
        }
        assert(settles(ts, id, m) == settles(ts, id, k + 1)) by {
            if settles(ts, id, k + 1) {
                assert forall|i: int, dep: Text| (#[trigger] depends(ts, i, dep)) && ts[i].id == id implies settles(
                    ts,
                    dep,
                    (m - 1) as nat,
                ) by {
                    assert(settles(ts, dep, k));
                }
            }
            if settles(ts, id, m) {
                assert forall|i: int, dep: Text| (#[trigger] depends(ts, i, dep)) && ts[i].id == id implies settles(
                    ts,
                    dep,
                    k,
                ) by {
                    assert(settles(ts, dep, (m - 1) as nat));
                }
            }
        }
        assert(settles(ts, id, k + 1) == settles(ts, id, k));
    }
}

/// The dependencies of the ticket at `i` that count, each as the position of the ticket it names.
spec fn edges_of(ts: Seq<TicketModel>, i: int, edges: Seq<usize>) -> bool {
    &&& forall|e: int| 0 <= e < edges.len() ==> (#[trigger] edges[e]) < ts.len() && depends(ts, i, ts[edges[e] as int].id)
        && edges[e] == position(ticket_ids(ts), ts[edges[e] as int].id)
    &&& forall|dep: Text| #[trigger] depends(ts, i, dep) ==> edges.contains(position(ticket_ids(ts), dep) as usize)
}

fn edges(board: &Board, ids: &Vec<String>, i: usize) -> (r: Vec<usize>)
    requires
        i < board.tickets@.len(),
        models(ids@) == ticket_ids(board@.tickets),
    ensures
        edges_of(board@.tickets, i as int, r@),
{
    let ghost ts = board@.tickets;
    let t: &super::model::Ticket = &board.tickets[i];
    let ghost deps = ts[i as int].depends_on;
    let mut out: Vec<usize> = Vec::new();
    let mut d: usize = 0;
    while d < t.depends_on.len()
        invariant
            ts == board@.tickets,
            i < ts.len(),
            t@ == ts[i as int],
            deps == ts[i as int].depends_on,
            deps == models(t.depends_on@),
            models(ids@) == ticket_ids(ts),
            d <= t.depends_on@.len(),
            forall|e: int| 0 <= e < out@.len() ==> (#[trigger] out@[e]) < ts.len() && depends(
                ts,
                i as int,
                ts[out@[e] as int].id,
            ) && out@[e] == position(ticket_ids(ts), ts[out@[e] as int].id),
            forall|j: int| 0 <= j < d && depends(ts, i as int, #[trigger] deps[j]) ==> out@.contains(
                position(ticket_ids(ts), deps[j]) as usize,
            ),
        decreases t.depends_on@.len() - d,
    {
        let dep: &TicketId = &t.depends_on[d];
        let ghost so_far = out@;
        let at: usize = index_of(ids, &dep.0);
        proof {
            lemma_position_least(ticket_ids(ts), dep@);
            assert(deps[d as int] == dep@);
            assert(deps.contains(dep@));
        }
        if !dep.same(&t.id) && at < ids.len() {
            out.push(at);
            proof {
                assert(ticket_ids(ts)[at as int] == dep@);
                assert(ts[at as int].id == dep@);
                assert(out@[so_far.len() as int] == at);
                assert forall|j: int| 0 <= j < d + 1 && depends(ts, i as int, #[trigger] deps[j]) implies out@.contains(
                    position(ticket_ids(ts), deps[j]) as usize,
                ) by {
                    if j < d {
                        let p = position(ticket_ids(ts), deps[j]) as usize;
                        let q = choose|q: int| 0 <= q < so_far.len() && so_far[q] == p;
                        assert(out@[q] == p);
                    }
                }
            }
        }
        d = d + 1;
    }
    proof {
        assert forall|dep: Text| #[trigger] depends(ts, i as int, dep) implies out@.contains(
            position(ticket_ids(ts), dep) as usize,
        ) by {
            let j = choose|j: int| 0 <= j < deps.len() && deps[j] == dep;
            assert(depends(ts, i as int, deps[j]));
        }
    }
    out
}

/// Every dependency in `edges` has been worked off.
spec fn all_settled(edges: Seq<usize>, settled: Seq<bool>) -> bool {
    forall|e: int| 0 <= e < edges.len() ==> settled[(#[trigger] edges[e]) as int]
}

/// `settled` says of each ticket, at the first position of its id, whether `k` rounds work it off.
spec fn round_is(ts: Seq<TicketModel>, settled: Seq<bool>, k: nat) -> bool {
    &&& settled.len() == ts.len()
    &&& forall|f: int|
        0 <= f < ts.len() && position(ticket_ids(ts), ts[f].id) == f ==> #[trigger] settled[f] == settles(ts, ts[f].id, k)
}

/// The tables the rounds work on: for each ticket the first position of its id, and its dependencies as positions.
spec fn tables_are(ts: Seq<TicketModel>, first: Seq<usize>, deps: Seq<Vec<usize>>) -> bool {
    &&& first.len() == ts.len()
    &&& deps.len() == ts.len()
    &&& forall|i: int| 0 <= i < ts.len() ==> #[trigger] first[i] == position(ticket_ids(ts), ts[i].id)
    &&& forall|i: int| 0 <= i < ts.len() ==> #[trigger] first[i] < ts.len()
    &&& forall|i: int| 0 <= i < ts.len() ==> edges_of(ts, i, (#[trigger] deps[i])@)
}

fn edges_settled(edges: &Vec<usize>, settled: &Vec<bool>) -> (r: bool)
    requires
        forall|e: int| 0 <= e < edges@.len() ==> (#[trigger] edges@[e]) < settled@.len(),
    ensures
        r == all_settled(edges@, settled@),
{
    let mut e: usize = 0;
    while e < edges.len()
        invariant
            forall|e: int| 0 <= e < edges@.len() ==> (#[trigger] edges@[e]) < settled@.len(),
            e <= edges@.len(),
            forall|j: int| 0 <= j < e ==> settled@[(#[trigger] edges@[j]) as int],
        decreases edges@.len() - e,
    {
        if !settled[edges[e]] {
            assert(!settled@[edges@[e as int] as int]);
            return false;
        }
        e = e + 1;
    }
    true
}

/// The tickets at first position `f` among the first `n`, all with their dependencies worked off.
spec fn all_ready(first: Seq<usize>, deps: Seq<Vec<usize>>, settled: Seq<bool>, n: int, f: int) -> bool {
    forall|j: int| 0 <= j < n && #[trigger] first[j] == f ==> all_settled(deps[j]@, settled)
}

proof fn lemma_round(
    ts: Seq<TicketModel>,
    first: Seq<usize>,
    deps: Seq<Vec<usize>>,
    settled: Seq<bool>,
    k: nat,
    f: int,
)
    requires
        tables_are(ts, first, deps),
        round_is(ts, settled, k),
        ts.len() <= usize::MAX,
        0 <= f < ts.len(),
        position(ticket_ids(ts), ts[f].id) == f,
    ensures
        all_ready(first, deps, settled, ts.len() as int, f) == settles(ts, ts[f].id, k + 1),
{
    let ids = ticket_ids(ts);
    let id = ts[f].id;
    assert forall|dep: Text, i: int| #[trigger] depends(ts, i, dep) implies 0 <= position(ids, dep) < ts.len()
        && ts[position(ids, dep)].id == dep && settled[position(ids, dep)] == settles(ts, dep, k) by {
        lemma_position_least(ids, dep);
        let p = position(ids, dep);
        assert(ids[p] == ts[p].id);
        assert(position(ids, ts[p].id) == p);
    }
    if all_ready(first, deps, settled, ts.len() as int, f) {
        assert forall|i: int, dep: Text| (#[trigger] depends(ts, i, dep)) && ts[i].id == id implies settles(ts, dep, k) by {
            assert(first[i] == f);
            let p = position(ids, dep) as usize;
            assert(deps[i]@.contains(p));
            let e = choose|e: int| 0 <= e < deps[i]@.len() && deps[i]@[e] == p;
            assert(settled[deps[i]@[e] as int]);
        }
    }
    if settles(ts, id, k + 1) {
        assert forall|j: int| 0 <= j < ts.len() && #[trigger] first[j] == f implies all_settled(deps[j]@, settled) by {
            lemma_position_least(ids, ts[j].id);
            assert(ids[j] == ts[j].id);
            assert(ids.contains(ts[j].id));
            assert(ids[f] == ts[j].id);
            assert(ts[j].id == id);
            assert forall|e: int| 0 <= e < deps[j]@.len() implies settled[(#[trigger] deps[j]@[e]) as int] by {
                let dep = ts[deps[j]@[e] as int].id;
                assert(depends(ts, j, dep));
            }
        }
    }
}

/// One round: what is worked off when everything whose dependencies are worked off goes.
fn peel(board: &Board, first: &Vec<usize>, deps: &Vec<Vec<usize>>, settled: &Vec<bool>, k: usize) -> (r: Vec<bool>)
    requires
        tables_are(board@.tickets, first@, deps@),
        round_is(board@.tickets, settled@, k as nat),
    ensures
        round_is(board@.tickets, r@, (k + 1) as nat),
{
    let ghost ts = board@.tickets;
    let mut next: Vec<bool> = Vec::new();
    while next.len() < first.len()
        invariant
            next@.len() <= first@.len(),
            forall|f: int| 0 <= f < next@.len() ==> #[trigger] next@[f],
        decreases first@.len() - next@.len(),
    {
        next.push(true);
    }
    let mut i: usize = 0;
    while i < first.len()
        invariant
            ts == board@.tickets,
            tables_are(ts, first@, deps@),
            settled@.len() == ts.len(),
            next@.len() == ts.len(),
            i <= first@.len(),
            forall|f: int| 0 <= f < ts.len() ==> #[trigger] next@[f] == all_ready(first@, deps@, settled@, i as int, f),
        decreases first@.len() - i,
    {
        assert(edges_of(ts, i as int, deps@[i as int]@));
        let ready: bool = edges_settled(&deps[i], settled);
        let ghost prev = next@;
        let at: usize = first[i];
        if !ready {
            next[at] = false;
        }
        proof {
            assert forall|f: int| 0 <= f < ts.len() implies #[trigger] next@[f] == all_ready(
                first@,
                deps@,
                settled@,
                i + 1,
                f,
            ) by {
                assert(prev[f] == all_ready(first@, deps@, settled@, i as int, f));
                if all_ready(first@, deps@, settled@, i + 1, f) {
                    assert forall|j: int| 0 <= j < i && #[trigger] first@[j] == f implies all_settled(
                        deps@[j]@,
                        settled@,
                    ) by {}
                }
                if f == first@[i as int] && all_ready(first@, deps@, settled@, i + 1, f) {
                    assert(all_settled(deps@[i as int]@, settled@));
                }
            }
        }
        i = i + 1;
    }
    proof {
        assert(ts.len() == first.len());
        assert forall|f: int| 0 <= f < ts.len() && position(ticket_ids(ts), ts[f].id) == f implies #[trigger] next@[f]
            == settles(ts, ts[f].id, (k + 1) as nat) by {
            lemma_round(ts, first@, deps@, settled@, k as nat, f);
        }
    }
    next
}

fn same_flags(a: &Vec<bool>, b: &Vec<bool>) -> (r: bool)
    requires
        a@.len() == b@.len(),
    ensures
        r == (a@ == b@),
{
    let mut i: usize = 0;
    while i < a.len()
        invariant
            a@.len() == b@.len(),
            i <= a@.len(),
            forall|j: int| 0 <= j < i ==> a@[j] == b@[j],
        decreases a@.len() - i,
    {
        if a[i] != b[i] {
            return false;
        }
        i = i + 1;
    }
    assert(a@ =~= b@);
    true
}

/// The ids that can never be worked off, sorted; `None` when every ticket can.
fn find_cycle_members(board: &Board, ids: &Vec<String>) -> (r: Option<Vec<String>>)
    requires
        models(ids@) == ticket_ids(board@.tickets),
    ensures
        match r {
            Some(members) => models(members@) == stuck_ids(board@.tickets) && members@.len() > 0,
            None => stuck_ids(board@.tickets).len() == 0,
        },
{
    let ghost ts = board@.tickets;
    let n: usize = board.tickets.len();
    let mut first: Vec<usize> = Vec::new();
    let mut deps: Vec<Vec<usize>> = Vec::new();
    let mut settled: Vec<bool> = Vec::new();
    let mut i: usize = 0;
    assert(ids@.len() == models(ids@).len());
    while i < n
        invariant
            ts == board@.tickets,
            n == board.tickets@.len(),
            models(ids@) == ticket_ids(ts),
            ids@.len() == n,
            i <= n,
            first@.len() == i,
            deps@.len() == i,
            settled@.len() == i,
            forall|j: int| 0 <= j < i ==> #[trigger] first@[j] == position(ticket_ids(ts), ts[j].id) && first@[j] < n,
            forall|j: int| 0 <= j < i ==> edges_of(ts, j, (#[trigger] deps@[j])@),
            forall|j: int| 0 <= j < i ==> !(#[trigger] settled@[j]),
        decreases n - i,
    {
        proof {
            let id = ts[i as int].id;
            lemma_position_least(ticket_ids(ts), id);
            assert(ticket_ids(ts)[i as int] == id);
            assert(ticket_ids(ts).contains(id));
            assert(ids@[i as int]@ == models(ids@)[i as int]);
        }
        first.push(index_of(ids, &ids[i]));
        deps.push(edges(board, ids, i));
        settled.push(false);
        i = i + 1;
    }
    let mut k: usize = 0;
    let mut moving: bool = true;
    while moving && k < n
        invariant
            ts == board@.tickets,
            n == ts.len(),
            tables_are(ts, first@, deps@),
            k <= n,
            round_is(ts, settled@, k as nat),
            !moving ==> forall|x: Text|
                ticket_ids(ts).contains(x) ==> settles(ts, x, (k + 1) as nat) == #[trigger] settles(ts, x, k as nat),
        decreases n - k, moving as int,
    {
        let next: Vec<bool> = peel(board, &first, &deps, &settled, k);
        if same_flags(&next, &settled) {
            proof {
                assert forall|x: Text| ticket_ids(ts).contains(x) implies settles(ts, x, (k + 1) as nat) == #[trigger] settles(
                    ts,
                    x,
                    k as nat,
                ) by {
                    lemma_position_least(ticket_ids(ts), x);
                    let p = position(ticket_ids(ts), x);
                    assert(ticket_ids(ts)[p] == ts[p].id);
                    assert(next@[p] == settled@[p]);
                }
            }
            moving = false;
        } else {
            settled = next;
            k = k + 1;
        }
    }
    let mut out: Vec<String> = Vec::new();
    let mut j: usize = 0;
    while j < n
        invariant
            ts == board@.tickets,
            n == ts.len(),
            n == board.tickets@.len(),
            models(ids@) == ticket_ids(ts),
            ids@.len() == n,
            tables_are(ts, first@, deps@),
            k <= n,
            k < n ==> !moving,
            round_is(ts, settled@, k as nat),
            !moving ==> forall|x: Text|
                ticket_ids(ts).contains(x) ==> settles(ts, x, (k + 1) as nat) == #[trigger] settles(ts, x, k as nat),
            j <= n,
            models(out@) == stuck_upto(ts, j as nat),
        decreases n - j,
    {
        proof {
            let id = ts[j as int].id;
            lemma_position_least(ticket_ids(ts), id);
            assert(ticket_ids(ts)[j as int] == id);
            assert(ticket_ids(ts).contains(id));
            let p = position(ticket_ids(ts), id);
            assert(ticket_ids(ts)[p] == ts[p].id);
            assert(first@[j as int] == p);
            assert(settled@[p] == settles(ts, id, k as nat));
            if k < n {
                lemma_settled_for_good(ts, k as nat, n as nat, id);
            }
            assert(ids@[j as int]@ == models(ids@)[j as int]);
        }
        if !settled[first[j]] {
            insert_sorted(&mut out, ids[j].clone());
        }
        j = j + 1;
    }
    if out.len() == 0 {
        None
    } else {
        Some(out)
    }
}

fn check_dependencies(board: &Board, ids: &Vec<String>, out: &mut Vec<String>)
    requires
        models(ids@) == ticket_ids(board@.tickets),
    ensures
        models(final(out)@) == models(old(out)@) + reference_problems(board@.tickets, ticket_ids(board@.tickets))
            + cycle_problems(board@.tickets),
{
    check_references(board, ids, out);
    let ghost before = models(out@);
    match find_cycle_members(board, ids) {
        Some(members) => {
            out.push(concat2("depends_on cycle involving: ", &join(&members, ", ")));
        },
        None => {},
    }
    assert(models(out@) =~= before + cycle_problems(board@.tickets));
}

/// Check every invariant, returning all problems found.
///
/// - column metadata covers the four columns, once each
/// - ticket and epic ids are unique
/// - every `ticket.epic` names an existing epic
/// - every `depends_on` entry names an existing ticket, no ticket depends on itself, and nothing depends on itself by a
///   detour
pub fn validate(board: &Board) -> (r: Result<(), Vec<String>>)
    ensures
        match r {
            Ok(_) => valid(board@),
            Err(found) => !valid(board@) && models(found@) == problems(board@),
        },
{
    let tickets: Vec<String> = ticket_id_texts(board);
    let epics: Vec<String> = epic_id_texts(board);
    let mut out: Vec<String> = Vec::new();
    check_column(board, ColumnId::Todo, &mut out);
    check_column(board, ColumnId::Doing, &mut out);
    check_column(board, ColumnId::Review, &mut out);
    check_column(board, ColumnId::Done, &mut out);
    assert(models(out@) =~= column_problems(board@.columns));
    check_unique_ids(&tickets, &epics, &mut out);
    check_epic_refs(board, &epics, &mut out);
    check_dependencies(board, &tickets, &mut out);
    assert(models(out@) =~= problems(board@));
    if out.len() == 0 {
        Ok(())
    } else {
        Err(out)
    }
}

// ---- laws -----------------------------------------------------------------------------------------------------------

/// Every dependency names another ticket on the board.
pub open spec fn references_sound(ts: Seq<TicketModel>) -> bool {
    forall|i: int, d: int|
        0 <= i < ts.len() && 0 <= d < ts[i].depends_on.len() ==> counts(ts, ts[i].id, #[trigger] ts[i].depends_on[d])
}

/// Every ticket's epic, where it has one, is on the board.
pub open spec fn epics_sound(b: BoardModel) -> bool {
    forall|i: int| 0 <= i < b.tickets.len() ==> ((#[trigger] b.tickets[i]).epic matches Some(e) ==> epic_ids(b.epics).contains(e))
}

/// Every ticket can be worked off.
pub open spec fn acyclic(ts: Seq<TicketModel>) -> bool {
    forall|i: int| 0 <= i < ts.len() ==> !stuck(ts, (#[trigger] ts[i]).id)
}

proof fn lemma_repeats(ids: Seq<Text>)
    ensures
        (repeats(ids).len() == 0) == ids.no_duplicates(),
    decreases ids.len(),
{
    if ids.len() > 0 {
        let front = ids.drop_last();
        lemma_repeats(front);
        if front.no_duplicates() && !front.contains(ids.last()) {
            assert forall|i: int, j: int| 0 <= i < ids.len() && 0 <= j < ids.len() && i != j implies ids[i] != ids[j] by {
                if i < front.len() {
                    assert(front[i] == ids[i]);
                }
                if j < front.len() {
                    assert(front[j] == ids[j]);
                }
            }
        }
        if ids.no_duplicates() {
            assert forall|i: int, j: int| 0 <= i < front.len() && 0 <= j < front.len() && i != j implies front[i]
                != front[j] by {
                assert(ids[i] != ids[j]);
            }
            if front.contains(ids.last()) {
                let k = choose|k: int| 0 <= k < front.len() && front[k] == ids.last();
                assert(ids[k] != ids[ids.len() - 1]);
            }
        }
    }
}

proof fn lemma_epic_refs(ts: Seq<TicketModel>, epics: Seq<Text>)
    ensures
        (epic_ref_problems(ts, epics).len() == 0) == (forall|i: int|
            0 <= i < ts.len() ==> ((#[trigger] ts[i]).epic matches Some(e) ==> epics.contains(e))),
    decreases ts.len(),
{
    if ts.len() > 0 {
        let front = ts.drop_last();
        lemma_epic_refs(front, epics);
        if epic_ref_problems(ts, epics).len() == 0 {
            assert forall|i: int| 0 <= i < ts.len() implies ((#[trigger] ts[i]).epic matches Some(e) ==> epics.contains(e)) by {
                if i < front.len() {
                    assert(front[i] == ts[i]);
                }
            }
        }
        if forall|i: int| 0 <= i < ts.len() ==> ((#[trigger] ts[i]).epic matches Some(e) ==> epics.contains(e)) {
            assert forall|i: int| 0 <= i < front.len() implies ((#[trigger] front[i]).epic matches Some(e) ==> epics.contains(e)) by {
                assert(front[i] == ts[i]);
            }
            assert(ts[ts.len() - 1] == ts.last());
        }
    }
}

proof fn lemma_deps(id: Text, deps: Seq<Text>, known: Seq<Text>)
    ensures
        (deps_problems(id, deps, known).len() == 0) == (forall|d: int|
            0 <= d < deps.len() ==> (#[trigger] deps[d]) != id && known.contains(deps[d])),
    decreases deps.len(),
{
    if deps.len() > 0 {
        let front = deps.drop_last();
        lemma_deps(id, front, known);
        if deps_problems(id, deps, known).len() == 0 {
            assert forall|d: int| 0 <= d < deps.len() implies (#[trigger] deps[d]) != id && known.contains(deps[d]) by {
                if d < front.len() {
                    assert(front[d] == deps[d]);
                }
            }
        }
        if forall|d: int| 0 <= d < deps.len() ==> (#[trigger] deps[d]) != id && known.contains(deps[d]) {
            assert forall|d: int| 0 <= d < front.len() implies (#[trigger] front[d]) != id && known.contains(front[d]) by {
                assert(front[d] == deps[d]);
            }
            assert(deps[deps.len() - 1] == deps.last());
        }
    }
}

proof fn lemma_references(ts: Seq<TicketModel>, known: Seq<Text>)
    ensures
        (reference_problems(ts, known).len() == 0) == (forall|i: int, d: int|
            0 <= i < ts.len() && 0 <= d < ts[i].depends_on.len() ==> (#[trigger] ts[i].depends_on[d]) != ts[i].id
                && known.contains(ts[i].depends_on[d])),
    decreases ts.len(),
{
    if ts.len() > 0 {
        let front = ts.drop_last();
        let last = ts.last();
        lemma_references(front, known);
        lemma_deps(last.id, last.depends_on, known);
        if reference_problems(ts, known).len() == 0 {
            assert forall|i: int, d: int| 0 <= i < ts.len() && 0 <= d < ts[i].depends_on.len() implies (
            #[trigger] ts[i].depends_on[d]) != ts[i].id && known.contains(ts[i].depends_on[d]) by {
                if i < front.len() {
                    assert(front[i].depends_on[d] == ts[i].depends_on[d]);
                }
            }
        }
        if forall|i: int, d: int|
            0 <= i < ts.len() && 0 <= d < ts[i].depends_on.len() ==> (#[trigger] ts[i].depends_on[d]) != ts[i].id
                && known.contains(ts[i].depends_on[d]) {
            assert forall|i: int, d: int| 0 <= i < front.len() && 0 <= d < front[i].depends_on.len() implies (
            #[trigger] front[i].depends_on[d]) != front[i].id && known.contains(front[i].depends_on[d]) by {
                assert(front[i].depends_on[d] == ts[i].depends_on[d]);
            }
            assert forall|d: int| 0 <= d < last.depends_on.len() implies (#[trigger] last.depends_on[d]) != last.id
                && known.contains(last.depends_on[d]) by {
                assert(ts[ts.len() - 1].depends_on[d] == last.depends_on[d]);
            }
        }
    }
}

proof fn lemma_stuck_upto(ts: Seq<TicketModel>, n: nat)
    requires
        n <= ts.len(),
    ensures
        crate::text::sorted(stuck_upto(ts, n)),
        forall|x: Text| #![trigger stuck_upto(ts, n).contains(x)]
            stuck_upto(ts, n).contains(x) <==> stuck(ts, x) && ticket_ids(ts).take(n as int).contains(x),
    decreases n,
{
    let ids = ticket_ids(ts);
    if n == 0 {
        assert(ids.take(0) =~= Seq::<Text>::empty());
    } else {
        lemma_stuck_upto(ts, (n - 1) as nat);
        let prev = stuck_upto(ts, (n - 1) as nat);
        let id = ts[n - 1].id;
        crate::text::inserting_keeps_sorted(prev, id);
        assert(ids.take(n as int) =~= ids.take(n - 1).push(id));
        assert forall|x: Text| #![trigger stuck_upto(ts, n).contains(x)]
            stuck_upto(ts, n).contains(x) <==> stuck(ts, x) && ids.take(n as int).contains(x) by {
            assert(prev.contains(x) <==> stuck(ts, x) && ids.take(n - 1).contains(x));
            if ids.take(n - 1).contains(x) {
                let shorter = ids.take(n - 1);
                let k = choose|k: int| 0 <= k < shorter.len() && shorter[k] == x;
                assert(ids.take(n as int)[k] == x);
            }
            if x == id {
                assert(ids.take(n as int)[n - 1] == x);
            }
            if ids.take(n as int).contains(x) && x != id {
                let longer = ids.take(n as int);
                let k = choose|k: int| 0 <= k < longer.len() && longer[k] == x;
                assert(ids.take(n - 1)[k] == x);
            }
        }
    }
}

/// What a reported cycle names: exactly the tickets that can never be worked off, sorted.
pub proof fn cycle_members_are_the_stuck_tickets(ts: Seq<TicketModel>)
    ensures
        crate::text::sorted(stuck_ids(ts)),
        forall|x: Text| #![trigger stuck_ids(ts).contains(x)]
            stuck_ids(ts).contains(x) <==> stuck(ts, x) && ticket_ids(ts).contains(x),
{
    lemma_stuck_upto(ts, ts.len());
    assert(ticket_ids(ts).take(ts.len() as int) =~= ticket_ids(ts));
}

/// A board is valid exactly when each column stands once, no id stands twice, every reference names something on the
/// board, no ticket depends on itself, and every ticket can be worked off.
pub proof fn valid_boards(b: BoardModel)
    ensures
        valid(b) <==> {
            &&& forall|c: ColumnId| column_count(b.columns, c) == 1
            &&& ticket_ids(b.tickets).no_duplicates()
            &&& epic_ids(b.epics).no_duplicates()
            &&& epics_sound(b)
            &&& references_sound(b.tickets)
            &&& acyclic(b.tickets)
        },
{
    let ts = b.tickets;
    lemma_repeats(ticket_ids(ts));
    lemma_repeats(epic_ids(b.epics));
    lemma_epic_refs(ts, epic_ids(b.epics));
    lemma_references(ts, ticket_ids(ts));
    cycle_members_are_the_stuck_tickets(ts);
    let cols = b.columns;
    assert((forall|c: ColumnId| column_count(cols, c) == 1) <==> column_problems(cols).len() == 0) by {
        if column_problems(cols).len() == 0 {
            assert forall|c: ColumnId| column_count(cols, c) == 1 by {
                match c {
                    ColumnId::Todo => {},
                    ColumnId::Doing => {},
                    ColumnId::Review => {},
                    ColumnId::Done => {},
                }
            }
        }
    }
    assert(acyclic(ts) <==> stuck_ids(ts).len() == 0) by {
        if acyclic(ts) && stuck_ids(ts).len() > 0 {
            let x = stuck_ids(ts)[0];
            assert(stuck_ids(ts).contains(x));
            let k = choose|k: int| 0 <= k < ts.len() && ticket_ids(ts)[k] == x;
            assert(ts[k].id == x);
        }
        if stuck_ids(ts).len() == 0 {
            assert forall|i: int| 0 <= i < ts.len() implies !stuck(ts, (#[trigger] ts[i]).id) by {
                assert(ticket_ids(ts)[i] == ts[i].id);
                assert(!stuck_ids(ts).contains(ts[i].id));
            }
        }
    }
    assert(references_sound(ts) <==> reference_problems(ts, ticket_ids(ts)).len() == 0);
}

/// Each ticket of `chain` depends on the one after it.
pub open spec fn dependency_chain(ts: Seq<TicketModel>, chain: Seq<Text>) -> bool {
    forall|i: int| 0 <= i < chain.len() - 1 ==> #[trigger] links(ts, chain[i], chain[i + 1])
}

/// Some ticket called `id` depends on `dep`, and the dependency counts.
pub open spec fn links(ts: Seq<TicketModel>, id: Text, dep: Text) -> bool {
    exists|t: int| #[trigger] depends(ts, t, dep) && ts[t].id == id
}

proof fn lemma_chain_settles(ts: Seq<TicketModel>, chain: Seq<Text>, k: nat)
    requires
        chain.len() > 0,
        dependency_chain(ts, chain),
        settles(ts, chain[0], k),
    ensures
        chain.len() <= k,
        settles(ts, chain.last(), (k - (chain.len() - 1)) as nat),
    decreases chain.len(),
{
    if chain.len() > 1 {
        let rest = chain.subrange(1, chain.len() as int);
        assert(links(ts, chain[0], chain[0int + 1]));
        assert forall|i: int| 0 <= i < rest.len() - 1 implies #[trigger] links(ts, rest[i], rest[i + 1]) by {
            assert(links(ts, chain[i + 1], chain[i + 1 + 1]));
        }
        assert(rest[0] == chain[1]);
        lemma_chain_settles(ts, rest, (k - 1) as nat);
    }
}

/// The longest time any ticket can take is the shortest it takes: `settles` has a least round.
proof fn lemma_least_round(ts: Seq<TicketModel>, id: Text, k: nat) -> (m: nat)
    requires
        settles(ts, id, k),
    ensures
        m <= k,
        settles(ts, id, m),
        m > 0,
        !settles(ts, id, (m - 1) as nat),
    decreases k,
{
    if settles(ts, id, (k - 1) as nat) {
        lemma_least_round(ts, id, (k - 1) as nat)
    } else {
        k
    }
}

proof fn lemma_settles_upto(ts: Seq<TicketModel>, id: Text, k: nat, m: nat)
    requires
        settles(ts, id, k),
        k <= m,
    ensures
        settles(ts, id, m),
    decreases m - k,
{
    if k < m {
        lemma_settles_grows(ts, id, k);
        lemma_settles_upto(ts, id, k + 1, m);
    }
}

/// On a valid board no chain of dependencies, however long, comes back to the ticket it started from.
pub proof fn valid_boards_have_no_cycle(b: BoardModel, chain: Seq<Text>)
    requires
        valid(b),
        chain.len() > 1,
        ticket_ids(b.tickets).contains(chain[0]),
        dependency_chain(b.tickets, chain),
    ensures
        chain.last() != chain[0],
{
    let ts = b.tickets;
    valid_boards(b);
    let i = choose|i: int| 0 <= i < ts.len() && ticket_ids(ts)[i] == chain[0];
    assert(!stuck(ts, ts[i].id));
    let m = lemma_least_round(ts, chain[0], ts.len());
    lemma_chain_settles(ts, chain, m);
    if chain.last() == chain[0] {
        lemma_settles_upto(ts, chain[0], (m - (chain.len() - 1)) as nat, (m - 1) as nat);
    }
}

/// A ticket that takes `m` rounds and no fewer stands behind `m - 1` others, each a round quicker than the one before.
proof fn lemma_rank_chain(ts: Seq<TicketModel>, id: Text, m: nat) -> (chain: Seq<Text>)
    requires
        m > 0,
        ticket_ids(ts).contains(id),
        settles(ts, id, m),
        !settles(ts, id, (m - 1) as nat),
    ensures
        chain.len() == m,
        forall|i: int| 0 <= i < m ==> ticket_ids(ts).contains(#[trigger] chain[i]) && settles(ts, chain[i], (m - i) as nat)
            && !settles(ts, chain[i], (m - i - 1) as nat),
    decreases m,
{
    if m == 1 {
        seq![id]
    } else {
        let (t, dep) = choose|t: int, dep: Text|
            (#[trigger] depends(ts, t, dep)) && ts[t].id == id && !settles(ts, dep, (m - 2) as nat);
        let rest = lemma_rank_chain(ts, dep, (m - 1) as nat);
        let chain = seq![id] + rest;
        assert forall|i: int| 0 <= i < m implies ticket_ids(ts).contains(#[trigger] chain[i]) && settles(
            ts,
            chain[i],
            (m - i) as nat,
        ) && !settles(ts, chain[i], (m - i - 1) as nat) by {
            if i > 0 {
                assert(chain[i] == rest[i - 1]);
            }
        }
        chain
    }
}

/// More tickets in a row than there are on the board, and one of them stands there twice.
proof fn lemma_pigeonhole(walk: Seq<Text>, ids: Seq<Text>) -> (at: (int, int))
    requires
        walk.len() > ids.len(),
        forall|i: int| 0 <= i < walk.len() ==> ids.contains(#[trigger] walk[i]),
    ensures
        0 <= at.0 < at.1 < walk.len(),
        walk[at.0] == walk[at.1],
{
    if walk.no_duplicates() {
        walk.unique_seq_to_set();
        vstd::seq_lib::seq_to_set_is_finite(ids);
        ids.lemma_cardinality_of_set();
        assert(walk.to_set().subset_of(ids.to_set())) by {
            assert forall|x: Text| walk.to_set().contains(x) implies ids.to_set().contains(x) by {
                let k = choose|k: int| 0 <= k < walk.len() && walk[k] == x;
                assert(ids.contains(walk[k]));
            }
        }
        vstd::set_lib::lemma_len_subset(walk.to_set(), ids.to_set());
    }
    let (i, j) = choose|i: int, j: int| 0 <= i < walk.len() && 0 <= j < walk.len() && i != j && walk[i] == walk[j];
    if i < j {
        (i, j)
    } else {
        (j, i)
    }
}

/// As many rounds as there are tickets work off whatever can be worked off at all.
proof fn lemma_no_round_wasted(ts: Seq<TicketModel>, m: nat, id: Text)
    requires
        ticket_ids(ts).contains(id),
        settles(ts, id, m),
    ensures
        settles(ts, id, ts.len()),
{
    let r = lemma_least_round(ts, id, m);
    let chain = lemma_rank_chain(ts, id, r);
    if r > ts.len() {
        let (a, b) = lemma_pigeonhole(chain, ticket_ids(ts));
        assert(settles(ts, chain[b], (r - b) as nat));
        lemma_settles_upto(ts, chain[b], (r - b) as nat, (r - a - 1) as nat);
    }
    lemma_settles_upto(ts, id, r, ts.len());
}

/// A stuck ticket waits for another stuck ticket.
pub proof fn stuck_tickets_wait_for_stuck_tickets(ts: Seq<TicketModel>, id: Text)
    requires
        stuck(ts, id),
        ticket_ids(ts).contains(id),
    ensures
        exists|dep: Text| links(ts, id, dep) && #[trigger] stuck(ts, dep),
{
    let n = ts.len();
    if forall|dep: Text| links(ts, id, dep) ==> !#[trigger] stuck(ts, dep) {
        assert forall|i: int, dep: Text| (#[trigger] depends(ts, i, dep)) && ts[i].id == id implies settles(ts, dep, n) by {
            assert(links(ts, id, dep));
            assert(!stuck(ts, dep));
        }
        assert(settles(ts, id, n + 1));
        lemma_no_round_wasted(ts, n + 1, id);
    }
}

/// `way` leads from `id` along dependencies to where `cycle` sets out from, and comes back to.
pub open spec fn leads_to_cycle(ts: Seq<TicketModel>, id: Text, way: Seq<Text>, cycle: Seq<Text>) -> bool {
    &&& way.len() > 0 && way[0] == id && dependency_chain(ts, way)
    &&& cycle.len() > 1 && dependency_chain(ts, cycle) && cycle[0] == cycle.last()
    &&& way.last() == cycle[0]
}

/// Following stuck tickets goes on for as long as one likes.
proof fn lemma_stuck_walk(ts: Seq<TicketModel>, id: Text, n: nat) -> (walk: Seq<Text>)
    requires
        stuck(ts, id),
        ticket_ids(ts).contains(id),
    ensures
        walk.len() == n + 1,
        walk[0] == id,
        dependency_chain(ts, walk),
        forall|i: int| 0 <= i < walk.len() ==> ticket_ids(ts).contains(#[trigger] walk[i]),
    decreases n,
{
    if n == 0 {
        seq![id]
    } else {
        stuck_tickets_wait_for_stuck_tickets(ts, id);
        let dep = choose|dep: Text| links(ts, id, dep) && #[trigger] stuck(ts, dep);
        let rest = lemma_stuck_walk(ts, dep, (n - 1) as nat);
        let walk = seq![id] + rest;
        assert forall|i: int| 0 <= i < walk.len() - 1 implies #[trigger] links(ts, walk[i], walk[i + 1]) by {
            assert(walk[i + 1] == rest[i]);
            if i > 0 {
                assert(walk[i] == rest[i - 1]);
                assert(links(ts, rest[i - 1], rest[i - 1 + 1]));
            }
        }
        assert forall|i: int| 0 <= i < walk.len() implies ticket_ids(ts).contains(#[trigger] walk[i]) by {
            if i > 0 {
                assert(walk[i] == rest[i - 1]);
            }
        }
        walk
    }
}

/// What is reported as stuck is no false alarm, and nothing that is stuck goes unreported: a ticket can never be worked off
/// exactly when its dependencies lead to a cycle of dependencies.
pub proof fn stuck_tickets_lead_to_a_cycle(ts: Seq<TicketModel>, id: Text)
    requires
        ticket_ids(ts).contains(id),
    ensures
        stuck(ts, id) <==> exists|way: Seq<Text>, cycle: Seq<Text>| leads_to_cycle(ts, id, way, cycle),
{
    if stuck(ts, id) {
        let walk = lemma_stuck_walk(ts, id, ts.len());
        let (i, j) = lemma_pigeonhole(walk, ticket_ids(ts));
        let way = walk.subrange(0, i + 1);
        let cycle = walk.subrange(i, j + 1);
        assert forall|k: int| 0 <= k < way.len() - 1 implies #[trigger] links(ts, way[k], way[k + 1]) by {
            assert(links(ts, walk[k], walk[k + 1]));
        }
        assert forall|k: int| 0 <= k < cycle.len() - 1 implies #[trigger] links(ts, cycle[k], cycle[k + 1]) by {
            assert(links(ts, walk[i + k], walk[i + k + 1]));
        }
        assert(leads_to_cycle(ts, id, way, cycle));
    } else if exists|way: Seq<Text>, cycle: Seq<Text>| leads_to_cycle(ts, id, way, cycle) {
        let (way, cycle) = choose|way: Seq<Text>, cycle: Seq<Text>| leads_to_cycle(ts, id, way, cycle);
        lemma_chain_settles(ts, way, ts.len());
        let m = lemma_least_round(ts, cycle[0], (ts.len() - (way.len() - 1)) as nat);
        lemma_chain_settles(ts, cycle, m);
        lemma_settles_upto(ts, cycle[0], (m - (cycle.len() - 1)) as nat, (m - 1) as nat);
    }
}

/// `t` is `o` as far as dependencies go, or depends on less.
pub open spec fn asks_no_more(t: TicketModel, o: TicketModel) -> bool {
    t.id == o.id && forall|dep: Text| #[trigger] t.depends_on.contains(dep) ==> o.depends_on.contains(dep)
}

/// Every ticket of `us` is one of `ts`, and asks no more than it does there.
pub open spec fn asks_within(us: Seq<TicketModel>, ts: Seq<TicketModel>) -> bool {
    forall|i: int| 0 <= i < us.len() ==> exists|j: int| 0 <= j < ts.len() && asks_no_more(#[trigger] us[i], #[trigger] ts[j])
}

proof fn lemma_settles_within(us: Seq<TicketModel>, ts: Seq<TicketModel>, id: Text, k: nat)
    requires
        asks_within(us, ts),
        settles(ts, id, k),
    ensures
        settles(us, id, k),
    decreases k,
{
    assert forall|i: int, dep: Text| (#[trigger] depends(us, i, dep)) && us[i].id == id implies settles(
        us,
        dep,
        (k - 1) as nat,
    ) by {
        let j = choose|j: int| 0 <= j < ts.len() && asks_no_more(us[i], #[trigger] ts[j]);
        let m = choose|m: int| 0 <= m < us.len() && ticket_ids(us)[m] == dep;
        let n = choose|n: int| 0 <= n < ts.len() && asks_no_more(us[m], #[trigger] ts[n]);
        assert(ticket_ids(ts)[n] == dep);
        assert(depends(ts, j, dep));
        lemma_settles_within(us, ts, dep, (k - 1) as nat);
    }
}

/// Taking tickets or dependencies away, or putting the tickets in another order, makes no cycle.
pub proof fn asking_less_keeps_boards_acyclic(us: Seq<TicketModel>, ts: Seq<TicketModel>)
    requires
        asks_within(us, ts),
        acyclic(ts),
    ensures
        acyclic(us),
{
    assert forall|i: int| 0 <= i < us.len() implies !stuck(us, (#[trigger] us[i]).id) by {
        let id = us[i].id;
        let j = choose|j: int| 0 <= j < ts.len() && asks_no_more(us[i], #[trigger] ts[j]);
        assert(!stuck(ts, ts[j].id));
        lemma_settles_within(us, ts, id, ts.len());
        assert(ticket_ids(us)[i] == id);
        lemma_no_round_wasted(us, ts.len(), id);
    }
}

/// What is wrong with a board is told ticket by ticket, in board order: each reference to an epic that is not there, then each
/// dependency that is its own ticket or not there.
pub proof fn every_bad_reference_is_told(ts: Seq<TicketModel>, epics: Seq<Text>, known: Seq<Text>)
    ensures
        epic_ref_problems(ts, epics) == ts.filter(|t: TicketModel| t.epic is Some && !epics.contains(t.epic->0)).map_values(
            |t: TicketModel| t.id + ": epic '"@ + t.epic->0 + "' does not exist"@,
        ),
        reference_problems(ts, known) == ts.fold_left(
            Seq::<Text>::empty(),
            |told: Seq<Text>, t: TicketModel| told + deps_problems(t.id, t.depends_on, known),
        ),
{
    lemma_epics_told(ts, epics);
    lemma_references_told(ts, known);
}

proof fn lemma_epics_told(ts: Seq<TicketModel>, epics: Seq<Text>)
    ensures
        epic_ref_problems(ts, epics) == ts.filter(|t: TicketModel| t.epic is Some && !epics.contains(t.epic->0)).map_values(
            |t: TicketModel| t.id + ": epic '"@ + t.epic->0 + "' does not exist"@,
        ),
    decreases ts.len(),
{
    reveal(Seq::filter);
    let lost = |t: TicketModel| t.epic is Some && !epics.contains(t.epic->0);
    let line = |t: TicketModel| t.id + ": epic '"@ + t.epic->0 + "' does not exist"@;
    if ts.len() > 0 {
        lemma_epics_told(ts.drop_last(), epics);
        let before = ts.drop_last().filter(lost);
        if lost(ts.last()) {
            assert(before.push(ts.last()).map_values(line) =~= before.map_values(line).push(line(ts.last())));
            assert(epic_ref_problems(ts, epics) =~= before.map_values(line).push(line(ts.last())));
        } else {
            assert(epic_ref_problems(ts, epics) =~= epic_ref_problems(ts.drop_last(), epics));
        }
    } else {
        assert(ts.filter(lost).map_values(line) =~= Seq::<Text>::empty());
    }
}

proof fn lemma_references_told(ts: Seq<TicketModel>, known: Seq<Text>)
    ensures
        reference_problems(ts, known) == ts.fold_left(
            Seq::<Text>::empty(),
            |told: Seq<Text>, t: TicketModel| told + deps_problems(t.id, t.depends_on, known),
        ),
    decreases ts.len(),
{
    reveal(Seq::fold_left);
    if ts.len() > 0 {
        lemma_references_told(ts.drop_last(), known);
    }
}

/// A ticket's dependencies are told in order: one on itself as such, one that is not there by its name.
pub proof fn every_bad_dependency_is_told(id: Text, deps: Seq<Text>, known: Seq<Text>)
    ensures
        deps_problems(id, deps, known) == deps.filter(|d: Text| d == id || !known.contains(d)).map_values(
            |d: Text|
                if d == id {
                    id + ": depends on itself"@
                } else {
                    id + ": depends_on '"@ + d + "' does not exist"@
                },
        ),
    decreases deps.len(),
{
    reveal(Seq::filter);
    let bad = |d: Text| d == id || !known.contains(d);
    let line = |d: Text|
        if d == id {
            id + ": depends on itself"@
        } else {
            id + ": depends_on '"@ + d + "' does not exist"@
        };
    if deps.len() > 0 {
        every_bad_dependency_is_told(id, deps.drop_last(), known);
        let before = deps.drop_last().filter(bad);
        if bad(deps.last()) {
            assert(before.push(deps.last()).map_values(line) =~= before.map_values(line).push(line(deps.last())));
            assert(deps_problems(id, deps, known) =~= before.map_values(line).push(line(deps.last())));
        } else {
            assert(deps_problems(id, deps, known) =~= deps_problems(id, deps.drop_last(), known));
        }
    } else {
        assert(deps.filter(bad).map_values(line) =~= Seq::<Text>::empty());
    }
}

/// A column is told of when its metadata is missing or stands more than once, and how often.
pub proof fn a_column_stands_once(cs: Seq<ColumnMetaModel>, id: ColumnId)
    ensures
        column_count(cs, id) == cs.filter(|c: ColumnMetaModel| c.id == id).len(),
        column_count(cs, id) == 0 ==> column_problem(cs, id) == seq!["columns: missing metadata for '"@ + id.name() + "'"@],
        column_count(cs, id) == 1 ==> column_problem(cs, id).len() == 0,
        column_count(cs, id) > 1 ==> column_problem(cs, id) == seq![
            "columns: '"@ + id.name() + "' defined "@ + decimal(column_count(cs, id)) + " times"@,
        ],
{
    lemma_columns_counted(cs, id);
}

proof fn lemma_columns_counted(cs: Seq<ColumnMetaModel>, id: ColumnId)
    ensures
        column_count(cs, id) == cs.filter(|c: ColumnMetaModel| c.id == id).len(),
    decreases cs.len(),
{
    reveal(Seq::filter);
    if cs.len() > 0 {
        lemma_columns_counted(cs.drop_last(), id);
    }
}

/// The problems of a board come in this order: its columns, its ids, its references to epics, its dependencies, and its
/// cycles, which are told in one sentence that names every ticket caught in one.
pub proof fn problems_come_in_order(b: BoardModel)
    ensures
        problems(b) == column_problem(b.columns, ColumnId::Todo) + column_problem(b.columns, ColumnId::Doing)
            + column_problem(b.columns, ColumnId::Review) + column_problem(b.columns, ColumnId::Done) + (quoted(
            "tickets: duplicate id '"@,
            repeats(ticket_ids(b.tickets)),
            "'"@,
        ) + quoted("epics: duplicate id '"@, repeats(epic_ids(b.epics)), "'"@)) + epic_ref_problems(
            b.tickets,
            epic_ids(b.epics),
        ) + reference_problems(b.tickets, ticket_ids(b.tickets)) + cycle_problems(b.tickets),
        stuck_ids(b.tickets).len() == 0 ==> cycle_problems(b.tickets).len() == 0,
        stuck_ids(b.tickets).len() > 0 ==> cycle_problems(b.tickets) == seq![
            "depends_on cycle involving: "@ + join_spec(stuck_ids(b.tickets), ", "@),
        ],
{
}

/// The board that a fresh store starts with is valid: the four columns in order, nothing on it, nothing counted yet.
pub proof fn a_fresh_board_is_valid()
    ensures
        ({
            let b = BoardModel::empty();
            &&& valid(b)
            &&& b.tickets.len() == 0 && b.epics.len() == 0 && b.version == 0
            &&& b.schema == crate::store::model::CURRENT_SCHEMA
            &&& b.next_ticket_seq == 1 && b.next_epic_seq == 1
            &&& b.columns.len() == 4 && b.columns[0].id == ColumnId::Todo && b.columns[1].id == ColumnId::Doing
            &&& b.columns[2].id == ColumnId::Review && b.columns[3].id == ColumnId::Done
            &&& b.columns[0].title == "To do"@ && b.columns[1].title == "Doing"@ && b.columns[2].title == "Review"@
            &&& b.columns[3].title == "Done"@
        }),
{
    let b = BoardModel::empty();
    valid_boards(b);
    reveal_with_fuel(column_count, 5);
    let cs = b.columns;
    assert(cs.drop_last().drop_last().drop_last().drop_last() =~= Seq::empty());
    assert(cs.last().id == ColumnId::Done);
    assert(cs.drop_last().last().id == ColumnId::Review);
    assert(cs.drop_last().drop_last().last().id == ColumnId::Doing);
    assert(cs.drop_last().drop_last().drop_last().last().id == ColumnId::Todo);
}

} // verus!
