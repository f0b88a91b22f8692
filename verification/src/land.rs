//! Landing detection: how a review ticket earns its move to `done`.
//!
//! Done means landed in the local main branch, or explicitly discarded, so somebody has to notice the landing. [`sweep`]
//! does so offline, from what git says; [`poll_pass`] keeps each review ticket's pull request fresh, from what gh says. Both
//! rest on three principles: a landing takes positive proof, nothing is ever discarded automatically, and a ticket worked
//! elsewhere never lands from local branch state.
use vstd::prelude::*;

use crate::git::Invocation;
use crate::json;
use crate::json::{
    as_array, as_str, as_u64, get, items, member, number, reading, string, text_of, text_opt, text_or_empty, Json,
    JsonModel,
};
use crate::ops::{apply_spec, is_landing, land_spec, Op, StateModel};
use crate::seqs::{models, opt_model};
use crate::store::model::{Board, ColumnId, ColumnModel, PrModel, PrRef, PrState, Ticket, TicketId, TicketModel};
use crate::store::Store;
use crate::text::{ascii_lowered, concat3, concat4, concat5, decimal, listed, same, to_decimal, Text};
use crate::time::Timestamp;
use crate::writes::{Write, WriteModel};

verus! {

broadcast use crate::seqs::group_models;

// ---- the offline pass -----------------------------------------------------------------------------------------------

/// What may have to be asked of git about the main branch.
#[derive(Debug, PartialEq, Eq)]
pub enum Question {
    /// Is this revision an ancestor of the main branch?
    Ancestor(String),
    /// Is everything this revision adds already in the main branch, patch by patch?
    Equivalent(String),
}

pub enum QuestionModel {
    Ancestor(Text),
    Equivalent(Text),
}

impl View for Question {
    type V = QuestionModel;

    open spec fn view(&self) -> QuestionModel {
        match self {
            Question::Ancestor(rev) => QuestionModel::Ancestor(rev@),
            Question::Equivalent(rev) => QuestionModel::Equivalent(rev@),
        }
    }
}

impl Question {
    fn same(&self, other: &Question) -> (r: bool)
        ensures
            r == (self@ == other@),
    {
        match (self, other) {
            (Question::Ancestor(a), Question::Ancestor(b)) => same(a, b),
            (Question::Equivalent(a), Question::Equivalent(b)) => same(a, b),
            _ => false,
        }
    }

    /// What to run for the answer.
    pub fn invocation(&self, repo: &str, main: &str) -> (r: Invocation)
        ensures
            r@ == match self@ {
                QuestionModel::Ancestor(rev) => crate::git::git_in(repo@).arg("merge-base"@).arg("--is-ancestor"@).arg(rev).arg(
                    main@,
                ),
                QuestionModel::Equivalent(rev) => crate::git::git_in(repo@).arg("cherry"@).arg(main@).arg(rev),
            },
    {
        match self {
            Question::Ancestor(rev) => crate::git::ask_ancestor(repo, rev, main),
            Question::Equivalent(rev) => crate::git::ask_cherry(repo, main, rev),
        }
    }
}

/// An answered question; `None` says that git could not tell.
#[derive(Debug)]
pub struct Known {
    pub question: Question,
    pub answer: Option<bool>,
}

pub struct KnownModel {
    pub question: QuestionModel,
    pub answer: Option<bool>,
}

impl View for Known {
    type V = KnownModel;

    open spec fn view(&self) -> KnownModel {
        KnownModel { question: self.question@, answer: self.answer }
    }
}

/// The first answer to a question; `None` where it was not asked yet.
pub open spec fn answer(known: Seq<KnownModel>, q: QuestionModel) -> Option<Option<bool>>
    decreases known.len(),
{
    if known.len() == 0 {
        None
    } else {
        match answer(known.drop_last(), q) {
            Some(a) => Some(a),
            None => if known.last().question == q {
                Some(known.last().answer)
            } else {
                None
            },
        }
    }
}

proof fn lemma_answer(known: Seq<KnownModel>, q: QuestionModel, n: int)
    requires
        0 <= n <= known.len(),
        answer(known.take(n), q) is Some,
    ensures
        answer(known, q) == answer(known.take(n), q),
    decreases known.len() - n,
{
    if n < known.len() {
        assert(known.take(n + 1).drop_last() =~= known.take(n));
        lemma_answer(known, q, n + 1);
    } else {
        assert(known.take(n) =~= known);
    }
}

fn look_up(known: &Vec<Known>, q: &Question) -> (r: Option<Option<bool>>)
    ensures
        r == answer(models(known@), q@),
{
    let ghost all = models(known@);
    let mut i: usize = 0;
    while i < known.len()
        invariant
            all == models(known@),
            i <= known@.len(),
            answer(all.take(i as int), q@) is None,
        decreases known@.len() - i,
    {
        proof {
            assert(all.take(i + 1).drop_last() =~= all.take(i as int));
            assert(all.take(i + 1).last() == known@[i as int]@);
        }
        if known[i].question.same(q) {
            proof {
                lemma_answer(all, q@, i + 1);
            }
            return Some(known[i].answer);
        }
        i = i + 1;
    }
    assert(all.take(all.len() as int) =~= all);
    None
}

/// The tip last seen of a branch, among `(branch, tip)` pairs.
pub open spec fn observed(obs: Seq<(Text, Text)>, branch: Text) -> Option<Text>
    decreases obs.len(),
{
    if obs.len() == 0 {
        None
    } else if obs[0].0 == branch {
        Some(obs[0].1)
    } else {
        observed(obs.subrange(1, obs.len() as int), branch)
    }
}

/// A branch and the tip last seen of it.
#[derive(Debug, PartialEq, Eq)]
pub struct Observation {
    pub branch: String,
    pub tip: String,
}

impl View for Observation {
    type V = (Text, Text);

    open spec fn view(&self) -> (Text, Text) {
        (self.branch@, self.tip@)
    }
}

fn observation<'a>(obs: &'a Vec<Observation>, branch: &str) -> (r: Option<&'a String>)
    ensures
        match r {
            Some(tip) => observed(models(obs@), branch@) == Some(tip@),
            None => observed(models(obs@), branch@) is None,
        },
{
    let ghost all = models(obs@);
    proof {
        assert(all.subrange(0, all.len() as int) =~= all);
    }
    let mut i: usize = 0;
    while i < obs.len()
        invariant
            all == models(obs@),
            i <= obs@.len(),
            observed(all, branch@) == observed(all.subrange(i as int, all.len() as int), branch@),
        decreases obs@.len() - i,
    {
        proof {
            let rest = all.subrange(i as int, all.len() as int);
            assert(rest[0] == obs@[i as int]@);
            assert(rest.subrange(1, rest.len() as int) =~= all.subrange(i + 1, all.len() as int));
        }
        if same(&obs[i].branch, branch) {
            return Some(&obs[i].tip);
        }
        i = i + 1;
    }
    None
}

/// What becomes of one review ticket.
#[derive(Debug)]
pub enum Verdict {
    /// Something has to be asked first.
    Ask(Question),
    /// It landed, for this reason.
    Land(String),
    /// No proof: it stays in review.
    Stay,
}

pub enum VerdictModel {
    Ask(QuestionModel),
    Land(Text),
    Stay,
}

impl View for Verdict {
    type V = VerdictModel;

    open spec fn view(&self) -> VerdictModel {
        match self {
            Verdict::Ask(q) => VerdictModel::Ask(q@),
            Verdict::Land(reason) => VerdictModel::Land(reason@),
            Verdict::Stay => VerdictModel::Stay,
        }
    }
}

/// A proof by one question: landed for `reason` on a definite yes, else whatever `otherwise` says.
pub open spec fn proved_by(
    known: Seq<KnownModel>,
    q: QuestionModel,
    reason: Text,
    otherwise: VerdictModel,
) -> VerdictModel {
    match answer(known, q) {
        None => VerdictModel::Ask(q),
        Some(a) => if a == Some(true) {
            VerdictModel::Land(reason)
        } else {
            otherwise
        },
    }
}

/// The route over the pull request, tickets worked elsewhere included: merged is not done until the merge commit reaches
/// the local main branch.
pub open spec fn pr_verdict(t: TicketModel, main: Text, known: Seq<KnownModel>) -> VerdictModel {
    match t.pr {
        Some(pr) => match (pr.state, pr.merged_commit) {
            (PrState::Merged, Some(oid)) => proved_by(
                known,
                QuestionModel::Ancestor(oid),
                "PR #"@ + decimal(pr.number as nat) + " merged and pulled into "@ + main,
                VerdictModel::Stay,
            ),
            _ => VerdictModel::Stay,
        },
        None => VerdictModel::Stay,
    }
}

/// The proof rules, in order: the live branch is merged; the deleted branch's observed tip is merged; what the observed
/// tip added is all there, patch by patch; the pull request's merge commit is there. The first three never apply to a
/// ticket worked elsewhere, whose branch was never a local one.
pub open spec fn verdict_spec(
    t: TicketModel,
    main: Text,
    heads: Seq<Text>,
    obs: Seq<(Text, Text)>,
    known: Seq<KnownModel>,
) -> VerdictModel {
    let by_pr = pr_verdict(t, main, known);
    match (t.external, t.column.branch()) {
        (None, Some(branch)) => if heads.contains(branch) {
            proved_by(known, QuestionModel::Ancestor(branch), "branch "@ + branch + " merged into "@ + main, by_pr)
        } else {
            match observed(obs, branch) {
                Some(tip) => proved_by(
                    known,
                    QuestionModel::Ancestor(tip),
                    "branch "@ + branch + " deleted after landing in "@ + main,
                    proved_by(
                        known,
                        QuestionModel::Equivalent(tip),
                        "branch "@ + branch + " rebased into "@ + main + " and deleted"@,
                        by_pr,
                    ),
                ),
                None => by_pr,
            }
        },
        _ => by_pr,
    }
}

fn verdict_by_pr(t: &Ticket, main: &str, known: &Vec<Known>) -> (r: Verdict)
    ensures
        r@ == pr_verdict(t@, main@, models(known@)),
{
    match &t.pr {
        Some(pr) => {
            if pr.state != PrState::Merged {
                return Verdict::Stay;
            }
            match &pr.merged_commit {
                Some(oid) => {
                    let q: Question = Question::Ancestor(oid.clone());
                    match look_up(known, &q) {
                        None => Verdict::Ask(q),
                        Some(Some(true)) => Verdict::Land(
                            concat4("PR #", &to_decimal(pr.number), " merged and pulled into ", main),
                        ),
                        Some(_) => Verdict::Stay,
                    }
                },
                None => Verdict::Stay,
            }
        },
        None => Verdict::Stay,
    }
}

/// Whether a review ticket landed, by the proof rules, or what to ask git first.
pub fn verdict(t: &Ticket, main: &str, heads: &Vec<String>, observations: &Vec<Observation>, known: &Vec<Known>) -> (r:
    Verdict)
    ensures
        r@ == verdict_spec(t@, main@, models(heads@), models(observations@), models(known@)),
{
    if t.external.is_some() {
        return verdict_by_pr(t, main, known);
    }
    let branch: &str = match t.column.branch() {
        Some(b) => b,
        None => return verdict_by_pr(t, main, known),
    };
    if listed(heads, branch) {
        let q: Question = Question::Ancestor(branch.to_owned());
        match look_up(known, &q) {
            None => return Verdict::Ask(q),
            Some(Some(true)) => return Verdict::Land(concat4("branch ", branch, " merged into ", main)),
            Some(_) => {},
        }
    } else {
        match observation(observations, branch) {
            Some(tip) => {
                let q: Question = Question::Ancestor(tip.clone());
                match look_up(known, &q) {
                    None => return Verdict::Ask(q),
                    Some(Some(true)) => return Verdict::Land(
                        concat4("branch ", branch, " deleted after landing in ", main),
                    ),
                    Some(_) => {},
                }
                let q: Question = Question::Equivalent(tip.clone());
                match look_up(known, &q) {
                    None => return Verdict::Ask(q),
                    Some(Some(true)) => return Verdict::Land(
                        concat5("branch ", branch, " rebased into ", main, " and deleted"),
                    ),
                    Some(_) => {},
                }
            },
            None => {},
        }
    }
    verdict_by_pr(t, main, known)
}

/// One ticket to land, and why.
#[derive(Debug)]
pub struct Landing {
    pub id: TicketId,
    /// The branch the evidence is about.
    pub branch: Option<String>,
    pub reason: String,
}

pub struct LandingModel {
    pub id: Text,
    pub branch: Option<Text>,
    pub reason: Text,
}

impl View for Landing {
    type V = LandingModel;

    open spec fn view(&self) -> LandingModel {
        LandingModel { id: self.id@, branch: opt_model(self.branch), reason: self.reason@ }
    }
}

impl Landing {
    /// The operation that lands it. It is refused, harmlessly, where the ticket moved on since the evidence was gathered.
    pub fn op(self) -> (r: Op)
        ensures
            is_landing(r, self@.id, self@.branch, self@.reason),
    {
        Op::LandTicket { id: self.id, expected_branch: self.branch, reason: self.reason }
    }
}

/// Apply one landing to a store. That the board moved since the evidence was gathered, and the landing is refused, is the
/// mechanism working and no failure. Answers whether the ticket landed.
pub fn land(store: &mut Store, landing: Landing) -> (r: bool)
    requires
        old(store)@.fits(),
        old(store)@.board matches Some(b) ==> b.version < u64::MAX,
    ensures
        exists|op: Op, now: Timestamp|
            is_landing(op, landing@.id, landing@.branch, landing@.reason) && match #[trigger] apply_spec(
                old(store)@,
                None,
                op,
                now,
            ) {
                Ok(done) => r && final(store)@ == done.0,
                Err(_) => !r && final(store)@ == old(store)@,
            },
{
    let op: Op = landing.op();
    crate::ops::apply(store, None, op).is_ok()
}

/// An offline pass, as far as it got.
#[derive(Debug)]
pub enum Sweep {
    /// Something has to be asked first.
    Ask(Question),
    /// The tickets to land, in board order.
    Done(Vec<Landing>),
}

pub enum SweepModel {
    Ask(QuestionModel),
    Done(Seq<LandingModel>),
}

impl View for Sweep {
    type V = SweepModel;

    open spec fn view(&self) -> SweepModel {
        match self {
            Sweep::Ask(q) => SweepModel::Ask(q@),
            Sweep::Done(ls) => SweepModel::Done(models(ls@)),
        }
    }
}

/// The review tickets with proof, in order; or the first question that is still open.
pub open spec fn sweep_spec(
    ts: Seq<TicketModel>,
    main: Text,
    heads: Seq<Text>,
    obs: Seq<(Text, Text)>,
    known: Seq<KnownModel>,
) -> SweepModel
    decreases ts.len(),
{
    if ts.len() == 0 {
        SweepModel::Done(Seq::empty())
    } else {
        match sweep_spec(ts.drop_last(), main, heads, obs, known) {
            SweepModel::Ask(q) => SweepModel::Ask(q),
            SweepModel::Done(before) => {
                let t = ts.last();
                if t.column.id() != ColumnId::Review {
                    SweepModel::Done(before)
                } else {
                    match verdict_spec(t, main, heads, obs, known) {
                        VerdictModel::Ask(q) => SweepModel::Ask(q),
                        VerdictModel::Land(reason) => SweepModel::Done(
                            before.push(LandingModel { id: t.id, branch: t.column.branch(), reason }),
                        ),
                        VerdictModel::Stay => SweepModel::Done(before),
                    }
                }
            },
        }
    }
}

/// A board and its claims after the landings of a pass, each made at its own time. One that is refused changes nothing.
pub open spec fn swept(s: StateModel, ls: Seq<LandingModel>, at: Seq<Timestamp>) -> StateModel
    decreases ls.len(),
{
    if ls.len() == 0 {
        s
    } else {
        let before = swept(s, ls.drop_last(), at);
        let l = ls.last();
        match land_spec(before, l.id, l.branch, l.reason, at[ls.len() - 1]) {
            Ok(after) => after,
            Err(_) => before,
        }
    }
}

proof fn lemma_sweep_stops(
    ts: Seq<TicketModel>,
    main: Text,
    heads: Seq<Text>,
    obs: Seq<(Text, Text)>,
    known: Seq<KnownModel>,
    n: int,
)
    requires
        0 <= n <= ts.len(),
        sweep_spec(ts.take(n), main, heads, obs, known) is Ask,
    ensures
        sweep_spec(ts, main, heads, obs, known) == sweep_spec(ts.take(n), main, heads, obs, known),
    decreases ts.len() - n,
{
    if n < ts.len() {
        assert(ts.take(n + 1).drop_last() =~= ts.take(n));
        lemma_sweep_stops(ts, main, heads, obs, known, n + 1);
    } else {
        assert(ts.take(n) =~= ts);
    }
}

/// One offline pass: the review tickets to land, each with its proof, or what to ask git first. A question that git
/// cannot answer proves nothing and stops nothing.
pub fn sweep(
    board: &Board,
    main: &str,
    heads: &Vec<String>,
    observations: &Vec<Observation>,
    known: &Vec<Known>,
) -> (r: Sweep)
    ensures
        r@ == sweep_spec(board@.tickets, main@, models(heads@), models(observations@), models(known@)),
{
    let ghost ts = board@.tickets;
    let ghost (hs, os, ks) = (models(heads@), models(observations@), models(known@));
    let mut out: Vec<Landing> = Vec::new();
    let mut i: usize = 0;
    while i < board.tickets.len()
        invariant
            ts == models(board.tickets@),
            hs == models(heads@),
            os == models(observations@),
            ks == models(known@),
            i <= board.tickets@.len(),
            sweep_spec(ts.take(i as int), main@, hs, os, ks) == SweepModel::Done(models(out@)),
        decreases board.tickets@.len() - i,
    {
        let t: &Ticket = &board.tickets[i];
        proof {
            assert(ts.take(i + 1).drop_last() =~= ts.take(i as int));
            assert(ts.take(i + 1).last() == t@);
        }
        if t.column.id() == ColumnId::Review {
            match verdict(t, main, heads, observations, known) {
                Verdict::Ask(q) => {
                    proof {
                        lemma_sweep_stops(ts, main@, hs, os, ks, i + 1);
                    }
                    return Sweep::Ask(q);
                },
                Verdict::Land(reason) => {
                    out.push(Landing { id: t.id.clone(), branch: t.column.branch_owned(), reason });
                },
                Verdict::Stay => {},
            }
        }
        i = i + 1;
    }
    assert(ts.take(ts.len() as int) =~= ts);
    Sweep::Done(out)
}

// ---- observations ---------------------------------------------------------------------------------------------------

/// The branch to watch for a ticket: that of one in review which is worked here.
pub open spec fn watched(t: TicketModel) -> Option<Text> {
    if t.column.id() == ColumnId::Review && t.external is None {
        t.column.branch()
    } else {
        None
    }
}

/// Some ticket has that branch watched.
pub open spec fn is_watched(ts: Seq<TicketModel>, branch: Text) -> bool {
    exists|i: int| 0 <= i < ts.len() && watched(#[trigger] ts[i]) == Some(branch)
}

fn watched_branch(t: &Ticket) -> (r: Option<String>)
    ensures
        opt_model(r) == watched(t@),
{
    if t.column.id() == ColumnId::Review && t.external.is_none() {
        t.column.branch_owned()
    } else {
        None
    }
}

/// The watched branches that are alive: the ones whose tips a pass records.
pub fn live_watched(board: &Board, heads: &Vec<String>) -> (r: Vec<String>)
    ensures
        forall|b: Text| #[trigger] models(r@).contains(b) <==> is_watched(board@.tickets, b) && models(heads@).contains(b),
        models(r@).no_duplicates(),
{
    let ghost ts = board@.tickets;
    let ghost hs = models(heads@);
    let mut out: Vec<String> = Vec::new();
    let mut i: usize = 0;
    while i < board.tickets.len()
        invariant
            ts == models(board.tickets@),
            hs == models(heads@),
            i <= board.tickets@.len(),
            models(out@).no_duplicates(),
            forall|b: Text|
                #[trigger] models(out@).contains(b) <==> is_watched(ts.take(i as int), b) && hs.contains(b),
        decreases board.tickets@.len() - i,
    {
        let ghost before = models(out@);
        let ghost now = ts.take(i + 1);
        proof {
            lemma_watched_step(ts, i as int);
            assert(ts[i as int] == board.tickets@[i as int]@);
        }
        match watched_branch(&board.tickets[i]) {
            Some(b) => {
                if listed(heads, &b) && !listed(&out, &b) {
                    let ghost text = b@;
                    out.push(b);
                    proof {
                        assert(models(out@) == before.push(text));
                        assert forall|x: Text| #[trigger] models(out@).contains(x) <==> before.contains(x) || x == text by {
                            if before.contains(x) {
                                let k = before.index_of(x);
                                assert(models(out@)[k] == x);
                            }
                            if x == text {
                                assert(models(out@)[before.len() as int] == x);
                            }
                        }
                    }
                }
            },
            None => {},
        }
        i = i + 1;
    }
    assert(ts.take(ts.len() as int) =~= ts);
    out
}

proof fn lemma_watched_step(ts: Seq<TicketModel>, i: int)
    requires
        0 <= i < ts.len(),
    ensures
        forall|b: Text|
            #[trigger] is_watched(ts.take(i + 1), b) <==> is_watched(ts.take(i), b) || watched(ts[i]) == Some(b),
{
    let (old_ts, new_ts) = (ts.take(i), ts.take(i + 1));
    assert forall|b: Text|
        #[trigger] is_watched(ts.take(i + 1), b) <==> is_watched(ts.take(i), b) || watched(ts[i]) == Some(b) by {
        if is_watched(new_ts, b) {
            let k = choose|k: int| 0 <= k < new_ts.len() && watched(#[trigger] new_ts[k]) == Some(b);
            if k < i {
                assert(watched(old_ts[k]) == Some(b));
            }
        }
        if is_watched(old_ts, b) {
            let k = choose|k: int| 0 <= k < old_ts.len() && watched(#[trigger] old_ts[k]) == Some(b);
            assert(watched(new_ts[k]) == Some(b));
        }
        if watched(ts[i]) == Some(b) {
            assert(watched(new_ts[i]) == Some(b));
        }
    }
}

proof fn lemma_observed_push(obs: Seq<(Text, Text)>, x: (Text, Text), branch: Text)
    ensures
        observed(obs.push(x), branch) == match observed(obs, branch) {
            Some(tip) => Some(tip),
            None => if x.0 == branch {
                Some(x.1)
            } else {
                None
            },
        },
    decreases obs.len(),
{
    let all = obs.push(x);
    if obs.len() == 0 {
        assert(all[0] == x);
        assert(all.subrange(1, all.len() as int) =~= Seq::<(Text, Text)>::empty());
        assert(observed(all.subrange(1, all.len() as int), branch) is None);
    } else if obs[0].0 == branch {
        assert(all[0] == obs[0]);
    } else {
        assert(all[0] == obs[0]);
        assert(all.subrange(1, all.len() as int) =~= obs.subrange(1, obs.len() as int).push(x));
        lemma_observed_push(obs.subrange(1, obs.len() as int), x, branch);
    }
}

/// What is remembered of a branch after a pass: nothing unless it is watched; its current tip where that was learned of a
/// live branch; else what was remembered before.
pub open spec fn remembered(
    ts: Seq<TicketModel>,
    heads: Seq<Text>,
    obs: Seq<(Text, Text)>,
    tips: Seq<(Text, Text)>,
    branch: Text,
) -> Option<Text> {
    if !is_watched(ts, branch) {
        None
    } else {
        match (heads.contains(branch), observed(tips, branch)) {
            (true, Some(tip)) => Some(tip),
            _ => observed(obs, branch),
        }
    }
}

fn pick<'a>(heads: &Vec<String>, obs: &'a Vec<Observation>, tips: &'a Vec<Observation>, branch: &str) -> (r: Option<
    &'a String,
>)
    ensures
        match r {
            Some(tip) => Some(tip@),
            None => None,
        } == match (models(heads@).contains(branch@), observed(models(tips@), branch@)) {
            (true, Some(tip)) => Some(tip),
            _ => observed(models(obs@), branch@),
        },
{
    if listed(heads, branch) {
        match observation(tips, branch) {
            Some(tip) => return Some(tip),
            None => {},
        }
    }
    observation(obs, branch)
}

/// Record the current tips of the live watched branches, and forget branches that no review ticket refers to any more.
/// `board` is the board after the landings, so that a landed ticket's observation retires with it. Answers what is
/// remembered, and whether that is anything new.
pub fn refresh_observations(
    board: &Board,
    heads: &Vec<String>,
    observations: &Vec<Observation>,
    tips: &Vec<Observation>,
) -> (r: (Vec<Observation>, bool))
    ensures
        forall|b: Text| #[trigger]
            observed(models(r.0@), b) == remembered(
                board@.tickets,
                models(heads@),
                models(observations@),
                models(tips@),
                b,
            ),
        r.1 == !same_memory(models(r.0@), models(observations@)),
{
    let ghost ts = board@.tickets;
    let ghost (hs, os, ps) = (models(heads@), models(observations@), models(tips@));
    let mut out: Vec<Observation> = Vec::new();
    let mut i: usize = 0;
    while i < board.tickets.len()
        invariant
            ts == models(board.tickets@),
            hs == models(heads@),
            os == models(observations@),
            ps == models(tips@),
            i <= board.tickets@.len(),
            forall|b: Text| #[trigger] observed(models(out@), b) == remembered(ts.take(i as int), hs, os, ps, b),
        decreases board.tickets@.len() - i,
    {
        let ghost before = models(out@);
        proof {
            lemma_watched_step(ts, i as int);
            assert(ts[i as int] == board.tickets@[i as int]@);
        }
        match watched_branch(&board.tickets[i]) {
            Some(b) => {
                if observation(&out, &b).is_none() {
                    match pick(heads, observations, tips, &b) {
                        Some(tip) => {
                            let entry: Observation = Observation { branch: b, tip: tip.clone() };
                            let ghost pair = entry@;
                            out.push(entry);
                            proof {
                                assert(models(out@) == before.push(pair));
                                assert forall|x: Text| #[trigger] observed(models(out@), x) == remembered(
                                    ts.take(i + 1),
                                    hs,
                                    os,
                                    ps,
                                    x,
                                ) by {
                                    lemma_observed_push(before, pair, x);
                                    assert(observed(before, x) == remembered(ts.take(i as int), hs, os, ps, x));
                                }
                            }
                        },
                        None => {},
                    }
                }
            },
            None => {},
        }
        proof {
            assert forall|x: Text| #[trigger] observed(models(out@), x) == remembered(ts.take(i + 1), hs, os, ps, x) by {
                if models(out@) == before {
                    assert(observed(before, x) == remembered(ts.take(i as int), hs, os, ps, x));
                }
            }
        }
        i = i + 1;
    }
    assert(ts.take(ts.len() as int) =~= ts);
    let changed: bool = !equal_memory(&out, observations);
    (out, changed)
}

/// Two lists remember the same tips.
pub open spec fn same_memory(a: Seq<(Text, Text)>, b: Seq<(Text, Text)>) -> bool {
    forall|x: Text| #[trigger] observed(a, x) == observed(b, x)
}

proof fn lemma_observed_at(obs: Seq<(Text, Text)>, branch: Text) -> (i: int)
    requires
        observed(obs, branch) is Some,
    ensures
        0 <= i < obs.len() && obs[i].0 == branch,
    decreases obs.len(),
{
    if obs[0].0 == branch {
        0
    } else {
        lemma_observed_at(obs.subrange(1, obs.len() as int), branch) + 1
    }
}

/// Every branch of `a` is remembered alike in `b`.
fn covered(a: &Vec<Observation>, b: &Vec<Observation>) -> (r: bool)
    ensures
        r == forall|i: int|
            #![trigger models(a@)[i]]
            0 <= i < a@.len() ==> observed(models(a@), models(a@)[i].0) == observed(models(b@), models(a@)[i].0),
{
    let ghost all = models(a@);
    let mut i: usize = 0;
    while i < a.len()
        invariant
            all == models(a@),
            i <= a@.len(),
            forall|j: int|
                #![trigger all[j]]
                0 <= j < i ==> observed(all, all[j].0) == observed(models(b@), all[j].0),
        decreases a@.len() - i,
    {
        assert(all[i as int] == a@[i as int]@);
        let branch: &String = &a[i].branch;
        let alike: bool = match (observation(a, branch), observation(b, branch)) {
            (Some(x), Some(y)) => same(x, y),
            (None, None) => true,
            _ => false,
        };
        if !alike {
            return false;
        }
        i = i + 1;
    }
    true
}

fn equal_memory(a: &Vec<Observation>, b: &Vec<Observation>) -> (r: bool)
    ensures
        r == same_memory(models(a@), models(b@)),
{
    let (one, other): (bool, bool) = (covered(a, b), covered(b, a));
    proof {
        let (x, y) = (models(a@), models(b@));
        if one && other {
            assert forall|t: Text| #[trigger] observed(x, t) == observed(y, t) by {
                if observed(x, t) is Some {
                    let i = lemma_observed_at(x, t);
                    assert(x[i].0 == t);
                }
                if observed(y, t) is Some {
                    let i = lemma_observed_at(y, t);
                    assert(y[i].0 == t);
                }
            }
        }
    }
    one && other
}

// ---- the gh pass ----------------------------------------------------------------------------------------------------

/// How a ticket's pull request is looked up: by its number once it is known, else by branch.
#[derive(Debug, PartialEq, Eq)]
pub enum Lookup {
    Number(u64),
    Branch(String),
}

pub enum LookupModel {
    Number(u64),
    Branch(Text),
}

impl View for Lookup {
    type V = LookupModel;

    open spec fn view(&self) -> LookupModel {
        match self {
            Lookup::Number(n) => LookupModel::Number(*n),
            Lookup::Branch(b) => LookupModel::Branch(b@),
        }
    }
}

/// The fields both lookups ask for.
pub const GH_FIELDS: &'static str = "number,url,state,mergeCommit";

impl Lookup {
    /// What to run for it.
    pub fn invocation(&self, repo: &str) -> (r: Invocation)
        ensures
            r@ == match self@ {
                LookupModel::Number(n) => crate::pr::gh_in(repo@).arg("pr"@).arg("view"@).arg(decimal(n as nat)).arg(
                    "--json"@,
                ).arg(GH_FIELDS@),
                LookupModel::Branch(b) => crate::pr::gh_in(repo@).arg("pr"@).arg("list"@).arg("--head"@).arg(b).arg(
                    "--state"@,
                ).arg("all"@).arg("--limit"@).arg("1"@).arg("--json"@).arg(GH_FIELDS@),
            },
    {
        match self {
            Lookup::Number(n) => crate::pr::gh(repo).arg("pr").arg("view").arg(&to_decimal(*n)).arg("--json").arg(GH_FIELDS),
            Lookup::Branch(b) => crate::pr::gh(repo).arg("pr").arg("list").arg("--head").arg(b).arg("--state").arg("all").arg(
                "--limit",
            ).arg("1").arg("--json").arg(GH_FIELDS),
        }
    }
}

/// The state a request is in, whatever the case it is spelled in.
pub open spec fn state_named(s: Text) -> Option<PrState> {
    let low = ascii_lowered(s);
    if low == "open"@ {
        Some(PrState::Open)
    } else if low == "merged"@ {
        Some(PrState::Merged)
    } else if low == "closed"@ {
        Some(PrState::Closed)
    } else {
        None
    }
}

/// The request itself: `gh pr view` answers an object, `gh pr list` an array of at most one.
pub open spec fn answered(j: JsonModel) -> Option<JsonModel> {
    match j {
        JsonModel::Array(items) => if items.len() == 0 {
            None
        } else {
            Some(items[0])
        },
        _ => Some(j),
    }
}

/// The pull request of an object that names its state and its number.
pub open spec fn pr_of(j: JsonModel) -> Option<PrModel> {
    match (string(member(j, "state"@)), number(member(j, "number"@))) {
        (Some(s), Some(n)) => match state_named(s) {
            Some(state) => Some(
                PrModel {
                    number: n,
                    url: text_of(member(j, "url"@)),
                    state,
                    merged_commit: string(member(member(j, "mergeCommit"@), "oid"@)),
                },
            ),
            None => None,
        },
        _ => None,
    }
}

/// The pull request gh's answer speaks of.
pub open spec fn pr_in(j: JsonModel) -> Option<PrModel> {
    match answered(j) {
        Some(obj) => pr_of(obj),
        None => None,
    }
}

/// The pull request an answer speaks of; `None` when there is no such request.
pub fn pr_from(j: &Json) -> (r: Option<PrRef>)
    ensures
        opt_model(r) == pr_in(j@),
{
    let obj: Option<&Json> = match as_array(Some(j)) {
        Some(list) => {
            if list.len() == 0 {
                return None;
            }
            Some(&list[0])
        },
        None => Some(j),
    };
    let low: String = match as_str(get(obj, "state")) {
        Some(s) => crate::text::lower_ascii(s),
        None => return None,
    };
    let state: PrState = if same(&low, "open") {
        PrState::Open
    } else if same(&low, "merged") {
        PrState::Merged
    } else if same(&low, "closed") {
        PrState::Closed
    } else {
        return None;
    };
    let number: u64 = match as_u64(get(obj, "number")) {
        Some(n) => n,
        None => return None,
    };
    Some(
        PrRef {
            number,
            url: text_or_empty(get(obj, "url")),
            state,
            merged_commit: text_opt(get(get(obj, "mergeCommit"), "oid")),
        },
    )
}

/// Shape gh's answer to a lookup. `Ok(None)` means that gh answered and there is no such request.
pub fn lookup(out: &str) -> (r: Result<Option<PrRef>, String>)
    ensures
        match (reading(out@), r) {
            (Ok(j), Ok(pr)) => opt_model(pr) == pr_in(j),
            (Err(e), Err(text)) => text@ == "unexpected gh output: "@ + e + ": "@ + out@,
            _ => false,
        },
{
    match json::parse(out) {
        Ok(j) => Ok(pr_from(&j)),
        Err(e) => Err(concat4("unexpected gh output: ", &e, ": ", out)),
    }
}

/// What changes on a ticket after a lookup: the binding, a note on a request closed without merging, and a landing where
/// the merge has already been pulled.
#[derive(Debug)]
pub struct Update {
    pub pr: PrRef,
    pub note: Option<String>,
    pub landing: Option<String>,
}

pub struct UpdateModel {
    pub pr: PrModel,
    pub note: Option<Text>,
    pub landing: Option<Text>,
}

impl View for Update {
    type V = UpdateModel;

    open spec fn view(&self) -> UpdateModel {
        UpdateModel { pr: self.pr@, note: opt_model(self.note), landing: opt_model(self.landing) }
    }
}

/// What an update takes, in order: the binding, then the note, then the landing.
pub open spec fn writes_of(t: TicketModel, u: UpdateModel) -> Seq<WriteModel> {
    let bound = Seq::<WriteModel>::empty().push(WriteModel::Request { id: t.id, pr: u.pr });
    let noted = match u.note {
        Some(text) => bound.push(WriteModel::Note { id: t.id, text }),
        None => bound,
    };
    match u.landing {
        Some(reason) => noted.push(WriteModel::Land { id: t.id, branch: t.column.branch(), reason }),
        None => noted,
    }
}

impl Update {
    /// What it takes, in order.
    pub fn writes(self, t: &Ticket) -> (r: Vec<Write>)
        ensures
            models(r@) == writes_of(t@, self@),
    {
        let mut out: Vec<Write> = Vec::new();
        out.push(Write::Request { id: t.id.clone(), pr: self.pr });
        match self.note {
            Some(text) => out.push(Write::Note { id: t.id.clone(), text }),
            None => {},
        }
        match self.landing {
            Some(reason) => out.push(Write::Land { id: t.id.clone(), branch: t.column.branch_owned(), reason }),
            None => {},
        }
        out
    }
}

/// The next step for one ticket.
#[derive(Debug)]
pub enum PollStep {
    /// Nothing to do.
    Skip,
    /// Look its request up.
    Look(Lookup),
    /// Ask git whether the merge has been pulled.
    Ask(Question),
    Apply(Update),
}

pub enum PollStepModel {
    Skip,
    Look(LookupModel),
    Ask(QuestionModel),
    Apply(UpdateModel),
}

impl View for PollStep {
    type V = PollStepModel;

    open spec fn view(&self) -> PollStepModel {
        match self {
            PollStep::Skip => PollStepModel::Skip,
            PollStep::Look(l) => PollStepModel::Look(l@),
            PollStep::Ask(q) => PollStepModel::Ask(q@),
            PollStep::Apply(u) => PollStepModel::Apply(u@),
        }
    }
}

/// How a ticket's request would be looked up. A merged one is not: the offline pass owns the rest of that journey.
pub open spec fn lookup_of(t: TicketModel) -> Option<LookupModel> {
    if t.column.id() != ColumnId::Review {
        None
    } else {
        match (t.pr, t.column.branch()) {
            (Some(pr), _) => if pr.state == PrState::Merged {
                None
            } else {
                Some(LookupModel::Number(pr.number))
            },
            (None, Some(branch)) => Some(LookupModel::Branch(branch)),
            (None, None) => None,
        }
    }
}

/// What a fresh answer changes on a ticket. `pulled` says that its merge commit is in the local main branch.
pub open spec fn update_of(t: TicketModel, main: Text, fresh: PrModel, pulled: bool) -> UpdateModel {
    let was_closed = t.pr matches Some(old_pr) && old_pr.state == PrState::Closed;
    UpdateModel {
        pr: fresh,
        note: if fresh.state == PrState::Closed && !was_closed {
            Some(
                "PR #"@ + decimal(fresh.number as nat)
                    + " was closed without merging — rework the ticket, or discard it"@,
            )
        } else {
            None
        },
        landing: if pulled {
            Some("PR #"@ + decimal(fresh.number as nat) + " merged and pulled into "@ + main)
        } else {
            None
        },
    }
}

/// The next step for one ticket. `looked_up` is gh's answer once there is one, `known` what git was asked.
pub open spec fn poll_spec(
    t: TicketModel,
    main: Text,
    looked_up: Option<Option<PrModel>>,
    known: Seq<KnownModel>,
) -> PollStepModel {
    match (lookup_of(t), looked_up) {
        (None, _) => PollStepModel::Skip,
        (Some(l), None) => PollStepModel::Look(l),
        (Some(_), Some(None)) => PollStepModel::Skip,
        (Some(_), Some(Some(fresh))) => if t.pr == Some(fresh) {
            PollStepModel::Skip
        } else {
            match (fresh.state, fresh.merged_commit) {
                (PrState::Merged, Some(oid)) => match answer(known, QuestionModel::Ancestor(oid)) {
                    None => PollStepModel::Ask(QuestionModel::Ancestor(oid)),
                    Some(a) => PollStepModel::Apply(update_of(t, main, fresh, a == Some(true))),
                },
                _ => PollStepModel::Apply(update_of(t, main, fresh, false)),
            }
        },
    }
}

fn lookup_for(t: &Ticket) -> (r: Option<Lookup>)
    ensures
        opt_model(r) == lookup_of(t@),
{
    if t.column.id() != ColumnId::Review {
        return None;
    }
    match &t.pr {
        Some(pr) => {
            if pr.state == PrState::Merged {
                None
            } else {
                Some(Lookup::Number(pr.number))
            }
        },
        None => match t.column.branch() {
            Some(b) => Some(Lookup::Branch(b.to_owned())),
            None => None,
        },
    }
}

fn update_for(t: &Ticket, main: &str, fresh: &PrRef, pulled: bool) -> (r: Update)
    ensures
        r@ == update_of(t@, main@, fresh@, pulled),
{
    let was_closed: bool = match &t.pr {
        Some(old_pr) => old_pr.state == PrState::Closed,
        None => false,
    };
    let note: Option<String> = if fresh.state == PrState::Closed && !was_closed {
        Some(
            concat3(
                "PR #",
                &to_decimal(fresh.number),
                " was closed without merging — rework the ticket, or discard it",
            ),
        )
    } else {
        None
    };
    let landing: Option<String> = if pulled {
        Some(concat4("PR #", &to_decimal(fresh.number), " merged and pulled into ", main))
    } else {
        None
    };
    Update { pr: fresh.clone(), note, landing }
}

/// One ticket of the gh pass: refresh its request, or discover it by branch; note a closing once; land at once where the
/// merge has already been pulled.
pub fn poll(t: &Ticket, main: &str, looked_up: Option<&Option<PrRef>>, known: &Vec<Known>) -> (r: PollStep)
    ensures
        r@ == poll_spec(
            t@,
            main@,
            match looked_up {
                Some(pr) => Some(opt_model(*pr)),
                None => None,
            },
            models(known@),
        ),
{
    let lookup: Lookup = match lookup_for(t) {
        Some(l) => l,
        None => return PollStep::Skip,
    };
    let fresh: &PrRef = match looked_up {
        None => return PollStep::Look(lookup),
        Some(None) => return PollStep::Skip,
        Some(Some(pr)) => pr,
    };
    match &t.pr {
        Some(old_pr) => {
            if old_pr.same(fresh) {
                return PollStep::Skip;
            }
        },
        None => {},
    }
    if fresh.state == PrState::Merged {
        match &fresh.merged_commit {
            Some(oid) => {
                let q: Question = Question::Ancestor(oid.clone());
                match look_up(known, &q) {
                    None => return PollStep::Ask(q),
                    Some(a) => {
                        let pulled: bool = match a {
                            Some(yes) => yes,
                            None => false,
                        };
                        return PollStep::Apply(update_for(t, main, fresh, pulled));
                    },
                }
            },
            None => {},
        }
    }
    PollStep::Apply(update_for(t, main, fresh, false))
}

// ---- the pass as a whole --------------------------------------------------------------------------------------------

/// What came back of a ticket's lookup: gh's answer, or what kept it from answering.
pub type Reply = (TicketId, Result<Option<PrRef>, String>);

pub type ReplyModel = (Text, Result<Option<PrModel>, Text>);

/// Replies, as contracts speak of them.
pub open spec fn replies(answers: Seq<Reply>) -> Seq<ReplyModel> {
    Seq::new(
        answers.len(),
        |i: int|
            (
                answers[i].0@,
                match answers[i].1 {
                    Ok(pr) => Ok::<Option<PrModel>, Text>(opt_model(pr)),
                    Err(e) => Err::<Option<PrModel>, Text>(e@),
                },
            ),
    )
}

/// The first reply about a ticket; `None` where it was not looked up yet.
pub open spec fn reply(answers: Seq<ReplyModel>, id: Text) -> Option<Result<Option<PrModel>, Text>>
    decreases answers.len(),
{
    if answers.len() == 0 {
        None
    } else if answers[0].0 == id {
        Some(answers[0].1)
    } else {
        reply(answers.subrange(1, answers.len() as int), id)
    }
}

/// Some lookup failed.
pub open spec fn any_failed(answers: Seq<ReplyModel>) -> bool {
    exists|i: int| 0 <= i < answers.len() && (#[trigger] answers[i]).1 is Err
}

/// The first ticket whose lookup is still owed, and how it is looked up.
pub open spec fn owed(ts: Seq<TicketModel>, answers: Seq<ReplyModel>) -> Option<(Text, LookupModel)>
    decreases ts.len(),
{
    if ts.len() == 0 {
        None
    } else {
        match (owed(ts.drop_last(), answers), lookup_of(ts.last())) {
            (Some(first), _) => Some(first),
            (None, Some(l)) => if reply(answers, ts.last().id) is None {
                Some((ts.last().id, l))
            } else {
                None
            },
            (None, None) => None,
        }
    }
}

/// What gh answered about a ticket.
pub open spec fn looked_up(answers: Seq<ReplyModel>, id: Text) -> Option<Option<PrModel>> {
    match reply(answers, id) {
        Some(Ok(pr)) => Some(pr),
        _ => None,
    }
}

/// Everything the answers ask for, with the number of tickets that change; or the first question to git that is open.
pub open spec fn gathered(ts: Seq<TicketModel>, main: Text, answers: Seq<ReplyModel>, known: Seq<KnownModel>) -> Result<
    (Seq<WriteModel>, nat),
    QuestionModel,
>
    decreases ts.len(),
{
    if ts.len() == 0 {
        Ok((Seq::empty(), 0))
    } else {
        match gathered(ts.drop_last(), main, answers, known) {
            Err(q) => Err(q),
            Ok(before) => {
                let t = ts.last();
                match poll_spec(t, main, looked_up(answers, t.id), known) {
                    PollStepModel::Ask(q) => Err(q),
                    PollStepModel::Apply(u) => Ok((before.0 + writes_of(t, u), before.1 + 1)),
                    _ => Ok(before),
                }
            },
        }
    }
}

/// The next step of the pass.
#[derive(Debug)]
pub enum PassStep {
    /// Look this ticket's request up.
    Look(TicketId, Lookup),
    /// Ask git whether a merge has been pulled.
    Ask(Question),
    /// All there is to write, in order, and how many tickets change by it.
    Done { writes: Vec<Write>, updated: usize },
}

pub enum PassStepModel {
    Look(Text, LookupModel),
    Ask(QuestionModel),
    Done { writes: Seq<WriteModel>, updated: nat },
}

impl View for PassStep {
    type V = PassStepModel;

    open spec fn view(&self) -> PassStepModel {
        match self {
            PassStep::Look(id, l) => PassStepModel::Look(id@, l@),
            PassStep::Ask(q) => PassStepModel::Ask(q@),
            PassStep::Done { writes, updated } => PassStepModel::Done { writes: models(writes@), updated: *updated as nat },
        }
    }
}

/// The next step of the pass: every lookup first, then what git has to say, and only then is there anything to write. One
/// failed lookup ends the pass, with nothing written.
pub open spec fn pass_spec(ts: Seq<TicketModel>, main: Text, answers: Seq<ReplyModel>, known: Seq<KnownModel>) -> PassStepModel {
    if any_failed(answers) {
        PassStepModel::Done { writes: Seq::empty(), updated: 0 }
    } else {
        match owed(ts, answers) {
            Some(first) => PassStepModel::Look(first.0, first.1),
            None => match gathered(ts, main, answers, known) {
                Err(q) => PassStepModel::Ask(q),
                Ok(all) => PassStepModel::Done { writes: all.0, updated: all.1 },
            },
        }
    }
}

fn reply_about<'a>(answers: &'a Vec<Reply>, id: &TicketId) -> (r: Option<&'a Result<Option<PrRef>, String>>)
    ensures
        match r {
            Some(Ok(pr)) => reply(replies(answers@), id@) == Some(Ok::<Option<PrModel>, Text>(opt_model(*pr))),
            Some(Err(e)) => reply(replies(answers@), id@) == Some(Err::<Option<PrModel>, Text>(e@)),
            None => reply(replies(answers@), id@) is None,
        },
{
    let ghost all = replies(answers@);
    let mut i: usize = 0;
    assert(all.subrange(0, all.len() as int) =~= all);
    while i < answers.len()
        invariant
            all == replies(answers@),
            i <= answers@.len(),
            reply(all, id@) == reply(all.subrange(i as int, all.len() as int), id@),
        decreases answers@.len() - i,
    {
        proof {
            let rest = all.subrange(i as int, all.len() as int);
            assert(rest[0] == all[i as int]);
            assert(rest.subrange(1, rest.len() as int) =~= all.subrange(i + 1, all.len() as int));
        }
        if answers[i].0.same(id) {
            return Some(&answers[i].1);
        }
        i = i + 1;
    }
    None
}

fn has_failed(answers: &Vec<Reply>) -> (r: bool)
    ensures
        r == any_failed(replies(answers@)),
{
    let ghost all = replies(answers@);
    let mut i: usize = 0;
    while i < answers.len()
        invariant
            all == replies(answers@),
            i <= answers@.len(),
            forall|j: int| 0 <= j < i ==> !((#[trigger] all[j]).1 is Err),
        decreases answers@.len() - i,
    {
        if answers[i].1.is_err() {
            assert(all[i as int].1 is Err);
            return true;
        }
        i = i + 1;
    }
    false
}

fn first_owed(board: &Board, answers: &Vec<Reply>) -> (r: Option<(TicketId, Lookup)>)
    ensures
        match r {
            Some(first) => owed(board@.tickets, replies(answers@)) == Some((first.0@, first.1@)),
            None => owed(board@.tickets, replies(answers@)) is None,
        },
{
    let ghost ts = board@.tickets;
    let ghost all = replies(answers@);
    let mut i: usize = 0;
    while i < board.tickets.len()
        invariant
            ts == models(board.tickets@),
            all == replies(answers@),
            i <= board.tickets@.len(),
            owed(ts.take(i as int), all) is None,
        decreases board.tickets@.len() - i,
    {
        let t: &Ticket = &board.tickets[i];
        proof {
            assert(ts.take(i + 1).drop_last() =~= ts.take(i as int));
            assert(ts.take(i + 1).last() == t@);
        }
        match lookup_for(t) {
            Some(l) => {
                if reply_about(answers, &t.id).is_none() {
                    proof {
                        lemma_owed(ts, all, i + 1);
                    }
                    return Some((t.id.clone(), l));
                }
            },
            None => {},
        }
        i = i + 1;
    }
    assert(ts.take(ts.len() as int) =~= ts);
    None
}

proof fn lemma_owed(ts: Seq<TicketModel>, answers: Seq<ReplyModel>, n: int)
    requires
        0 <= n <= ts.len(),
        owed(ts.take(n), answers) is Some,
    ensures
        owed(ts, answers) == owed(ts.take(n), answers),
    decreases ts.len() - n,
{
    if n < ts.len() {
        assert(ts.take(n + 1).drop_last() =~= ts.take(n));
        lemma_owed(ts, answers, n + 1);
    } else {
        assert(ts.take(n) =~= ts);
    }
}

proof fn lemma_gathering_stops(ts: Seq<TicketModel>, main: Text, answers: Seq<ReplyModel>, known: Seq<KnownModel>, n: int)
    requires
        0 <= n <= ts.len(),
        gathered(ts.take(n), main, answers, known) is Err,
    ensures
        gathered(ts, main, answers, known) == gathered(ts.take(n), main, answers, known),
    decreases ts.len() - n,
{
    if n < ts.len() {
        assert(ts.take(n + 1).drop_last() =~= ts.take(n));
        lemma_gathering_stops(ts, main, answers, known, n + 1);
    } else {
        assert(ts.take(n) =~= ts);
    }
}

/// The gh pass over the review tickets: what to find out next, or all that there is to write. `answers` are the replies to
/// the lookups made so far, `known` what git was asked.
pub fn poll_pass(board: &Board, main: &str, answers: &Vec<Reply>, known: &Vec<Known>) -> (r: PassStep)
    ensures
        r@ == pass_spec(board@.tickets, main@, replies(answers@), models(known@)),
{
    if has_failed(answers) {
        return PassStep::Done { writes: Vec::new(), updated: 0 };
    }
    match first_owed(board, answers) {
        Some((id, l)) => return PassStep::Look(id, l),
        None => {},
    }
    let ghost ts = board@.tickets;
    let ghost (all, ks) = (replies(answers@), models(known@));
    let mut writes: Vec<Write> = Vec::new();
    let mut updated: usize = 0;
    let mut i: usize = 0;
    while i < board.tickets.len()
        invariant
            ts == models(board.tickets@),
            all == replies(answers@),
            ks == models(known@),
            ts == board@.tickets,
            !any_failed(all),
            owed(ts, all) is None,
            updated <= i <= board.tickets@.len(),
            gathered(ts.take(i as int), main@, all, ks) == Ok::<(Seq<WriteModel>, nat), QuestionModel>(
                (models(writes@), updated as nat),
            ),
        decreases board.tickets@.len() - i,
    {
        let t: &Ticket = &board.tickets[i];
        proof {
            assert(ts.take(i + 1).drop_last() =~= ts.take(i as int));
            assert(ts.take(i + 1).last() == t@);
        }
        let found: Option<&Option<PrRef>> = match reply_about(answers, &t.id) {
            Some(Ok(pr)) => Some(pr),
            _ => None,
        };
        match poll(t, main, found, known) {
            PollStep::Ask(q) => {
                proof {
                    lemma_gathering_stops(ts, main@, all, ks, i + 1);
                }
                return PassStep::Ask(q);
            },
            PollStep::Apply(u) => {
                let mut more: Vec<Write> = u.writes(t);
                let ghost before = models(writes@);
                let ghost added = models(more@);
                writes.append(&mut more);
                assert(models(writes@) =~= before + added);
                updated = updated + 1;
            },
            _ => {},
        }
        i = i + 1;
    }
    assert(ts.take(ts.len() as int) =~= ts);
    PassStep::Done { writes, updated }
}

// ---- laws -----------------------------------------------------------------------------------------------------------

/// Some question was answered with a definite yes.
pub open spec fn any_yes(known: Seq<KnownModel>) -> bool {
    exists|i: int| 0 <= i < known.len() && (#[trigger] known[i]).answer == Some(true)
}

proof fn lemma_yes(known: Seq<KnownModel>, q: QuestionModel)
    requires
        answer(known, q) == Some(Some(true)),
    ensures
        any_yes(known),
    decreases known.len(),
{
    let before = known.drop_last();
    if answer(before, q) is Some {
        lemma_yes(before, q);
        let i = choose|i: int| 0 <= i < before.len() && (#[trigger] before[i]).answer == Some(true);
        assert(known[i].answer == Some(true));
    } else {
        assert(known[known.len() - 1].answer == Some(true));
    }
}

/// A landing takes positive proof: nothing lands unless git answered a question with a definite yes.
pub proof fn landing_takes_positive_proof(
    t: TicketModel,
    main: Text,
    heads: Seq<Text>,
    obs: Seq<(Text, Text)>,
    known: Seq<KnownModel>,
)
    requires
        !any_yes(known),
    ensures
        !(verdict_spec(t, main, heads, obs, known) is Land),
{
    if verdict_spec(t, main, heads, obs, known) is Land {
        match t.pr {
            Some(pr) => match pr.merged_commit {
                Some(oid) => {
                    if answer(known, QuestionModel::Ancestor(oid)) == Some(Some(true)) {
                        lemma_yes(known, QuestionModel::Ancestor(oid));
                    }
                },
                None => {},
            },
            None => {},
        }
        match t.column.branch() {
            Some(branch) => {
                if answer(known, QuestionModel::Ancestor(branch)) == Some(Some(true)) {
                    lemma_yes(known, QuestionModel::Ancestor(branch));
                }
                match observed(obs, branch) {
                    Some(tip) => {
                        if answer(known, QuestionModel::Ancestor(tip)) == Some(Some(true)) {
                            lemma_yes(known, QuestionModel::Ancestor(tip));
                        }
                        if answer(known, QuestionModel::Equivalent(tip)) == Some(Some(true)) {
                            lemma_yes(known, QuestionModel::Equivalent(tip));
                        }
                    },
                    None => {},
                }
            },
            None => {},
        }
    }
}

/// A ticket worked elsewhere never lands from local branch state: its verdict is that of its pull request alone, whatever
/// the local branches and observations are.
pub proof fn external_tickets_never_land_from_local_branches(
    t: TicketModel,
    main: Text,
    heads: Seq<Text>,
    obs: Seq<(Text, Text)>,
    known: Seq<KnownModel>,
)
    requires
        t.external is Some,
    ensures
        verdict_spec(t, main, heads, obs, known) == pr_verdict(t, main, known),
{
}

/// A branch that is neither alive nor was ever observed proves nothing.
pub proof fn a_vanished_branch_proves_nothing(
    t: TicketModel,
    main: Text,
    heads: Seq<Text>,
    obs: Seq<(Text, Text)>,
    known: Seq<KnownModel>,
)
    requires
        t.pr is None,
        t.column.branch() matches Some(b) ==> !heads.contains(b) && observed(obs, b) is None,
    ensures
        verdict_spec(t, main, heads, obs, known) == VerdictModel::Stay,
{
}

/// Every landing of a pass is that of a ticket in review, on the branch it is on.
pub proof fn only_review_tickets_are_swept(
    ts: Seq<TicketModel>,
    main: Text,
    heads: Seq<Text>,
    obs: Seq<(Text, Text)>,
    known: Seq<KnownModel>,
)
    ensures
        sweep_spec(ts, main, heads, obs, known) matches SweepModel::Done(ls) ==> forall|i: int|
            0 <= i < ls.len() ==> exists|k: int|
                0 <= k < ts.len() && (#[trigger] ts[k]).id == (#[trigger] ls[i]).id && ts[k].column.id() == ColumnId::Review
                    && ts[k].column.branch() == ls[i].branch,
    decreases ts.len(),
{
    if ts.len() > 0 {
        let before = ts.drop_last();
        only_review_tickets_are_swept(before, main, heads, obs, known);
        match (sweep_spec(before, main, heads, obs, known), sweep_spec(ts, main, heads, obs, known)) {
            (SweepModel::Done(old_ls), SweepModel::Done(ls)) => {
                assert forall|i: int| 0 <= i < ls.len() implies exists|k: int|
                    0 <= k < ts.len() && (#[trigger] ts[k]).id == (#[trigger] ls[i]).id && ts[k].column.id()
                        == ColumnId::Review && ts[k].column.branch() == ls[i].branch by {
                    if i < old_ls.len() {
                        assert(ls[i] == old_ls[i]);
                        let k = choose|k: int|
                            0 <= k < before.len() && (#[trigger] before[k]).id == old_ls[i].id && before[k].column.id()
                                == ColumnId::Review && before[k].column.branch() == old_ls[i].branch;
                        assert(ts[k].id == ls[i].id);
                    } else {
                        assert(ts[ts.len() - 1].id == ls[i].id);
                    }
                }
            },
            _ => {},
        }
    }
}

/// Merged on the far side is not done: while git has not said that the merge commit is in the local main branch, a lookup
/// that finds a merge lands nothing.
pub proof fn merged_is_not_done_until_pulled(t: TicketModel, main: Text, fresh: PrModel, known: Seq<KnownModel>)
    requires
        !any_yes(known),
    ensures
        poll_spec(t, main, Some(Some(fresh)), known) matches PollStepModel::Apply(u) ==> u.landing is None,
{
    match fresh.merged_commit {
        Some(oid) => {
            if answer(known, QuestionModel::Ancestor(oid)) == Some(Some(true)) {
                lemma_yes(known, QuestionModel::Ancestor(oid));
            }
        },
        None => {},
    }
}

/// Network trouble leaves the board untouched: as long as one lookup has failed, or is still owed, nothing is written,
/// whatever the others came to.
pub proof fn trouble_leaves_the_board_untouched(
    ts: Seq<TicketModel>,
    main: Text,
    answers: Seq<ReplyModel>,
    known: Seq<KnownModel>,
    k: int,
)
    requires
        0 <= k < ts.len(),
        lookup_of(ts[k]) is Some,
        !(reply(answers, ts[k].id) matches Some(Ok(_))),
    ensures
        pass_spec(ts, main, answers, known) matches PassStepModel::Done { writes, updated } ==> writes.len() == 0 && updated
            == 0,
        reply(answers, ts[k].id) matches Some(Err(_)) ==> pass_spec(ts, main, answers, known) is Done,
{
    if reply(answers, ts[k].id) is Some {
        lemma_reply(answers, ts[k].id);
    } else {
        lemma_still_owed(ts, answers, k);
    }
}

proof fn lemma_reply(answers: Seq<ReplyModel>, id: Text)
    requires
        reply(answers, id) is Some,
    ensures
        exists|i: int| 0 <= i < answers.len() && #[trigger] answers[i] == (id, reply(answers, id)->Some_0),
    decreases answers.len(),
{
    if answers[0].0 == id {
        assert(answers[0] == (id, reply(answers, id)->Some_0));
    } else {
        let rest = answers.subrange(1, answers.len() as int);
        lemma_reply(rest, id);
        let i = choose|i: int| 0 <= i < rest.len() && #[trigger] rest[i] == (id, reply(rest, id)->Some_0);
        assert(answers[i + 1] == rest[i]);
    }
}

proof fn lemma_still_owed(ts: Seq<TicketModel>, answers: Seq<ReplyModel>, k: int)
    requires
        0 <= k < ts.len(),
        lookup_of(ts[k]) is Some,
        reply(answers, ts[k].id) is None,
    ensures
        owed(ts, answers) is Some,
    decreases ts.len(),
{
    if k < ts.len() - 1 {
        lemma_still_owed(ts.drop_last(), answers, k);
    }
}

/// The pass comes to an end: what it looks up has no reply yet, and a question it asks git is one that was not answered.
pub proof fn the_pass_asks_for_what_it_lacks(ts: Seq<TicketModel>, main: Text, answers: Seq<ReplyModel>, known: Seq<KnownModel>)
    ensures
        match pass_spec(ts, main, answers, known) {
            PassStepModel::Look(id, _) => reply(answers, id) is None,
            PassStepModel::Ask(q) => answer(known, q) is None,
            PassStepModel::Done { .. } => true,
        },
{
    lemma_owed_is_open(ts, answers);
    lemma_gathering_asks(ts, main, answers, known);
}

proof fn lemma_owed_is_open(ts: Seq<TicketModel>, answers: Seq<ReplyModel>)
    ensures
        owed(ts, answers) matches Some(first) ==> reply(answers, first.0) is None,
    decreases ts.len(),
{
    if ts.len() > 0 {
        lemma_owed_is_open(ts.drop_last(), answers);
    }
}

proof fn lemma_gathering_asks(ts: Seq<TicketModel>, main: Text, answers: Seq<ReplyModel>, known: Seq<KnownModel>)
    ensures
        gathered(ts, main, answers, known) matches Err(q) ==> answer(known, q) is None,
    decreases ts.len(),
{
    if ts.len() > 0 {
        lemma_gathering_asks(ts.drop_last(), main, answers, known);
    }
}

/// The passes come to an end: a question they ask is one that was not answered yet.
pub proof fn questions_are_asked_once(
    t: TicketModel,
    main: Text,
    heads: Seq<Text>,
    obs: Seq<(Text, Text)>,
    known: Seq<KnownModel>,
)
    ensures
        verdict_spec(t, main, heads, obs, known) matches VerdictModel::Ask(q) ==> answer(known, q) is None,
{
}

/// A yes to `q` proves that the ticket's code has reached the main branch: `q` asks about the merge commit of its merged
/// pull request; or, for a ticket worked here, about its branch where that is alive, and about the tip last seen of it where it
/// is gone.
pub open spec fn would_prove(t: TicketModel, heads: Seq<Text>, obs: Seq<(Text, Text)>, q: QuestionModel) -> bool {
    let branch = t.column.branch()->0;
    let here = t.external is None && t.column.branch() is Some;
    let tip = observed(obs, branch)->0;
    ||| t.pr is Some && (t.pr->0).state == PrState::Merged && (t.pr->0).merged_commit is Some && q == QuestionModel::Ancestor(
        (t.pr->0).merged_commit->0,
    )
    ||| here && heads.contains(branch) && q == QuestionModel::Ancestor(branch)
    ||| here && !heads.contains(branch) && observed(obs, branch) is Some && (q == QuestionModel::Ancestor(tip) || q
        == QuestionModel::Equivalent(tip))
}

/// A ticket lands exactly when one of the proofs that apply to it is answered with a yes: whatever the others are answered,
/// once every one of them is, any yes lands it, and without a yes it stays. What is asked is always such a proof, not answered
/// yet.
pub proof fn any_proof_lands_the_ticket(
    t: TicketModel,
    main: Text,
    heads: Seq<Text>,
    obs: Seq<(Text, Text)>,
    known: Seq<KnownModel>,
)
    ensures
        ({
            let v = verdict_spec(t, main, heads, obs, known);
            let proved = exists|q: QuestionModel|
                #[trigger] would_prove(t, heads, obs, q) && answer(known, q) == Some(Some(true));
            let settled = forall|q: QuestionModel| #[trigger] would_prove(t, heads, obs, q) ==> answer(known, q) is Some;
            &&& v is Land ==> proved
            &&& v is Stay ==> settled && !proved
            &&& settled && proved ==> v is Land
            &&& settled && !proved ==> v is Stay
            &&& v matches VerdictModel::Ask(q) ==> would_prove(t, heads, obs, q) && answer(known, q) is None
        }),
{
    let v = verdict_spec(t, main, heads, obs, known);
    if let Some(pr) = t.pr {
        if let Some(oid) = pr.merged_commit {
            if pr.state == PrState::Merged {
                assert(would_prove(t, heads, obs, QuestionModel::Ancestor(oid)));
            }
        }
    }
    if t.external is None {
        if let Some(b) = t.column.branch() {
            if heads.contains(b) {
                assert(would_prove(t, heads, obs, QuestionModel::Ancestor(b)));
            } else if let Some(tip) = observed(obs, b) {
                assert(would_prove(t, heads, obs, QuestionModel::Ancestor(tip)));
                assert(would_prove(t, heads, obs, QuestionModel::Equivalent(tip)));
            }
        }
    }
}

/// The reason given for a landing names the proof: the merged branch, the branch that was deleted after landing or rebased,
/// or the pull request, and the branch it all reached. Proof by a live branch goes before any other, and proof by the tip of a
/// gone one before its patches, and these before the pull request.
pub proof fn a_landing_says_what_proved_it(
    t: TicketModel,
    main: Text,
    heads: Seq<Text>,
    obs: Seq<(Text, Text)>,
    known: Seq<KnownModel>,
)
    ensures
        ({
            let v = verdict_spec(t, main, heads, obs, known);
            let yes = |q: QuestionModel| answer(known, q) == Some(Some(true));
            let no = |q: QuestionModel| answer(known, q) is Some && answer(known, q) != Some(Some(true));
            let branch = t.column.branch()->0;
            let here = t.external is None && t.column.branch() is Some;
            let alive = here && heads.contains(branch);
            let gone = here && !heads.contains(branch) && observed(obs, branch) is Some;
            let tip = observed(obs, branch)->0;
            let merged = t.pr is Some && (t.pr->0).state == PrState::Merged && (t.pr->0).merged_commit is Some;
            let oid = (t.pr->0).merged_commit->0;
            let by_pr = VerdictModel::Land("PR #"@ + decimal((t.pr->0).number as nat) + " merged and pulled into "@ + main);
            &&& alive && yes(QuestionModel::Ancestor(branch)) ==> v == VerdictModel::Land(
                "branch "@ + branch + " merged into "@ + main,
            )
            &&& gone && yes(QuestionModel::Ancestor(tip)) ==> v == VerdictModel::Land(
                "branch "@ + branch + " deleted after landing in "@ + main,
            )
            &&& gone && no(QuestionModel::Ancestor(tip)) && yes(QuestionModel::Equivalent(tip)) ==> v == VerdictModel::Land(
                "branch "@ + branch + " rebased into "@ + main + " and deleted"@,
            )
            &&& merged && yes(QuestionModel::Ancestor(oid)) && alive && no(QuestionModel::Ancestor(branch)) ==> v == by_pr
            &&& merged && yes(QuestionModel::Ancestor(oid)) && gone && no(QuestionModel::Ancestor(tip)) && no(
                QuestionModel::Equivalent(tip),
            ) ==> v == by_pr
            &&& merged && yes(QuestionModel::Ancestor(oid)) && !alive && !gone ==> v == by_pr
        }),
{
}

/// What was answered first to a question is the answer: further answers, to it or to others, do not change it, and one that
/// is first asked now is answered by what is added.
pub proof fn the_first_answer_counts(known: Seq<KnownModel>, more: KnownModel, q: QuestionModel)
    ensures
        answer(known, q) is Some ==> answer(known.push(more), q) == answer(known, q),
        answer(known, q) is None && more.question == q ==> answer(known.push(more), q) == Some(more.answer),
        answer(known, q) is None && more.question != q ==> answer(known.push(more), q) is None,
        answer(Seq::<KnownModel>::empty(), q) is None,
{
    assert(known.push(more).drop_last() =~= known);
}

/// What was seen of a branch is what the first observation of it says.
pub proof fn the_first_observation_counts(obs: Seq<(Text, Text)>, seen: (Text, Text), branch: Text)
    ensures
        seen.0 == branch ==> observed(seq![seen] + obs, branch) == Some(seen.1),
        seen.0 != branch ==> observed(seq![seen] + obs, branch) == observed(obs, branch),
        observed(Seq::<(Text, Text)>::empty(), branch) is None,
{
    let all = seq![seen] + obs;
    assert(all.subrange(1, all.len() as int) =~= obs);
    assert(all[0] == seen);
}

proof fn lemma_swept_tickets(
    ts: Seq<TicketModel>,
    main: Text,
    heads: Seq<Text>,
    obs: Seq<(Text, Text)>,
    known: Seq<KnownModel>,
)
    ensures
        (forall|k: int|
            0 <= k < ts.len() && (#[trigger] ts[k]).column is Review ==> !(verdict_spec(ts[k], main, heads, obs, known) is Ask))
            ==> sweep_spec(ts, main, heads, obs, known) == SweepModel::Done(
            ts.filter(
                |t: TicketModel| t.column is Review && verdict_spec(t, main, heads, obs, known) is Land,
            ).map_values(
                |t: TicketModel|
                    LandingModel {
                        id: t.id,
                        branch: t.column.branch(),
                        reason: verdict_spec(t, main, heads, obs, known)->Land_0,
                    },
            ),
        ),
        sweep_spec(ts, main, heads, obs, known) is Done ==> forall|k: int|
            0 <= k < ts.len() && (#[trigger] ts[k]).column is Review ==> !(verdict_spec(ts[k], main, heads, obs, known) is Ask),
    decreases ts.len(),
{
    reveal(Seq::filter);
    let proven = |t: TicketModel| t.column is Review && verdict_spec(t, main, heads, obs, known) is Land;
    let landing = |t: TicketModel|
        LandingModel { id: t.id, branch: t.column.branch(), reason: verdict_spec(t, main, heads, obs, known)->Land_0 };
    if ts.len() > 0 {
        let front = ts.drop_last();
        lemma_swept_tickets(front, main, heads, obs, known);
        assert(forall|k: int| 0 <= k < front.len() ==> #[trigger] front[k] == ts[k]);
        if forall|k: int|
            0 <= k < ts.len() && (#[trigger] ts[k]).column is Review ==> !(verdict_spec(ts[k], main, heads, obs, known) is Ask) {
            assert forall|k: int| 0 <= k < front.len() && (#[trigger] front[k]).column is Review implies !(verdict_spec(
                front[k],
                main,
                heads,
                obs,
                known,
            ) is Ask) by {
                assert(front[k] == ts[k]);
            }
            assert(ts[ts.len() - 1] == ts.last());
            let before = front.filter(proven);
            if proven(ts.last()) {
                assert(before.push(ts.last()).map_values(landing) =~= before.map_values(landing).push(landing(ts.last())));
            }
        }
        if sweep_spec(ts, main, heads, obs, known) is Done {
            assert forall|k: int| 0 <= k < ts.len() && (#[trigger] ts[k]).column is Review implies !(verdict_spec(
                ts[k],
                main,
                heads,
                obs,
                known,
            ) is Ask) by {
                if k < front.len() {
                    assert(front[k] == ts[k]);
                }
            }
        }
    } else {
        assert(ts.filter(proven).map_values(landing) =~= Seq::<LandingModel>::empty());
    }
}

/// A pass lands exactly the review tickets with proof: once every proof that applies to a review ticket is answered, the pass
/// is done, and each review ticket is among the landings, under its id and on its branch, if and only if one of its proofs was
/// answered with a yes.
pub proof fn a_pass_lands_exactly_the_proven(
    ts: Seq<TicketModel>,
    main: Text,
    heads: Seq<Text>,
    obs: Seq<(Text, Text)>,
    known: Seq<KnownModel>,
)
    requires
        crate::store::model::ticket_ids(ts).no_duplicates(),
    ensures
        (forall|k: int, q: QuestionModel|
            0 <= k < ts.len() && ts[k].column is Review && #[trigger] would_prove(ts[k], heads, obs, q) ==> answer(known, q)
                is Some) ==> sweep_spec(ts, main, heads, obs, known) is Done,
        sweep_spec(ts, main, heads, obs, known) matches SweepModel::Done(ls) ==> forall|k: int|
            0 <= k < ts.len() && (#[trigger] ts[k]).column is Review ==> {
                let proved = exists|q: QuestionModel|
                    #[trigger] would_prove(ts[k], heads, obs, q) && answer(known, q) == Some(Some(true));
                let landed = exists|i: int|
                    0 <= i < ls.len() && (#[trigger] ls[i]).id == ts[k].id && ls[i].branch == ts[k].column.branch();
                proved == landed
            },
{
    lemma_swept_tickets(ts, main, heads, obs, known);
    if forall|k: int, q: QuestionModel|
        0 <= k < ts.len() && ts[k].column is Review && #[trigger] would_prove(ts[k], heads, obs, q) ==> answer(known, q) is Some {
        assert forall|k: int| 0 <= k < ts.len() && (#[trigger] ts[k]).column is Review implies !(verdict_spec(
            ts[k],
            main,
            heads,
            obs,
            known,
        ) is Ask) by {
            any_proof_lands_the_ticket(ts[k], main, heads, obs, known);
        }
    }
    if let SweepModel::Done(ls) = sweep_spec(ts, main, heads, obs, known) {
        let proven = |t: TicketModel| t.column is Review && verdict_spec(t, main, heads, obs, known) is Land;
        let landing = |t: TicketModel|
            LandingModel { id: t.id, branch: t.column.branch(), reason: verdict_spec(t, main, heads, obs, known)->Land_0 };
        let kept = ts.filter(proven);
        assert(ls == kept.map_values(landing));
        assert forall|k: int| 0 <= k < ts.len() && (#[trigger] ts[k]).column is Review implies {
            let proved = exists|q: QuestionModel|
                #[trigger] would_prove(ts[k], heads, obs, q) && answer(known, q) == Some(Some(true));
            let landed = exists|i: int|
                0 <= i < ls.len() && (#[trigger] ls[i]).id == ts[k].id && ls[i].branch == ts[k].column.branch();
            proved == landed
        } by {
            any_proof_lands_the_ticket(ts[k], main, heads, obs, known);
            if verdict_spec(ts[k], main, heads, obs, known) is Land {
                assert(proven(ts[k]));
                ts.lemma_filter_contains(proven, k);
                let i = choose|i: int| 0 <= i < kept.len() && kept[i] == ts[k];
                assert(ls[i] == landing(ts[k]));
            }
            if exists|i: int|
                0 <= i < ls.len() && (#[trigger] ls[i]).id == ts[k].id && ls[i].branch == ts[k].column.branch() {
                let i = choose|i: int|
                    0 <= i < ls.len() && (#[trigger] ls[i]).id == ts[k].id && ls[i].branch == ts[k].column.branch();
                assert(ls[i] == landing(kept[i]));
                ts.lemma_filter_pred(proven, i);
                lemma_kept_from(ts, proven, i);
                let j = choose|j: int| 0 <= j < ts.len() && ts[j] == kept[i];
                assert(crate::store::model::ticket_ids(ts)[j] == crate::store::model::ticket_ids(ts)[k]);
            }
        }
    }
}

proof fn lemma_kept_from(ts: Seq<TicketModel>, keep: spec_fn(TicketModel) -> bool, i: int)
    requires
        0 <= i < ts.filter(keep).len(),
    ensures
        exists|j: int| 0 <= j < ts.len() && ts[j] == ts.filter(keep)[i],
    decreases ts.len(),
{
    reveal(Seq::filter);
    if ts.len() > 0 {
        let front = ts.drop_last();
        if i < front.filter(keep).len() {
            lemma_kept_from(front, keep, i);
            let j = choose|j: int| 0 <= j < front.len() && front[j] == front.filter(keep)[i];
            assert(ts[j] == ts.filter(keep)[i]);
        } else {
            assert(ts[ts.len() - 1] == ts.filter(keep)[i]);
        }
    }
}

/// What is remembered of the branches after a pass: of a branch under review that is alive, the tip just seen; of one that is
/// gone, or whose tip could not be read, what was remembered of it; and nothing of a branch that is no longer under review.
pub proof fn tips_are_remembered_while_under_review(
    ts: Seq<TicketModel>,
    heads: Seq<Text>,
    obs: Seq<(Text, Text)>,
    tips: Seq<(Text, Text)>,
    branch: Text,
)
    ensures
        ({
            let under_review = exists|i: int|
                0 <= i < ts.len() && (#[trigger] ts[i]).column == (ColumnModel::Review { branch: Some(branch) })
                    && ts[i].external is None;
            let kept = remembered(ts, heads, obs, tips, branch);
            &&& !under_review ==> kept is None
            &&& under_review && heads.contains(branch) && observed(tips, branch) is Some ==> kept == observed(tips, branch)
            &&& under_review && heads.contains(branch) && observed(tips, branch) is None ==> kept == observed(obs, branch)
            &&& under_review && !heads.contains(branch) ==> kept == observed(obs, branch)
        }),
{
    if exists|i: int|
        0 <= i < ts.len() && (#[trigger] ts[i]).column == (ColumnModel::Review { branch: Some(branch) }) && ts[i].external
            is None {
        let i = choose|i: int|
            0 <= i < ts.len() && (#[trigger] ts[i]).column == (ColumnModel::Review { branch: Some(branch) }) && ts[i].external
                is None;
        assert(watched(ts[i]) == Some(branch));
    }
}

/// Exactly the review tickets whose request is not merged yet are looked up: by the number of the request where one is
/// recorded, and else by branch, where there is one.
pub proof fn unmerged_reviews_are_looked_up(t: TicketModel, main: Text, known: Seq<KnownModel>)
    ensures
        match poll_spec(t, main, None, known) {
            PollStepModel::Look(LookupModel::Number(n)) => t.column is Review && t.pr is Some && (t.pr->0).number == n && (
            t.pr->0).state != PrState::Merged,
            PollStepModel::Look(LookupModel::Branch(b)) => t.column == (ColumnModel::Review { branch: Some(b) }) && t.pr is None,
            PollStepModel::Skip => !(t.column is Review) || (t.pr is Some && (t.pr->0).state == PrState::Merged) || (t.pr is None
                && t.column.branch() is None),
            _ => false,
        },
{
}

/// A request that is looked up is recorded as it was found, whenever that differs from what is recorded; a closing is noted
/// when it is new; and the ticket lands, on its branch, when the merge commit is in the local main branch. Nothing else is
/// written, and nothing at all where there is no request or no news. Only a merged request needs git's word first.
pub proof fn news_of_a_request_is_recorded(t: TicketModel, main: Text, fresh: PrModel, known: Seq<KnownModel>)
    requires
        poll_spec(t, main, None, known) is Look,
    ensures
        poll_spec(t, main, Some(None), known) is Skip,
        ({
            let step = poll_spec(t, main, Some(Some(fresh)), known);
            let oid = fresh.merged_commit->0;
            let merged = fresh.state == PrState::Merged && fresh.merged_commit is Some;
            let pulled = merged && answer(known, QuestionModel::Ancestor(oid)) == Some(Some(true));
            let closing = fresh.state == PrState::Closed && !(t.pr is Some && (t.pr->0).state == PrState::Closed);
            &&& t.pr == Some(fresh) <==> step is Skip
            &&& step matches PollStepModel::Ask(q) ==> merged && q == QuestionModel::Ancestor(oid) && answer(known, q) is None
            &&& t.pr != Some(fresh) && !(merged && answer(known, QuestionModel::Ancestor(oid)) is None) ==> step is Apply
            &&& step matches PollStepModel::Apply(u) ==> {
                let ws = writes_of(t, u);
                let request = WriteModel::Request { id: t.id, pr: fresh };
                let note = WriteModel::Note {
                    id: t.id,
                    text: "PR #"@ + decimal(fresh.number as nat)
                        + " was closed without merging — rework the ticket, or discard it"@,
                };
                let landing = WriteModel::Land {
                    id: t.id,
                    branch: t.column.branch(),
                    reason: "PR #"@ + decimal(fresh.number as nat) + " merged and pulled into "@ + main,
                };
                &&& closing ==> ws == seq![request, note]
                &&& pulled ==> ws == seq![request, landing]
                &&& !closing && !pulled ==> ws == seq![request]
            }
        }),
{
    let step = poll_spec(t, main, Some(Some(fresh)), known);
    if let PollStepModel::Apply(u) = step {
        let request = WriteModel::Request { id: t.id, pr: fresh };
        assert(Seq::<WriteModel>::empty().push(request) =~= seq![request]);
        assert forall|w: WriteModel| #[trigger] seq![request].push(w) =~= seq![request, w] by {}
    }
}

/// What a pass writes is what each ticket takes by itself, ticket by ticket in board order, and it counts the tickets that
/// take something.
pub proof fn a_pass_writes_for_every_ticket(ts: Seq<TicketModel>, main: Text, answers: Seq<ReplyModel>, known: Seq<KnownModel>)
    ensures
        gathered(ts, main, answers, known) matches Ok(all) ==> {
            let step = |t: TicketModel| poll_spec(t, main, looked_up(answers, t.id), known);
            &&& all.1 == ts.filter(|t: TicketModel| step(t) is Apply).len()
            &&& all.0 == ts.fold_left(
                Seq::<WriteModel>::empty(),
                |before: Seq<WriteModel>, t: TicketModel|
                    match step(t) {
                        PollStepModel::Apply(u) => before + writes_of(t, u),
                        _ => before,
                    },
            )
        },
    decreases ts.len(),
{
    reveal(Seq::filter);
    reveal(Seq::fold_left);
    if ts.len() > 0 {
        a_pass_writes_for_every_ticket(ts.drop_last(), main, answers, known);
    }
}

/// A ticket's reply is the first that came back for it.
pub proof fn the_first_reply_counts(answers: Seq<ReplyModel>, r: ReplyModel, id: Text)
    ensures
        r.0 == id ==> reply(seq![r] + answers, id) == Some(r.1),
        r.0 != id ==> reply(seq![r] + answers, id) == reply(answers, id),
        reply(Seq::<ReplyModel>::empty(), id) is None,
{
    let all = seq![r] + answers;
    assert(all.subrange(1, all.len() as int) =~= answers);
    assert(all[0] == r);
}

/// What gh answers is read field by field: of a list its first request, of an object the request itself. A request without a
/// number, or in a state that is none, is no request.
pub proof fn a_reply_is_read_field_by_field(j: JsonModel, list: Seq<JsonModel>)
    ensures
        list.len() == 0 ==> pr_in(JsonModel::Array(list)) is None,
        list.len() > 0 ==> pr_in(JsonModel::Array(list)) == pr_of(list[0]),
        !(j is Array) ==> pr_in(j) == pr_of(j),
        ({
            let said = string(member(j, "state"@));
            let n = number(member(j, "number"@));
            let low = ascii_lowered(said->0);
            &&& pr_of(j) is Some <==> said is Some && n is Some && (low == "open"@ || low == "merged"@ || low == "closed"@)
            &&& pr_of(j) matches Some(pr) ==> {
                &&& Some(pr.number) == n && pr.url == text_of(member(j, "url"@))
                &&& pr.merged_commit == string(member(member(j, "mergeCommit"@), "oid"@))
                &&& pr.state == PrState::Open <==> low == "open"@
                &&& pr.state == PrState::Merged <==> low == "merged"@
                &&& pr.state == PrState::Closed <==> low == "closed"@
            }
        }),
{
    reveal_strlit("open");
    reveal_strlit("merged");
    reveal_strlit("closed");
    assert("open"@.len() == 4 && "merged"@[0] == 'm' && "closed"@[0] == 'c' && "merged"@.len() == 6);
}

/// A ticket has a lookup, and nothing came back of it yet.
pub open spec fn unanswered(t: TicketModel, answers: Seq<ReplyModel>) -> bool {
    lookup_of(t) is Some && reply(answers, t.id) is None
}

/// The lookup that is owed is that of the first ticket of which nothing came back yet; where there is none, nothing is owed.
pub proof fn the_first_lookup_is_owed(ts: Seq<TicketModel>, answers: Seq<ReplyModel>, i: int)
    requires
        0 <= i <= ts.len(),
        i < ts.len() ==> unanswered(ts[i], answers),
        forall|k: int| 0 <= k < i ==> !unanswered(#[trigger] ts[k], answers),
    ensures
        i < ts.len() ==> owed(ts, answers) == Some((ts[i].id, lookup_of(ts[i])->0)),
        i == ts.len() ==> owed(ts, answers) is None,
    decreases ts.len(),
{
    if ts.len() > 0 {
        let before = ts.drop_last();
        let last = ts.len() - 1;
        assert(ts.last() == ts[last]);
        let j = if i < before.len() {
            i
        } else {
            before.len() as int
        };
        assert forall|k: int| 0 <= k < j implies !unanswered(#[trigger] before[k], answers) by {
            assert(before[k] == ts[k]);
        }
        if j < before.len() {
            assert(before[j] == ts[j]);
        }
        the_first_lookup_is_owed(before, answers, j);
        if i == ts.len() {
            assert(!unanswered(ts[last], answers));
        }
    }
}

} // verus!
