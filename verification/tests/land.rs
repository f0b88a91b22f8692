use claude_kanban::land::{
    land, live_watched, lookup, poll, poll_pass, refresh_observations, sweep, verdict, Known, Lookup, Observation, PassStep,
    PollStep, Question, Reply, Sweep, Verdict,
};
use claude_kanban::name::assistant;
use claude_kanban::ops::{apply, Op, OpError};
use claude_kanban::store::derive::{blocked, next_ticket};
use claude_kanban::store::model::{Column, ColumnId, External, PrRef, PrState, Status, Ticket, TicketId};
use claude_kanban::store::validate::validate;
use claude_kanban::store::Store;
use claude_kanban::writes::Write;

/// What a repository would answer: its local branches, and what has reached main.
struct Repo {
    heads: Vec<String>,
    merged: Vec<&'static str>,
    equivalent: Vec<&'static str>,
}

fn repo(heads: &[&str]) -> Repo {
    Repo { heads: heads.iter().map(|h| h.to_string()).collect(), merged: vec![], equivalent: vec![] }
}

impl Repo {
    fn answer(&self, q: &Question) -> Option<bool> {
        match q {
            Question::Ancestor(rev) => Some(self.merged.contains(&rev.as_str())),
            Question::Equivalent(rev) => Some(self.equivalent.contains(&rev.as_str())),
        }
    }
}

fn create(store: &mut Store, title: &str, depends_on: Vec<TicketId>) -> TicketId {
    let op = Op::CreateTicket {
        title: title.into(),
        body: String::new(),
        epic: None,
        labels: vec![],
        depends_on,
        status: Status::Ready,
        model: None,
        effort: None,
        auto_merge: false,
    };
    TicketId(apply(store, None, op).unwrap().created_ids[0].clone())
}

fn k(n: u32) -> TicketId {
    TicketId(format!("K-{n}"))
}

/// A board holding K-1 in review on branch `k-1/work`.
fn scratch() -> Store {
    let mut store = Store::at(".kanban");
    store.init().unwrap();
    let id = create(&mut store, "the work", vec![]);
    apply(&mut store, None, Op::Claim { id: id.clone(), agent: assistant() }).unwrap();
    let stamp = Op::StampWorktree { id: id.clone(), branch: "k-1/work".into(), path: "/tmp/unused".into() };
    apply(&mut store, None, stamp).unwrap();
    apply(&mut store, None, Op::MoveTicket { id, to: ColumnId::Review, position: None, owner: None, branch: None }).unwrap();
    store
}

/// One pass: ask until everything is known, land, and refresh the observations from the tips given.
fn pass(store: &mut Store, repo: &Repo, observations: &mut Vec<Observation>, tip: &str) -> usize {
    let board = store.read_board().unwrap();
    let mut known = vec![];
    let landings = loop {
        match sweep(&board, "main", &repo.heads, observations, &known) {
            Sweep::Ask(question) => {
                let answer = repo.answer(&question);
                known.push(Known { question, answer });
            }
            Sweep::Done(landings) => break landings,
        }
    };
    let mut landed = 0;
    for l in landings {
        if land(store, l) {
            landed += 1;
        }
    }
    let board = store.read_board().unwrap();
    let tips: Vec<Observation> = live_watched(&board, &repo.heads)
        .into_iter()
        .map(|branch| Observation { branch, tip: tip.into() })
        .collect();
    let (fresh, _) = refresh_observations(&board, &repo.heads, observations, &tips);
    *observations = fresh;
    landed
}

fn column_of(store: &Store, id: &TicketId) -> Column {
    store.read_board().unwrap().ticket(id).unwrap().column.clone()
}

#[test]
fn an_unmerged_branch_stays_in_review() {
    let mut store = scratch();
    assert_eq!(pass(&mut store, &repo(&["main", "k-1/work"]), &mut vec![], "t1"), 0);
    assert!(matches!(column_of(&store, &k(1)), Column::Review { .. }));
}

#[test]
fn a_branch_merged_into_main_lands_and_unblocks_its_dependents() {
    let mut store = scratch();
    create(&mut store, "dependent", vec![k(1)]);
    let mut repo = repo(&["main", "k-1/work"]);
    repo.merged.push("k-1/work");
    assert_eq!(pass(&mut store, &repo, &mut vec![], "t1"), 1);
    let board = store.read_board().unwrap();
    let k1 = board.ticket(&k(1)).unwrap();
    assert!(matches!(k1.column, Column::Done { discarded: false, .. }));
    assert!(k1.notes.last().unwrap().text.contains("merged into main"), "{:?}", k1.notes);
    assert_eq!(next_ticket(&board, &[]).unwrap().id.0, "K-2", "the dependent unblocked");
    assert_eq!(pass(&mut store, &repo, &mut vec![], "t1"), 0, "a second sweep finds nothing to do");
}

#[test]
fn the_merge_sh_flow_lands_via_the_observed_tip() {
    let mut store = scratch();
    let mut seen = vec![];
    assert_eq!(pass(&mut store, &repo(&["main", "k-1/work"]), &mut seen, "t1"), 0, "first sweep observes the live branch tip");
    assert_eq!(seen, vec![Observation { branch: "k-1/work".into(), tip: "t1".into() }]);

    let mut after = repo(&["main"]);
    after.equivalent.push("t1");
    assert_eq!(pass(&mut store, &after, &mut seen, "unused"), 1);
    let board = store.read_board().unwrap();
    let k1 = board.ticket(&k(1)).unwrap();
    assert!(matches!(k1.column, Column::Done { discarded: false, .. }));
    assert!(k1.notes.last().unwrap().text.contains("rebased into main"), "{:?}", k1.notes);
    assert!(seen.is_empty(), "the landed ticket's observation retires with it");
}

#[test]
fn a_deleted_branch_whose_tip_is_in_main_lands() {
    let mut store = scratch();
    let mut seen = vec![Observation { branch: "k-1/work".into(), tip: "t1".into() }];
    let mut after = repo(&["main"]);
    after.merged.push("t1");
    assert_eq!(pass(&mut store, &after, &mut seen, "unused"), 1);
    let note = store.read_board().unwrap().ticket(&k(1)).unwrap().notes.last().unwrap().text.clone();
    assert_eq!(note, "branch k-1/work deleted after landing in main");
}

#[test]
fn a_vanished_branch_without_proof_stays_in_review() {
    let mut store = scratch();
    assert_eq!(pass(&mut store, &repo(&["main"]), &mut vec![], "unused"), 0);
    assert!(matches!(column_of(&store, &k(1)), Column::Review { .. }));
}

#[test]
fn an_observed_but_discarded_branch_still_stays_in_review() {
    let mut store = scratch();
    let mut seen = vec![];
    assert_eq!(pass(&mut store, &repo(&["main", "k-1/work"]), &mut seen, "t1"), 0);
    assert_eq!(pass(&mut store, &repo(&["main"]), &mut seen, "unused"), 0);
    assert!(matches!(column_of(&store, &k(1)), Column::Review { .. }));
    assert_eq!(seen.len(), 1, "an unproven observation is kept");
}

#[test]
fn external_tickets_never_land_from_local_branch_state() {
    let mut store = scratch();
    apply(&mut store, None, Op::BindExternal { id: k(1), external: Some(External::github_issue(42)) }).unwrap();
    let op = Op::MoveTicket {
        id: k(1),
        to: ColumnId::Review,
        position: None,
        owner: None,
        branch: Some("myrepo-issue0042".into()),
    };
    apply(&mut store, None, op).unwrap();
    let mut all = repo(&["main", "myrepo-issue0042"]);
    all.merged.push("myrepo-issue0042");
    assert_eq!(pass(&mut store, &all, &mut vec![], "t1"), 0);
    assert!(matches!(column_of(&store, &k(1)), Column::Review { .. }));
}

fn merged_pr(oid: &str) -> PrRef {
    PrRef {
        number: 12,
        url: "https://example.invalid/pull/12".into(),
        state: PrState::Merged,
        merged_commit: Some(oid.into()),
    }
}

#[test]
fn a_merged_pr_lands_only_once_its_commit_reaches_local_main() {
    let mut store = scratch();
    apply(&mut store, None, Op::SetPr { id: k(1), pr: Some(merged_pr(&"0".repeat(40))) }).unwrap();
    let mut local = repo(&["main", "k-1/work"]);
    assert_eq!(pass(&mut store, &local, &mut vec![], "t1"), 0, "merged on GitHub is not done — local main hasn't got it");
    assert!(matches!(column_of(&store, &k(1)), Column::Review { .. }));

    apply(&mut store, None, Op::SetPr { id: k(1), pr: Some(merged_pr("abc123")) }).unwrap();
    local.merged.push("abc123");
    assert_eq!(pass(&mut store, &local, &mut vec![], "t1"), 1);
    let board = store.read_board().unwrap();
    let k1 = board.ticket(&k(1)).unwrap();
    assert!(matches!(k1.column, Column::Done { discarded: false, .. }));
    assert!(k1.notes.last().unwrap().text.contains("PR #12 merged and pulled"), "{:?}", k1.notes);
}

#[test]
fn a_rework_claim_retargets_the_evidence_and_the_sweep_respects_it() {
    let mut store = scratch();
    apply(&mut store, None, Op::Claim { id: k(1), agent: assistant() }).unwrap();
    let mut local = repo(&["main", "k-1/work"]);
    local.merged.push("k-1/work");
    assert_eq!(pass(&mut store, &local, &mut vec![], "t1"), 0);
    assert!(matches!(column_of(&store, &k(1)), Column::Doing { .. }));
}

#[test]
fn dependents_of_a_discarded_ticket_stay_blocked_through_sweeps() {
    let mut store = scratch();
    create(&mut store, "dependent", vec![k(1)]);
    apply(&mut store, None, Op::DiscardTicket { id: k(1), reason: "abandoned".into() }).unwrap();
    let mut local = repo(&["main", "k-1/work"]);
    local.merged.push("k-1/work");
    assert_eq!(pass(&mut store, &local, &mut vec![], "t1"), 0);
    let board = store.read_board().unwrap();
    assert!(blocked(board.ticket(&k(2)).unwrap(), &board));
}

#[test]
fn an_unanswerable_question_proves_nothing_and_stops_nothing() {
    let store = scratch();
    let board = store.read_board().unwrap();
    let known = vec![Known { question: Question::Ancestor("k-1/work".into()), answer: None }];
    let heads = vec!["k-1/work".to_string()];
    assert!(matches!(sweep(&board, "main", &heads, &vec![], &known), Sweep::Done(l) if l.is_empty()));
    assert!(matches!(verdict(&board.tickets[0], "main", &heads, &vec![], &known), Verdict::Stay));
    assert!(matches!(verdict(&board.tickets[0], "main", &heads, &vec![], &vec![]),
        Verdict::Ask(Question::Ancestor(rev)) if rev == "k-1/work"));
}

#[test]
fn a_landing_is_refused_where_the_ticket_moved_on() {
    let mut store = scratch();
    let board = store.read_board().unwrap();
    let known = vec![Known { question: Question::Ancestor("k-1/work".into()), answer: Some(true) }];
    let landings = match sweep(&board, "main", &vec!["k-1/work".into()], &vec![], &known) {
        Sweep::Done(l) => l,
        other => panic!("{other:?}"),
    };
    apply(&mut store, None, Op::Claim { id: k(1), agent: assistant() }).unwrap();
    for l in landings {
        assert!(!land(&mut store, l));
    }
    assert!(matches!(column_of(&store, &k(1)), Column::Doing { .. }));
}

#[test]
fn observations_change_only_when_a_tip_does() {
    let store = scratch();
    let board = store.read_board().unwrap();
    let heads = vec!["k-1/work".to_string()];
    let seen = vec![
        Observation { branch: "k-1/work".into(), tip: "t1".into() },
        Observation { branch: "k-9/gone".into(), tip: "t9".into() },
    ];
    let tips = vec![Observation { branch: "k-1/work".into(), tip: "t1".into() }];
    let (kept, changed) = refresh_observations(&board, &heads, &seen, &tips);
    assert!(changed, "a branch that nobody refers to is forgotten");
    assert_eq!(kept, tips);
    let (kept, changed) = refresh_observations(&board, &heads, &kept, &tips);
    assert!(!changed);
    let moved = vec![Observation { branch: "k-1/work".into(), tip: "t2".into() }];
    let (kept, changed) = refresh_observations(&board, &heads, &kept, &moved);
    assert!(changed);
    assert_eq!(kept, moved);
    let (kept, changed) = refresh_observations(&board, &vec![], &kept, &vec![]);
    assert!(!changed, "a branch that is gone keeps its last tip");
    assert_eq!(kept, moved);
}

fn reviewed() -> Ticket {
    scratch().read_board().unwrap().tickets[0].clone()
}

#[test]
fn gh_answers_are_shaped_whether_object_or_array() {
    let object = r#"{"number":12,"url":"https://x/pull/12","state":"MERGED","mergeCommit":{"oid":"abc"}}"#;
    let pr = lookup(object).unwrap().unwrap();
    assert_eq!((pr.number, pr.url.as_str(), pr.state), (12, "https://x/pull/12", PrState::Merged));
    assert_eq!(pr.merged_commit.as_deref(), Some("abc"));
    let array = r#"[{"number":3,"url":"u","state":"OPEN","mergeCommit":null}]"#;
    let pr = lookup(array).unwrap().unwrap();
    assert_eq!((pr.number, pr.state, pr.merged_commit), (3, PrState::Open, None));
    assert_eq!(lookup("[]").unwrap(), None);
    assert_eq!(lookup(r#"{"number":3,"state":"weird"}"#).unwrap(), None);
    assert_eq!(lookup(r#"{"state":"open"}"#).unwrap(), None);
    let err = lookup("nonsense").unwrap_err();
    assert!(err.starts_with("unexpected gh output: ") && err.ends_with(": nonsense"), "{err}");
}

#[test]
fn the_poll_looks_up_records_notes_and_lands() {
    let mut t = reviewed();
    assert!(matches!(poll(&t, "main", None, &vec![]), PollStep::Look(Lookup::Branch(b)) if b == "k-1/work"));
    let by_branch = Lookup::Branch("k-1/work".into()).invocation("/repo");
    assert_eq!(
        by_branch.args.join(" "),
        "pr list --head k-1/work --state all --limit 1 --json number,url,state,mergeCommit"
    );
    assert!(by_branch.silenced && by_branch.program == "gh");
    assert!(matches!(poll(&t, "main", Some(&None), &vec![]), PollStep::Skip));

    let open = PrRef { number: 7, url: "u".into(), state: PrState::Open, merged_commit: None };
    match poll(&t, "main", Some(&Some(open.clone())), &vec![]) {
        PollStep::Apply(u) => {
            assert!(u.note.is_none() && u.landing.is_none());
            assert_eq!(u.writes(&t).len(), 1);
        }
        other => panic!("{other:?}"),
    }
    t.pr = Some(open.clone());
    assert!(matches!(poll(&t, "main", None, &vec![]), PollStep::Look(Lookup::Number(7))));
    assert_eq!(Lookup::Number(7).invocation("/r").args.join(" "), "pr view 7 --json number,url,state,mergeCommit");
    assert!(matches!(poll(&t, "main", Some(&Some(open)), &vec![]), PollStep::Skip), "nothing new");

    let closed = PrRef { number: 7, url: "u".into(), state: PrState::Closed, merged_commit: None };
    match poll(&t, "main", Some(&Some(closed)), &vec![]) {
        PollStep::Apply(u) => {
            assert_eq!(
                u.note.as_deref(),
                Some("PR #7 was closed without merging — rework the ticket, or discard it")
            );
            let writes = u.writes(&t);
            assert!(matches!(writes[1].op(), Op::AddNote { author: Some(a), .. } if a == "kanban"));
        }
        other => panic!("{other:?}"),
    }

    let merged = Some(merged_pr("abc"));
    assert!(matches!(poll(&t, "main", Some(&merged), &vec![]), PollStep::Ask(Question::Ancestor(oid)) if oid == "abc"));
    let not_yet = vec![Known { question: Question::Ancestor("abc".into()), answer: Some(false) }];
    assert!(matches!(poll(&t, "main", Some(&merged), &not_yet), PollStep::Apply(u) if u.landing.is_none()));
    let pulled = vec![Known { question: Question::Ancestor("abc".into()), answer: Some(true) }];
    match poll(&t, "main", Some(&merged), &pulled) {
        PollStep::Apply(u) => {
            assert_eq!(u.landing.as_deref(), Some("PR #12 merged and pulled into main"));
            let op = u.writes(&t).last().unwrap().op();
            assert!(matches!(op, Op::LandTicket { expected_branch: Some(b), .. } if b == "k-1/work"));
        }
        other => panic!("{other:?}"),
    }
    t.pr = merged;
    assert!(matches!(poll(&t, "main", None, &vec![]), PollStep::Skip), "merged is the sweep's business");
    t.pr = None;
    t.column = Column::Todo;
    assert!(matches!(poll(&t, "main", None, &vec![]), PollStep::Skip));
}

#[test]
fn questions_become_git_calls() {
    let q = Question::Ancestor("abc".into());
    assert_eq!(q.invocation("/r", "main").args.join(" "), "merge-base --is-ancestor abc main");
    let q = Question::Equivalent("abc".into());
    assert_eq!(q.invocation("/r", "main").args.join(" "), "cherry main abc");
}

/// A board holding K-1 and K-2 in review.
fn two_in_review() -> Store {
    let mut store = scratch();
    let id = create(&mut store, "more work", vec![]);
    let branch = Some("k-2/work".to_string());
    apply(&mut store, None, Op::MoveTicket { id, to: ColumnId::Review, position: None, owner: None, branch }).unwrap();
    store
}

#[test]
fn a_pass_looks_everything_up_before_it_writes() {
    let board = two_in_review().read_board().unwrap();
    let mut answers: Vec<Reply> = vec![];
    let step = poll_pass(&board, "main", &answers, &vec![]);
    assert!(matches!(step, PassStep::Look(id, Lookup::Branch(b)) if id == k(1) && b == "k-1/work"));
    answers.push((k(1), Ok(Some(merged_pr("abc")))));
    let step = poll_pass(&board, "main", &answers, &vec![]);
    assert!(matches!(step, PassStep::Look(id, Lookup::Branch(b)) if id == k(2) && b == "k-2/work"));
    answers.push((k(2), Ok(None)));
    let step = poll_pass(&board, "main", &answers, &vec![]);
    assert!(matches!(step, PassStep::Ask(Question::Ancestor(oid)) if oid == "abc"));
    let known = vec![Known { question: Question::Ancestor("abc".into()), answer: Some(true) }];
    match poll_pass(&board, "main", &answers, &known) {
        PassStep::Done { writes, updated } => {
            assert_eq!((writes.len(), updated), (2, 1));
            assert!(matches!(&writes[0], Write::Request { id, pr } if *id == k(1) && pr.number == 12));
            assert!(matches!(&writes[1], Write::Land { id, branch: Some(b), reason }
                if *id == k(1) && b == "k-1/work" && reason == "PR #12 merged and pulled into main"));
            assert!(writes.iter().all(|w| *w.ticket() == k(1)));
        }
        other => panic!("{other:?}"),
    }
}

#[test]
fn trouble_with_one_lookup_leaves_the_whole_board_untouched() {
    let board = two_in_review().read_board().unwrap();
    let answers: Vec<Reply> = vec![(k(1), Ok(Some(merged_pr("abc")))), (k(2), Err("offline".into()))];
    let known = vec![Known { question: Question::Ancestor("abc".into()), answer: Some(true) }];
    match poll_pass(&board, "main", &answers, &known) {
        PassStep::Done { writes, updated } => assert!(writes.is_empty() && updated == 0),
        other => panic!("{other:?}"),
    }
}

#[test]
fn only_overtaken_writes_are_tolerated() {
    let refused = || OpError::Invalid("moved on".into());
    let landing = Write::Land { id: k(1), branch: None, reason: "r".into() };
    assert!(landing.tolerates(&refused()));
    assert!(matches!(landing.op(), Op::LandTicket { id, expected_branch: None, reason } if id == k(1) && reason == "r"));
    let review = Write::Review { id: k(1), head: "h".into() };
    assert!(review.tolerates(&refused()));
    assert!(!Write::Note { id: k(1), text: "t".into() }.tolerates(&refused()));
    assert!(!Write::Request { id: k(1), pr: merged_pr("abc") }.tolerates(&refused()));
}

#[test]
fn a_sweep_leaves_a_valid_board_and_what_it_does_not_name() {
    let mut store = two_in_review();
    let mut repo = repo(&["main", "k-1/work", "k-2/work"]);
    repo.merged.push("k-1/work");
    let mut seen = vec![];
    assert_eq!(pass(&mut store, &repo, &mut seen, "t1"), 1);
    let board = store.read_board().unwrap();
    assert!(validate(&board).is_ok());
    let k1 = board.ticket(&k(1)).unwrap();
    assert!(matches!(&k1.column, Column::Done { branch: Some(b), discarded: false, .. } if b == "k-1/work"));
    assert_eq!(k1.notes.last().unwrap().author.as_deref(), Some("kanban"));
    assert!(matches!(&board.ticket(&k(2)).unwrap().column, Column::Review { branch: Some(b) } if b == "k-2/work"));
    assert_eq!(pass(&mut store, &repo, &mut seen, "t1"), 0);
    assert_eq!(store.read_board().unwrap(), board, "the second pass writes nothing");
}
