use claude_kanban::name::assistant;
use claude_kanban::ops::{apply, NewEpicSpec, NewTicketSpec, Op, OpError, RefineTarget, TicketPatch};
use claude_kanban::store::model::{
    Column, ColumnId, Effort, EpicId, External, PrRef, PrState, Status, TicketId,
};
use claude_kanban::store::derive::{blocked, next_ticket};
use claude_kanban::store::validate::validate;
use claude_kanban::store::Store;

fn scratch() -> Store {
    let mut store = Store::at(".kanban");
    store.init().unwrap();
    store
}

fn create(store: &mut Store, title: &str) -> TicketId {
    let applied = apply(
        store,
        None,
        Op::CreateTicket { title: title.into(), body: String::new(), epic: None, labels: vec![], depends_on: vec![], status: Status::Ready, model: None, effort: None, auto_merge: false },
    )
    .unwrap();
    TicketId(applied.created_ids[0].clone())
}

fn patched(store: &mut Store, id: &TicketId, patch: TicketPatch) {
    apply(store, None, Op::UpdateTicket { id: id.clone(), patch }).unwrap();
}

fn read(store: &Store, id: &TicketId) -> (Option<String>, Option<Effort>) {
    let b = store.read_board().unwrap();
    let t = b.ticket(id).unwrap();
    (t.model.clone(), t.effort)
}

/// The nested option, exercised on both new fields: `None` leaves a preference alone, `Some(None)` clears it. Getting
/// this backwards would make every ordinary edit-form save wipe the ticket's model.
#[test]
fn patching_model_and_effort_distinguishes_untouched_from_cleared() {
    let mut store = scratch();
    let id = create(&mut store, "hard one");
    patched(&mut store, &id, TicketPatch { model: Some(Some("opus".into())), effort: Some(Some(Effort::Xhigh)), ..TicketPatch::default() });
    assert_eq!(read(&store, &id), (Some("opus".into()), Some(Effort::Xhigh)));

    patched(&mut store, &id, TicketPatch { title: Some("retitled".into()), ..TicketPatch::default() });
    assert_eq!(read(&store, &id), (Some("opus".into()), Some(Effort::Xhigh)), "a patch that doesn't mention them leaves them alone");

    patched(&mut store, &id, TicketPatch { model: Some(None), ..TicketPatch::default() });
    assert_eq!(read(&store, &id), (None, Some(Effort::Xhigh)), "clearing one leaves the other standing");

    patched(&mut store, &id, TicketPatch { effort: Some(None), ..TicketPatch::default() });
    assert_eq!(read(&store, &id), (None, None));
}

#[test]
fn create_claim_move_to_done_is_the_happy_path() {
    let mut store = scratch();
    let id = create(&mut store, "do the thing");
    assert_eq!(id.0, "K-1");

    apply(&mut store, None, Op::Claim { id: id.clone(), agent: assistant() }).unwrap();
    let board = store.read_board().unwrap();
    assert!(matches!(&board.ticket(&id).unwrap().column, Column::Doing { owner, .. } if *owner == assistant()));
    assert_eq!(store.read_claims().unwrap().len(), 1);

    apply(&mut store, None, Op::MoveTicket { id: id.clone(), to: ColumnId::Done, position: None, owner: None, branch: None }).unwrap();
    let board = store.read_board().unwrap();
    assert!(matches!(board.ticket(&id).unwrap().column, Column::Done { .. }));
    assert!(store.read_claims().unwrap().is_empty(), "reaching done drops the live claim");
}

#[test]
fn refining_a_claimed_stub_returns_it_to_todo_and_drops_the_claim() {
    let mut store = scratch();
    let filler = create(&mut store, "filler at the top of todo");
    let id = create(&mut store, "vague idea");
    apply(&mut store, None, Op::SetTicketStatus { id: id.clone(), status: Status::Stub }).unwrap();

    apply(&mut store, None, Op::Claim { id: id.clone(), agent: assistant() }).unwrap();
    let board = store.read_board().unwrap();
    assert!(matches!(&board.ticket(&id).unwrap().column, Column::Doing { owner, .. } if *owner == assistant()), "a claimed stub sits in doing while its spec is written");
    assert_eq!(store.read_claims().unwrap().len(), 1);

    let op = Op::Refine { target: RefineTarget::Ticket(id.clone()), title: None, body: "now specific".into(), split_tickets: vec![], split_epics: vec![] };
    apply(&mut store, None, op).unwrap();
    let board = store.read_board().unwrap();
    let refined = board.ticket(&id).unwrap();
    assert_eq!(refined.status, Status::Review);
    assert_eq!(refined.body, "now specific");
    assert_eq!(board.tickets_in(ColumnId::Todo)[0].id, id, "the refined stub returns to the TOP of todo, above {}", filler.0);
    assert!(store.read_claims().unwrap().is_empty(), "refine drops the live claim");
}

#[test]
fn claiming_enforces_the_handoff_contract() {
    let mut store = scratch();
    let a = create(&mut store, "first");
    let b = create(&mut store, "second");

    // Not ready (and not a stub — those are claimable for refinement).
    apply(&mut store, None, Op::SetTicketStatus { id: a.clone(), status: Status::Draft }).unwrap();
    let err = apply(&mut store, None, Op::Claim { id: a.clone(), agent: assistant() }).unwrap_err();
    assert!(err.to_string().contains("only ready"), "{err:?}");
    apply(&mut store, None, Op::SetTicketStatus { id: a.clone(), status: Status::Ready }).unwrap();

    // Blocked.
    apply(&mut store, None, Op::UpdateTicket { id: b.clone(), patch: TicketPatch { depends_on: Some(vec![a.clone()]), ..TicketPatch::default() } }).unwrap();
    let err = apply(&mut store, None, Op::Claim { id: b.clone(), agent: assistant() }).unwrap_err();
    assert!(err.to_string().contains("blocked"), "{err:?}");

    // Already claimed.
    apply(&mut store, None, Op::Claim { id: a.clone(), agent: assistant() }).unwrap();
    let err = apply(&mut store, None, Op::Claim { id: a.clone(), agent: "other".into() }).unwrap_err();
    assert!(matches!(err, OpError::AlreadyClaimed { agent, .. } if agent == assistant()));

    // Done.
    apply(&mut store, None, Op::MoveTicket { id: a.clone(), to: ColumnId::Done, position: None, owner: None, branch: None }).unwrap();
    let err = apply(&mut store, None, Op::Claim { id: a, agent: assistant() }).unwrap_err();
    assert!(err.to_string().contains("already done"), "{err:?}");
}

#[test]
fn release_returns_the_card_to_the_top_of_todo() {
    let mut store = scratch();
    let a = create(&mut store, "a");
    let b = create(&mut store, "b");
    apply(&mut store, None, Op::Claim { id: b.clone(), agent: assistant() }).unwrap();
    apply(&mut store, None, Op::Release { id: b.clone() }).unwrap();

    let board = store.read_board().unwrap();
    let todo: Vec<&str> = board.tickets_in(ColumnId::Todo).iter().map(|t| t.id.0.as_str()).collect();
    assert_eq!(todo, vec!["K-2", "K-1"], "released ticket outranks {}", a.0);
    assert!(store.read_claims().unwrap().is_empty());
    assert!(apply(&mut store, None, Op::Release { id: b }).is_err(), "releasing an unclaimed ticket refuses");
}

#[test]
fn moving_between_and_within_columns_lands_at_the_requested_position() {
    let mut store = scratch();
    let ids: Vec<TicketId> = ["a", "b", "c"].iter().map(|t| create(&mut store, t)).collect();

    // Within a column: bottom → top.
    apply(&mut store, None, Op::MoveTicket { id: ids[2].clone(), to: ColumnId::Todo, position: Some(0), owner: None, branch: None }).unwrap();
    let board = store.read_board().unwrap();
    let todo: Vec<&str> = board.tickets_in(ColumnId::Todo).iter().map(|t| t.id.0.as_str()).collect();
    assert_eq!(todo, vec!["K-3", "K-1", "K-2"]);

    // Across columns with an owner; position past the end clamps to bottom.
    apply(&mut store, None, Op::MoveTicket { id: ids[0].clone(), to: ColumnId::Doing, position: Some(99), owner: Some("user".into()), branch: None }).unwrap();
    let board = store.read_board().unwrap();
    assert!(matches!(&board.ticket(&ids[0]).unwrap().column, Column::Doing { owner, .. } if owner == "user"));

    // Entering doing without any owner refuses.
    let err = apply(&mut store, None, Op::MoveTicket { id: ids[1].clone(), to: ColumnId::Doing, position: None, owner: None, branch: None }).unwrap_err();
    assert!(err.to_string().contains("needs an owner"), "{err:?}");

    // Back to todo drops the owner; the branch is dropped too (todo carries nothing).
    apply(&mut store, None, Op::MoveTicket { id: ids[0].clone(), to: ColumnId::Todo, position: None, owner: None, branch: None }).unwrap();
    assert!(matches!(store.read_board().unwrap().ticket(&ids[0]).unwrap().column, Column::Todo));
}

#[test]
fn moving_to_done_and_back_keeps_branch_semantics() {
    let mut store = scratch();
    let id = create(&mut store, "with branch");
    apply(&mut store, None, Op::Claim { id: id.clone(), agent: assistant() }).unwrap();
    apply(&mut store, None, Op::StampWorktree { id: id.clone(), branch: "k-1/with-branch".into(), path: "/tmp/wt".into() }).unwrap();
    apply(&mut store, None, Op::MoveTicket { id: id.clone(), to: ColumnId::Done, position: None, owner: None, branch: None }).unwrap();

    let board = store.read_board().unwrap();
    match &board.ticket(&id).unwrap().column {
        Column::Done { branch, .. } => assert_eq!(branch.as_deref(), Some("k-1/with-branch"), "done keeps the branch"),
        other => panic!("expected done, got {other:?}"),
    }
}

#[test]
fn version_conflicts_surface_through_apply() {
    let mut store = scratch();
    create(&mut store, "a");
    let err = apply(&mut store, Some(0), Op::SetTicketStatus { id: TicketId("K-1".into()), status: Status::Draft }).unwrap_err();
    assert_eq!(err.version_conflict(), Some((0, 1)));
}

#[test]
fn deleting_a_ticket_cascades_out_of_depends_on_and_claims() {
    let mut store = scratch();
    let a = create(&mut store, "a");
    let b = create(&mut store, "b");
    apply(&mut store, None, Op::UpdateTicket { id: b.clone(), patch: TicketPatch { depends_on: Some(vec![a.clone()]), ..TicketPatch::default() } }).unwrap();
    apply(&mut store, None, Op::Claim { id: a.clone(), agent: assistant() }).unwrap();
    apply(&mut store, None, Op::DeleteTicket { id: a }).unwrap();

    let board = store.read_board().unwrap();
    assert!(validate(&board).is_ok());
    assert!(board.ticket(&b).unwrap().depends_on.is_empty(), "the dangling dependency is removed, not left to fail validation");
    assert!(store.read_claims().unwrap().is_empty());
}

/// Create an epic and return its id — the three cascade tests below all start here.
fn create_epic_id(store: &mut Store, title: &str) -> EpicId {
    let applied =
        apply(store, None, Op::CreateEpic { title: title.into(), color: None, body: String::new(), status: Status::Ready, auto_merge: false }).unwrap();
    EpicId(applied.created_ids[0].clone())
}

fn put_in_epic(store: &mut Store, ticket: &TicketId, epic: &EpicId) {
    let patch = TicketPatch { epic: Some(Some(epic.clone())), ..TicketPatch::default() };
    apply(store, None, Op::UpdateTicket { id: ticket.clone(), patch }).unwrap();
}

#[test]
fn deleting_an_epic_deletes_its_tickets() {
    let mut store = scratch();
    let epic_id = create_epic_id(&mut store, "auth");
    let inside = create(&mut store, "in epic");
    let outside = create(&mut store, "no epic");
    put_in_epic(&mut store, &inside, &epic_id);
    apply(&mut store, None, Op::DeleteEpic { id: epic_id }).unwrap();

    let board = store.read_board().unwrap();
    assert!(board.epics.is_empty());
    assert!(board.ticket(&inside).is_none(), "the epic's tickets go with it");
    assert!(board.ticket(&outside).is_some(), "a ticket in no epic is untouched");
}

/// Cascade takes completed history and live work alike: a done ticket is deleted, not spared, and a claimed one is
/// deleted with its claim dropped (its worktree and branch survive on disk — git is not this op's business).
#[test]
fn deleting_an_epic_takes_done_and_claimed_tickets_with_it() {
    let mut store = scratch();
    let epic_id = create_epic_id(&mut store, "auth");
    let finished = create(&mut store, "already done");
    let working = create(&mut store, "under way");
    put_in_epic(&mut store, &finished, &epic_id);
    put_in_epic(&mut store, &working, &epic_id);

    apply(&mut store, None, Op::MoveTicket { id: finished.clone(), to: ColumnId::Done, position: None, owner: None, branch: None }).unwrap();
    apply(&mut store, None, Op::Claim { id: working.clone(), agent: assistant() }).unwrap();
    apply(&mut store, None, Op::StampWorktree { id: working.clone(), branch: "k-2/under-way".into(), path: "/tmp/wt".into() }).unwrap();
    assert_eq!(store.read_claims().unwrap().len(), 1, "the claimed ticket really is claimed before the delete");

    apply(&mut store, None, Op::DeleteEpic { id: epic_id }).unwrap();
    let board = store.read_board().unwrap();
    assert!(board.tickets.is_empty(), "neither the done ticket nor the claimed one survives: {:?}", board.tickets);
    assert!(store.read_claims().unwrap().is_empty(), "the claim on the deleted ticket is dropped");
}

/// A dangling `depends_on` fails whole-board validation, so the cascade has to clean the survivors in the same
/// transition — an `Ok` here is the proof that it wrote at all.
#[test]
fn deleting_an_epic_clears_dependencies_on_its_tickets() {
    let mut store = scratch();
    let epic_id = create_epic_id(&mut store, "auth");
    let inside = create(&mut store, "in epic");
    let outside = create(&mut store, "depends on it");
    put_in_epic(&mut store, &inside, &epic_id);
    let patch = TicketPatch { depends_on: Some(vec![inside]), ..TicketPatch::default() };
    apply(&mut store, None, Op::UpdateTicket { id: outside.clone(), patch }).unwrap();

    apply(&mut store, None, Op::DeleteEpic { id: epic_id }).expect("the cascade must leave the board valid");
    let board = store.read_board().unwrap();
    assert!(board.ticket(&outside).unwrap().depends_on.is_empty(), "the survivor is silently unblocked, not left dangling");
}

#[test]
fn an_update_introducing_a_cycle_is_rejected_atomically() {
    let mut store = scratch();
    let a = create(&mut store, "a");
    let b = create(&mut store, "b");
    apply(&mut store, None, Op::UpdateTicket { id: b.clone(), patch: TicketPatch { depends_on: Some(vec![a.clone()]), ..TicketPatch::default() } }).unwrap();
    let before = store.read_board().unwrap();
    let err =
        apply(&mut store, None, Op::UpdateTicket { id: a, patch: TicketPatch { depends_on: Some(vec![b]), ..TicketPatch::default() } }).unwrap_err();
    assert!(err.to_string().contains("cycle"), "{err:?}");
    assert_eq!(store.read_board().unwrap(), before, "a rejected op leaves the file untouched");
}

#[test]
fn refine_splits_atomically_and_lands_everything_in_review() {
    let mut store = scratch();
    let target = create(&mut store, "big vague thing");
    apply(&mut store, None, Op::SetTicketStatus { id: target.clone(), status: Status::Stub }).unwrap();

    let spec = |title: &str, deps: Vec<&str>| NewTicketSpec {
        title: title.into(),
        body: format!("spec for {title}"),
        labels: vec![],
        depends_on: deps.into_iter().map(String::from).collect(),
        epic: None,
        model: None,
        effort: None,
    };
    let applied = apply(
        &mut store,
        None,
        Op::Refine {
            target: RefineTarget::Ticket(target.clone()),
            title: Some("big, now specific, thing".into()),
            body: "# The plan\ndetails".into(),
            split_tickets: vec![spec("part one", vec![]), spec("part two", vec!["new:0", &target.0])],
            split_epics: vec![NewEpicSpec {
                title: "follow-on epic".into(),
                color: None,
                body: String::new(),
                tickets: vec![spec("epic child", vec![])],
            }],
        },
    )
    .unwrap();

    // Creation order: epic, its child, then the split tickets.
    assert_eq!(applied.created_ids, vec!["EP-1", "K-2", "K-3", "K-4"]);
    let board = store.read_board().unwrap();
    let refined = board.ticket(&target).unwrap();
    assert_eq!(refined.status, Status::Review);
    assert_eq!(refined.title, "big, now specific, thing");
    let part_two = board.ticket(&TicketId("K-4".into())).unwrap();
    assert_eq!(part_two.depends_on, vec![TicketId("K-3".into()), target.clone()], "new:0 resolves to the first split ticket");
    let child = board.ticket(&TicketId("K-2".into())).unwrap();
    assert_eq!(child.epic.as_ref().unwrap().0, "EP-1", "nested tickets belong to their new epic");
    assert!(board.tickets.iter().skip(1).all(|t| t.status == Status::Review), "everything created is review");
}

#[test]
fn refine_refuses_bad_targets_and_bad_placeholders_atomically() {
    let mut store = scratch();
    let ready = create(&mut store, "ready one");
    let err = apply(
        &mut store,
        None,
        Op::Refine { target: RefineTarget::Ticket(ready.clone()), title: None, body: "x".into(), split_tickets: vec![], split_epics: vec![] },
    )
    .unwrap_err();
    assert!(err.to_string().contains("only stub"), "{err:?}");

    apply(&mut store, None, Op::SetTicketStatus { id: ready.clone(), status: Status::Stub }).unwrap();
    let before = store.read_board().unwrap();
    let err = apply(
        &mut store,
        None,
        Op::Refine {
            target: RefineTarget::Ticket(ready),
            title: None,
            body: "x".into(),
            split_tickets: vec![NewTicketSpec { title: "t".into(), body: String::new(), labels: vec![], depends_on: vec!["new:9".into()], epic: None, model: None, effort: None }],
            split_epics: vec![],
        },
    )
    .unwrap_err();
    assert!(err.to_string().contains("placeholder"), "{err:?}");
    assert_eq!(store.read_board().unwrap(), before, "failed refine writes nothing — not even the target's new body");
}

#[test]
fn refine_split_tickets_inherit_the_targets_epic() {
    let mut store = scratch();
    let epic = apply(&mut store, None, Op::CreateEpic { title: "auth".into(), color: None, body: String::new(), status: Status::Ready, auto_merge: false }).unwrap();
    let epic_id = EpicId(epic.created_ids[0].clone());
    let target = create(&mut store, "stub in epic");
    apply(&mut store, None, Op::UpdateTicket { id: target.clone(), patch: TicketPatch { epic: Some(Some(epic_id.clone())), ..TicketPatch::default() } }).unwrap();
    apply(&mut store, None, Op::SetTicketStatus { id: target.clone(), status: Status::Stub }).unwrap();

    apply(
        &mut store,
        None,
        Op::Refine {
            target: RefineTarget::Ticket(target),
            title: None,
            body: "refined".into(),
            split_tickets: vec![NewTicketSpec { title: "child".into(), body: String::new(), labels: vec![], depends_on: vec![], epic: None, model: None, effort: None }],
            split_epics: vec![],
        },
    )
    .unwrap();
    let board = store.read_board().unwrap();
    assert_eq!(board.ticket(&TicketId("K-2".into())).unwrap().epic.as_ref(), Some(&epic_id));
}

#[test]
fn stamp_and_clear_worktree_round_trip() {
    let mut store = scratch();
    let id = create(&mut store, "work");
    // Not in doing yet: refused.
    let err = apply(&mut store, None, Op::StampWorktree { id: id.clone(), branch: "k-1/work".into(), path: "/tmp/wt/K-1".into() }).unwrap_err();
    assert!(err.to_string().contains("claim it first"), "{err:?}");

    apply(&mut store, None, Op::Claim { id: id.clone(), agent: assistant() }).unwrap();
    apply(&mut store, None, Op::StampWorktree { id: id.clone(), branch: "k-1/work".into(), path: "/tmp/wt/K-1".into() }).unwrap();
    let claims = store.read_claims().unwrap();
    assert_eq!(claims[0].path.as_deref(), Some("/tmp/wt/K-1"));
    assert_eq!(store.read_board().unwrap().ticket(&id).unwrap().column.branch(), Some("k-1/work"));

    apply(&mut store, None, Op::ClearWorktreePath { id: id.clone() }).unwrap();
    let claims = store.read_claims().unwrap();
    assert_eq!(claims.len(), 1, "the claim survives finish — the ticket is still in flight");
    assert!(claims[0].path.is_none());
}

#[test]
fn stamping_an_external_ticket_is_refused_but_claiming_it_is_fine() {
    let mut store = scratch();
    let id = create(&mut store, "delegated");
    let external = External::github_issue(7);
    apply(&mut store, None, Op::BindExternal { id: id.clone(), external: Some(external) }).unwrap();
    // Delegating claims the ticket on the daemon's behalf — external tickets are claimable…
    apply(&mut store, None, Op::Claim { id: id.clone(), agent: "minesweeper".into() }).unwrap();
    // …but never get a worktree here.
    let err = apply(&mut store, None, Op::StampWorktree { id: id.clone(), branch: "b".into(), path: "/p".into() }).unwrap_err();
    assert!(matches!(err, OpError::External(_)), "{err:?}");
    // Unbind clears it again.
    apply(&mut store, None, Op::BindExternal { id: id.clone(), external: None }).unwrap();
    assert!(store.read_board().unwrap().ticket(&id).unwrap().external.is_none());
}

#[test]
fn created_epics_get_distinct_palette_colours() {
    let mut store = scratch();
    let mut colours = std::collections::HashSet::new();
    (0..3).for_each(|i| {
        let applied =
            apply(&mut store, None, Op::CreateEpic { title: format!("e{i}"), color: None, body: String::new(), status: Status::Draft, auto_merge: false }).unwrap();
        let board = store.read_board().unwrap();
        colours.insert(board.epics.last().unwrap().color.clone());
        assert_eq!(applied.created_ids[0], format!("EP-{}", i + 1));
    });
    assert_eq!(colours.len(), 3);
}

#[test]
fn notes_append_with_authors_and_next_still_respects_the_board() {
    let mut store = scratch();
    let id = create(&mut store, "noted");
    apply(&mut store, None, Op::AddNote { id: id.clone(), text: "started".into(), author: Some(assistant()) }).unwrap();
    apply(&mut store, None, Op::AddNote { id: id.clone(), text: "hmm".into(), author: None }).unwrap();
    let board = store.read_board().unwrap();
    let notes = &board.ticket(&id).unwrap().notes;
    assert_eq!(notes.len(), 2);
    assert_eq!(notes[0].author.as_deref(), Some(assistant().as_str()));

    // Sanity: the read model still nominates it.
    assert_eq!(next_ticket(&board, &store.read_claims().unwrap()).unwrap().id, id);
}

/// Claim + stamp + move to review: the standard close-out shape for a worked ticket.
fn to_review(store: &mut Store, id: &TicketId, branch: &str) {
    apply(store, None, Op::Claim { id: id.clone(), agent: assistant() }).unwrap();
    apply(store, None, Op::StampWorktree { id: id.clone(), branch: branch.into(), path: "/tmp/unused".into() }).unwrap();
    apply(store, None, Op::MoveTicket { id: id.clone(), to: ColumnId::Review, position: None, owner: None, branch: None }).unwrap();
}

#[test]
fn moving_to_review_carries_the_branch_and_drops_the_claim() {
    let mut store = scratch();
    let id = create(&mut store, "worked");
    to_review(&mut store, &id, "k-1/worked");

    let board = store.read_board().unwrap();
    assert!(matches!(&board.ticket(&id).unwrap().column, Column::Review { branch: Some(b) } if b == "k-1/worked"));
    assert!(store.read_claims().unwrap().is_empty(), "review work is nobody's — the claim drops on entry");
}

#[test]
fn a_branch_override_on_the_move_records_a_companion_subtasks_shared_branch() {
    // A companion subtask is worked in its parent's worktree: claimed, never stamped. Without the override it would
    // reach review branchless and the auto-lander could never resolve it.
    let mut store = scratch();
    let id = create(&mut store, "companion");
    apply(&mut store, None, Op::Claim { id: id.clone(), agent: assistant() }).unwrap();
    apply(
        &mut store,
        None,
        Op::MoveTicket { id: id.clone(), to: ColumnId::Review, position: None, owner: None, branch: Some("k-9/parent".into()) },
    )
    .unwrap();

    let board = store.read_board().unwrap();
    assert!(matches!(&board.ticket(&id).unwrap().column, Column::Review { branch: Some(b) } if b == "k-9/parent"));
}

#[test]
fn claiming_from_review_is_the_rework_path_and_keeps_the_branch() {
    let mut store = scratch();
    let id = create(&mut store, "needs rework");
    to_review(&mut store, &id, "k-1/needs-rework");

    apply(&mut store, None, Op::Claim { id: id.clone(), agent: assistant() }).unwrap();
    let board = store.read_board().unwrap();
    assert!(
        matches!(&board.ticket(&id).unwrap().column, Column::Doing { owner, branch: Some(b) } if *owner == assistant() && b == "k-1/needs-rework"),
        "rework re-claims with the branch intact, so worktree start re-attaches"
    );
}

#[test]
fn land_ticket_moves_review_to_done_with_the_reason_on_the_record() {
    let mut store = scratch();
    let id = create(&mut store, "landed");
    to_review(&mut store, &id, "k-1/landed");

    apply(
        &mut store,
        None,
        Op::LandTicket { id: id.clone(), expected_branch: Some("k-1/landed".into()), reason: "k-1/landed merged into main".into() },
    )
    .unwrap();
    let board = store.read_board().unwrap();
    let ticket = board.ticket(&id).unwrap();
    assert!(matches!(&ticket.column, Column::Done { discarded: false, branch: Some(b), .. } if b == "k-1/landed"));
    assert_eq!(ticket.notes.last().unwrap().text, "k-1/landed merged into main");
    assert_eq!(ticket.notes.last().unwrap().author.as_deref(), Some("kanban"));
}

#[test]
fn land_ticket_refuses_stale_evidence() {
    let mut store = scratch();
    let id = create(&mut store, "moved on");

    // Not in review at all.
    let err =
        apply(&mut store, None, Op::LandTicket { id: id.clone(), expected_branch: None, reason: "x".into() }).unwrap_err();
    assert!(err.to_string().contains("no longer in review"), "{err:?}");

    // In review, but the branch changed since the evidence was gathered.
    to_review(&mut store, &id, "k-1/rebranded");
    let err = apply(
        &mut store,
        None,
        Op::LandTicket { id: id.clone(), expected_branch: Some("k-1/original".into()), reason: "x".into() },
    )
    .unwrap_err();
    assert!(err.to_string().contains("branch changed"), "{err:?}");
    let board = store.read_board().unwrap();
    assert!(matches!(board.ticket(&id).unwrap().column, Column::Review { .. }), "a refused landing changes nothing");
}

#[test]
fn discarding_closes_the_ticket_but_its_dependents_stay_blocked() {
    let mut store = scratch();
    let parent = create(&mut store, "abandoned approach");
    let child = create(&mut store, "follow-up");
    apply(
        &mut store,
        None,
        Op::UpdateTicket { id: child.clone(), patch: TicketPatch { depends_on: Some(vec![parent.clone()]), ..TicketPatch::default() } },
    )
    .unwrap();
    to_review(&mut store, &parent, "k-1/abandoned");

    apply(&mut store, None, Op::DiscardTicket { id: parent.clone(), reason: "superseded by a different design".into() }).unwrap();
    let board = store.read_board().unwrap();
    assert!(matches!(board.ticket(&parent).unwrap().column, Column::Done { discarded: true, .. }));
    assert!(blocked(board.ticket(&child).unwrap(), &board), "the promised code never landed — the dependent stays blocked");
    assert!(next_ticket(&board, &[]).is_none(), "nothing on this board is workable");

    // Only review tickets can be discarded — done and todo tickets refuse.
    let err = apply(&mut store, None, Op::DiscardTicket { id: parent, reason: "again".into() }).unwrap_err();
    assert!(err.to_string().contains("not in review"), "{err:?}");
}

#[test]
fn set_pr_records_updates_and_clears() {
    let mut store = scratch();
    let id = create(&mut store, "tracked");

    let open = PrRef { number: 7, url: "https://example.invalid/pull/7".into(), state: PrState::Open, merged_commit: None };
    apply(&mut store, None, Op::SetPr { id: id.clone(), pr: Some(open) }).unwrap();
    let board = store.read_board().unwrap();
    assert_eq!(board.ticket(&id).unwrap().pr.as_ref().unwrap().number, 7);

    let merged =
        PrRef { number: 7, url: "https://example.invalid/pull/7".into(), state: PrState::Merged, merged_commit: Some("abc123".into()) };
    apply(&mut store, None, Op::SetPr { id: id.clone(), pr: Some(merged) }).unwrap();
    let board = store.read_board().unwrap();
    assert_eq!(board.ticket(&id).unwrap().pr.as_ref().unwrap().state, PrState::Merged);

    apply(&mut store, None, Op::SetPr { id: id.clone(), pr: None }).unwrap();
    assert!(store.read_board().unwrap().ticket(&id).unwrap().pr.is_none());
}

#[test]
fn every_ticket_sharing_a_branch_lands_when_it_lands() {
    // One worktree, one branch, several tickets (a parent and its companion subtasks): when the branch reaches main,
    // the sweep lands each of them independently — none may be left behind.
    let mut store = scratch();
    let parent = create(&mut store, "parent");
    let companion = create(&mut store, "companion");
    to_review(&mut store, &parent, "k-1/shared");
    apply(&mut store, None, Op::Claim { id: companion.clone(), agent: assistant() }).unwrap();
    apply(
        &mut store,
        None,
        Op::MoveTicket { id: companion.clone(), to: ColumnId::Review, position: None, owner: None, branch: Some("k-1/shared".into()) },
    )
    .unwrap();

    for id in [&parent, &companion] {
        apply(
            &mut store,
            None,
            Op::LandTicket { id: id.clone(), expected_branch: Some("k-1/shared".into()), reason: "k-1/shared merged into main".into() },
        )
        .unwrap();
    }
    let board = store.read_board().unwrap();
    assert!(board.tickets.iter().all(|t| matches!(t.column, Column::Done { discarded: false, .. })));
}
