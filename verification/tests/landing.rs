use claude_kanban::land::{land, sweep, Known, Question, Sweep};
use claude_kanban::name::assistant;
use claude_kanban::ops::{apply, Op};
use claude_kanban::store::derive::{blocked, next_ticket};
use claude_kanban::store::model::{Board, Column, ColumnId, Status, TicketId};
use claude_kanban::store::Store;
use claude_kanban::worktree::{
    dirty_worktree, path_for, retire, start, worktree_entries, Retirement, StartFacts, StartOpts, StartStep,
    WorktreeEntry,
};

const BRANCH: &str = "k-1/lay-foundation";
const PATH: &str = "/wt/K-1";

fn id(n: u32) -> TicketId {
    TicketId(format!("K-{n}"))
}

/// A board holding K-1 (ready) and K-2 (ready, depends on K-1).
fn scratch() -> Store {
    let mut store = Store::at("/repo/.kanban");
    store.init().unwrap();
    for (title, depends_on) in [("Lay the foundation", vec![]), ("Build on the foundation", vec![id(1)])] {
        let op = Op::CreateTicket {
            title: title.into(),
            body: String::new(),
            epic: None,
            labels: vec![],
            depends_on,
            status: Status::Ready,
            model: None,
            effort: None,
            auto_merge: false,
        };
        apply(&mut store, None, op).unwrap();
    }
    store
}

fn work_k1_to_review(store: &mut Store) {
    apply(store, None, Op::Claim { id: id(1), agent: assistant() }).unwrap();
    let stamp = Op::StampWorktree { id: id(1), branch: BRANCH.into(), path: PATH.into() };
    apply(store, None, stamp).unwrap();
    let close = Op::MoveTicket { id: id(1), to: ColumnId::Review, position: None, owner: None, branch: None };
    apply(store, None, close).unwrap();
}

fn entries() -> Vec<WorktreeEntry> {
    let out = format!("worktree /repo\nHEAD a\nbranch refs/heads/main\n\nworktree {PATH}\nHEAD b\nbranch refs/heads/{BRANCH}\n");
    worktree_entries(&out)
}

/// Sweep once, with the branch alive and merged or not.
fn swept(store: &mut Store, merged: bool) -> usize {
    let board = store.read_board().unwrap();
    let known = vec![Known { question: Question::Ancestor(BRANCH.into()), answer: Some(merged) }];
    let heads = vec!["main".to_string(), BRANCH.to_string()];
    let landings = match sweep(&board, "main", &heads, &vec![], &known) {
        Sweep::Done(landings) => landings,
        other => panic!("{other:?}"),
    };
    landings.into_iter().map(|l| land(store, l)).filter(|ok| *ok).count()
}

fn worktree_of(board: &Board) -> Option<String> {
    path_for(&entries(), board.ticket(&id(1)).unwrap())
}

#[test]
fn a_discarded_predecessor_keeps_its_dependent_blocked_for_good() {
    let mut s = scratch();
    work_k1_to_review(&mut s);

    apply(&mut s, None, Op::DiscardTicket { id: id(1), reason: "superseded".into() }).unwrap();
    let board = s.read_board().unwrap();
    assert!(matches!(board.ticket(&id(1)).unwrap().column, Column::Done { discarded: true, .. }));
    assert!(blocked(board.ticket(&id(2)).unwrap(), &board), "the promised code never landed");
    assert!(next_ticket(&board, &[]).is_none());

    assert_eq!(swept(&mut s, true), 0);
    let board = s.read_board().unwrap();
    assert!(blocked(board.ticket(&id(2)).unwrap(), &board));

    let err = apply(&mut s, None, Op::Claim { id: id(2), agent: assistant() }).unwrap_err();
    assert!(err.to_string().contains("blocked"), "{}", err.to_string());
}

#[test]
fn an_unlanded_review_ticket_keeps_its_worktree() {
    let mut s = scratch();
    work_k1_to_review(&mut s);
    assert_eq!(swept(&mut s, false), 0);
    let board = s.read_board().unwrap();
    let path = worktree_of(&board).expect("the worktree must survive the close-out");
    assert_eq!(path, PATH);

    apply(&mut s, None, Op::Claim { id: id(1), agent: assistant() }).unwrap();
    let board = s.read_board().unwrap();
    let facts = StartFacts {
        pruned: true,
        version: Some(Some((2, 43))),
        branch: Some(Some(BRANCH.into())),
        worktree: Some(Some(path.clone())),
    };
    match start("/repo", &id(1), board.ticket(&id(1)), &StartOpts::default(), "/elsewhere", &facts) {
        StartStep::Go(again) => {
            assert!(again.reattached, "rework must re-attach, not re-create");
            assert_eq!((again.path.as_str(), again.branch.as_str()), (path.as_str(), BRANCH));
            assert!(again.tasks.is_empty());
        }
        other => panic!("{other:?}"),
    }
}

#[test]
fn a_landed_ticket_loses_its_worktree_and_keeps_its_branch() {
    let mut s = scratch();
    work_k1_to_review(&mut s);
    assert_eq!(swept(&mut s, true), 1);
    let board = s.read_board().unwrap();
    let k1 = board.ticket(&id(1)).unwrap();
    assert!(matches!(k1.column, Column::Done { discarded: false, .. }));
    assert_eq!(k1.column.branch(), Some(BRANCH), "the branch is provenance and survives");
    assert_eq!(next_ticket(&board, &[]).unwrap().id, id(2), "the dependent unblocked");
    match retire("/repo", &id(1), worktree_of(&board).as_deref(), false) {
        Retirement::Remove(tasks) => {
            assert_eq!(tasks[0].call.args, vec!["worktree", "remove", PATH]);
            assert_eq!(tasks[1].call.args, vec!["worktree", "prune"]);
            assert_eq!(tasks.len(), 2, "the branch is left alone");
        }
        other => panic!("{other:?}"),
    }
}

#[test]
fn a_discarded_ticket_loses_its_worktree_too() {
    let mut s = scratch();
    work_k1_to_review(&mut s);
    apply(&mut s, None, Op::DiscardTicket { id: id(1), reason: "superseded".into() }).unwrap();
    let board = s.read_board().unwrap();
    assert!(matches!(retire("/repo", &id(1), worktree_of(&board).as_deref(), false), Retirement::Remove(_)));
}

#[test]
fn a_dirty_worktree_survives_landing_and_the_card_says_so() {
    let mut s = scratch();
    work_k1_to_review(&mut s);
    assert_eq!(swept(&mut s, true), 1, "a stubborn worktree must never block the landing");
    let board = s.read_board().unwrap();
    match retire("/repo", &id(1), worktree_of(&board).as_deref(), true) {
        Retirement::Keep(note) => apply(&mut s, None, note).map(|_| ()).unwrap(),
        other => panic!("{other:?}"),
    }
    let board = s.read_board().unwrap();
    let k1 = board.ticket(&id(1)).unwrap();
    assert!(matches!(k1.column, Column::Done { discarded: false, .. }), "the ticket still landed");
    let note = k1.notes.last().unwrap();
    assert_eq!(note.author.as_deref(), Some("kanban"));
    assert!(note.text.contains("uncommitted changes"), "{note:?}");
    assert!(note.text.contains(PATH), "the note must name the path: {note:?}");
}

#[test]
fn a_dirty_worktree_is_reported_so_the_close_out_move_can_refuse() {
    let mut s = scratch();
    apply(&mut s, None, Op::Claim { id: id(1), agent: assistant() }).unwrap();
    let stamp = Op::StampWorktree { id: id(1), branch: BRANCH.into(), path: PATH.into() };
    apply(&mut s, None, stamp).unwrap();
    let path = worktree_of(&s.read_board().unwrap());
    assert!(dirty_worktree(path.clone(), Some("")).is_none(), "a fresh worktree is clean");
    assert_eq!(dirty_worktree(path.clone(), Some("?? uncommitted.txt")).as_deref(), Some(PATH));
    assert!(dirty_worktree(path, Some("")).is_none(), "committing clears the way to review");
    assert!(dirty_worktree(None, None).is_none());
}

#[test]
fn auto_merge_lands_by_ancestry_while_the_branch_is_still_alive() {
    let mut s = scratch();
    work_k1_to_review(&mut s);
    assert_eq!(swept(&mut s, true), 1);
    let board = s.read_board().unwrap();
    let k1 = board.ticket(&id(1)).unwrap();
    assert!(matches!(k1.column, Column::Done { discarded: false, .. }));
    assert!(k1.notes.last().unwrap().text.contains("merged into main"), "{:?}", k1.notes);
    assert!(!blocked(board.ticket(&id(2)).unwrap(), &board));
    assert_eq!(next_ticket(&board, &[]).unwrap().id.0, "K-2", "the dependent unblocked");
}

#[test]
fn auto_merge_that_deletes_the_branch_too_early_strands_the_ticket_in_review() {
    let mut s = scratch();
    work_k1_to_review(&mut s);
    let board = s.read_board().unwrap();
    let step = sweep(&board, "main", &vec!["main".into()], &vec![], &vec![]);
    assert!(matches!(step, Sweep::Done(l) if l.is_empty()), "nothing left in the repo proves it");
    assert!(blocked(board.ticket(&id(2)).unwrap(), &board), "the dependent stays blocked");
}
