use claude_kanban::name::{assistant, product};
use claude_kanban::store::claims::{Claim, ClaimKind};
use claude_kanban::store::model::{
    Board, Column, ColumnId, ColumnMeta, Status, Ticket, TicketId,
};
use claude_kanban::store::{store_gitignore, Store, StoreError};
use claude_kanban::time::Timestamp;

const NOW: Timestamp = Timestamp { secs: 1_700_000_000, nanos: 0 };

fn scratch_store() -> Store {
    let mut store = Store::at(".kanban");
    store.init().unwrap();
    store
}

fn some_ticket(id: &str) -> Ticket {
    Ticket {
        id: TicketId(id.into()),
        title: "a ticket".into(),
        epic: None,
        status: Status::Ready,
        body: String::new(),
        labels: vec![],
        model: None,
        effort: None,
        auto_merge: false,
        depends_on: vec![],
        notes: vec![],
        external: None,
        pr: None,
        changes_requested: false,
        accepted: false,
        landing_blocked: false,
        column: Column::Todo,
    }
}

fn claim(id: &str) -> Claim {
    Claim { ticket: TicketId(id.into()), agent: assistant(), since: NOW, path: None, kind: ClaimKind::Work }
}

#[test]
fn reading_an_uninitialised_store_says_so() {
    let store = Store::at(".kanban");
    assert!(matches!(store.read_board(), Err(StoreError::NotInitialized(_))));
    assert!(store.read_claims().unwrap().is_empty(), "missing claims file reads as empty");
}

#[test]
fn mutate_bumps_the_version_and_persists() {
    let mut store = scratch_store();
    let ((), v) = store
        .mutate(None, |mut board, claims| {
            board.tickets.push(some_ticket("K-1"));
            Ok(((), board, claims))
        })
        .unwrap();
    assert_eq!(v, 1);
    let board = store.read_board().unwrap();
    assert_eq!(board.version, 1);
    assert_eq!(board.tickets.len(), 1);
}

#[test]
fn a_stale_expected_version_is_rejected() {
    let mut store = scratch_store();
    store.mutate(Some(0), |b, c| Ok(((), b, c))).unwrap();
    let err = store.mutate(Some(0), |b, c| Ok(((), b, c))).unwrap_err();
    assert!(matches!(err, StoreError::VersionConflict { expected: 0, actual: 1 }), "{err:?}");
    assert_eq!(err.to_string(), "board changed underneath this write: version is 1, expected 0");
}

#[test]
fn a_failing_mutation_leaves_both_files_byte_identical() {
    let mut store = scratch_store();
    let before = store.read_board().unwrap();
    let err = store
        .mutate(None, |_, _| Err::<((), Board, Vec<Claim>), _>(StoreError::NotInitialized("x".into())))
        .unwrap_err();
    assert!(matches!(err, StoreError::NotInitialized(_)));
    let err = store
        .mutate(None, |mut board, mut claims| {
            let mut t = some_ticket("K-1");
            t.depends_on = vec![TicketId("K-99".into())];
            board.tickets.push(t);
            claims.push(claim("K-1"));
            Ok(((), board, claims))
        })
        .unwrap_err();
    assert!(matches!(err, StoreError::Invalid { .. }), "{err:?}");
    assert_eq!(store.read_board().unwrap(), before);
    assert!(store.pending_claims().is_none(), "claims must not be written when the mutation fails");
}

#[test]
fn claims_are_only_rewritten_when_changed() {
    let mut store = scratch_store();
    store.mutate(None, |b, c| Ok(((), b, c))).unwrap();
    assert!(store.pending_claims().is_none(), "an untouched sidecar is not written");
    store
        .mutate(None, |board, mut claims| {
            claims.push(claim("K-1"));
            Ok(((), board, claims))
        })
        .unwrap();
    assert_eq!(store.read_claims().unwrap().len(), 1);
    assert_eq!(store.pending_claims().unwrap().len(), 1);
}

#[test]
fn hand_edited_garbage_fails_loudly_with_every_problem_listed() {
    let mut board = Board::empty();
    let mut t = some_ticket("K-1");
    t.depends_on = vec![TicketId("K-404".into())];
    t.epic = Some(claude_kanban::store::model::EpicId("EP-404".into()));
    board.tickets.push(t);
    let store = Store::loaded(".kanban", Some(board), vec![]);
    let msg = store.read_board().unwrap_err().to_string();
    assert!(msg.contains("K-404") && msg.contains("EP-404"), "all problems in one report: {msg}");
    assert!(msg.starts_with("invalid board in .kanban/board.json:\n  - "), "{msg}");
}

#[test]
fn init_refuses_to_run_twice_and_seeds_all_four_columns() {
    let mut store = scratch_store();
    let board = store.read_board().unwrap();
    assert_eq!(board.version, 0);
    assert_eq!(board.columns.len(), 4);
    assert!(matches!(store.init(), Err(StoreError::AlreadyExists(_))));
    assert!(store.pending_board().is_some());
}

#[test]
fn the_store_is_the_choice_else_the_main_working_trees_else_the_one_here() {
    assert_eq!(Store::resolve(Some("/x/board".into()), Some("/repo".into())).dir(), "/x/board");
    assert_eq!(Store::resolve(None, Some("/repo".into())).dir(), "/repo/.kanban");
    assert_eq!(Store::resolve(None, None).dir(), ".kanban");
}

#[test]
fn an_older_board_is_upgraded_as_one_mutation() {
    let board = Board {
        schema: 1,
        version: 7,
        columns: vec![
            ColumnMeta { id: ColumnId::Todo, title: "To do".into() },
            ColumnMeta { id: ColumnId::Doing, title: "Doing".into() },
            ColumnMeta { id: ColumnId::Done, title: "Done".into() },
        ],
        ..Board::empty()
    };
    let mut store = Store::loaded(".kanban", Some(board), vec![]);
    assert!(store.upgrade().unwrap());
    let written = store.pending_board().unwrap();
    assert_eq!((written.schema, written.version), (2, 8));
    let ids: Vec<ColumnId> = written.columns.iter().map(|c| c.id).collect();
    assert_eq!(ids, ColumnId::ALL);

    let mut current = Store::loaded(".kanban", Some(Board::empty()), vec![]);
    assert!(!current.upgrade().unwrap());
    assert!(current.pending_board().is_none());
    assert!(!Store::at(".kanban").upgrade().unwrap(), "nothing to upgrade without a board");
}

#[test]
fn a_newer_board_is_refused() {
    let board = Board { schema: 3, ..Board::empty() };
    let mut store = Store::loaded(".kanban", Some(board), vec![]);
    let err = store.upgrade().unwrap_err();
    assert_eq!(err.to_string(), ".kanban/board.json has schema 3, newer than this binary understands");
}

#[test]
fn every_error_names_its_file() {
    let parse = StoreError::Parse { path: ".kanban/board.json".into(), source: "expected value".into() };
    assert_eq!(parse.to_string(), "failed to parse .kanban/board.json: expected value");
    let io = StoreError::Io { path: ".kanban/board.json".into(), source: "denied".into() };
    assert_eq!(io.to_string(), ".kanban/board.json: denied");
    let none = StoreError::NotInitialized(".kanban/board.json".into());
    assert_eq!(none.to_string(), format!("no board at .kanban/board.json — run `{} init` first", product()));
    let twice = StoreError::AlreadyExists(".kanban/board.json".into());
    assert_eq!(twice.to_string(), ".kanban/board.json already exists — refusing to overwrite an existing board");
}

#[test]
fn runtime_files_stay_out_of_version_control() {
    let ignored = store_gitignore();
    assert!(ignored.starts_with(&format!("# {} runtime artifacts", product())));
    for name in [".lock", "*.tmp", "serve.pid", "claims.json", "land-state.json"] {
        assert!(ignored.lines().any(|l| l == name), "{name}");
    }
    assert!(!ignored.lines().any(|l| l == "board.json"));
    let store = Store::at("/repo/.kanban");
    assert_eq!(store.lock_path(), "/repo/.kanban/.lock");
    assert_eq!(store.land_state_path(), "/repo/.kanban/land-state.json");
    assert_eq!(store.claims_path(), "/repo/.kanban/claims.json");
}
