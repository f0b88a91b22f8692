use claude_kanban::store::model::{
    migrate, Board, Column, ColumnId, ColumnMeta, Effort, Epic, EpicId, Status, Ticket, TicketId, CURRENT_SCHEMA,
};
use claude_kanban::time::Timestamp;

fn bare_ticket(id: &str) -> Ticket {
    Ticket {
        id: TicketId(id.into()),
        title: "t".into(),
        epic: None,
        status: Status::Ready,
        body: String::new(),
        labels: vec![],
        model: None,
        effort: None,
        auto_merge: false,
        depends_on: vec![],
        notes: vec![],
        external: None,
        pr: None,
        changes_requested: false,
        accepted: false,
        landing_blocked: false,
        column: Column::Todo,
    }
}

fn meta(id: ColumnId, title: &str) -> ColumnMeta {
    ColumnMeta { id, title: title.into() }
}

/// A board as the first schema had it: three columns, and a done ticket that was never discarded.
fn v1_board() -> Board {
    let mut k1 = bare_ticket("K-1");
    k1.title = "Old finished work".into();
    k1.column = Column::Done {
        branch: Some("k-1/old".into()),
        completed_at: Timestamp { secs: 1_784_020_320, nanos: 0 },
        discarded: false,
    };
    Board {
        schema: 1,
        version: 7,
        columns: vec![
            meta(ColumnId::Todo, "To do"),
            meta(ColumnId::Doing, "Doing"),
            meta(ColumnId::Done, "Done"),
        ],
        tickets: vec![k1],
        next_ticket_seq: 0,
        next_epic_seq: 0,
        ..Board::empty()
    }
}

#[test]
fn a_v1_board_migrates_in_memory() {
    let mut board = v1_board();
    assert_eq!(board.schema, 1, "absent schema means 1");
    assert!(migrate(&mut board).unwrap(), "the upgrade reports a change to persist");
    assert_eq!(board.schema, CURRENT_SCHEMA);
    let ids: Vec<ColumnId> = board.columns.iter().map(|c| c.id).collect();
    assert_eq!(ids, ColumnId::ALL, "review lands between doing and done");
    assert!(
        matches!(board.tickets[0].column, Column::Done { discarded: false, .. }),
        "old done stays done, not discarded"
    );
    assert!(!migrate(&mut board).unwrap(), "migrating twice is a no-op");
}

#[test]
fn a_newer_schema_is_refused_with_the_found_version() {
    let mut board = Board::empty();
    board.schema = 3;
    assert_eq!(migrate(&mut board), Err(3), "a future board must be refused, never misread");
}

#[test]
fn effort_round_trips_every_level_and_names_them_all_when_refusing() {
    for e in Effort::ALL {
        assert_eq!(e.as_str().parse::<Effort>().unwrap(), e, "FromStr inverts as_str");
        assert_eq!(Effort::parse(e.as_str()).unwrap(), e);
    }
    let err = "ludicrous".parse::<Effort>().unwrap_err();
    assert!(err.contains("ludicrous"), "the error quotes what was given: {err}");
    assert!(Effort::ALL.iter().all(|e| err.contains(e.as_str())), "and lists every level: {err}");
}

#[test]
fn id_minting_skips_nonconforming_ids_and_starts_at_one() {
    let mut board = Board::empty();
    assert_eq!(board.next_ticket_id().0, "K-1");
    assert_eq!(board.next_epic_id().0, "EP-1");
    board.tickets = ["K-2", "K-9", "custom-name", "K-x"].into_iter().map(bare_ticket).collect();
    assert_eq!(
        board.next_ticket_id().0,
        "K-10",
        "a hand-named ticket can't wedge minting, and the floor still clears K-9"
    );
}

#[test]
fn minting_advances_the_counter_and_deleting_never_winds_it_back() {
    let mut board = Board::empty();
    let ids: Vec<String> = (0..3).map(|_| board.mint_ticket_id().0).collect();
    assert_eq!(ids, ["K-1", "K-2", "K-3"]);
    board.tickets = ids.iter().map(|id| bare_ticket(id)).collect();

    board.tickets.retain(|t| t.id.0 != "K-3");
    assert_eq!(board.next_ticket_id().0, "K-4", "K-3 is spent — its branch and worktree may still exist");
    board.tickets.clear();
    assert_eq!(board.mint_ticket_id().0, "K-4", "emptying the board doesn't reset the numbering either");
}

#[test]
fn a_batch_mint_hands_out_consecutive_ids_before_any_ticket_lands() {
    let mut board = Board::empty();
    let ids: Vec<String> = board.mint_ticket_ids(3).into_iter().map(|id| id.0).collect();
    assert_eq!(ids, ["K-1", "K-2", "K-3"]);
    assert_eq!(board.mint_ticket_ids(2).into_iter().map(|id| id.0).collect::<Vec<_>>(), ["K-4", "K-5"]);
}

#[test]
fn a_pre_counter_board_mints_above_its_highest_ids() {
    let mut board = Board {
        tickets: ["K-1", "K-7", "K-4"].into_iter().map(bare_ticket).collect(),
        epics: vec![Epic {
            id: EpicId("EP-3".into()),
            title: "auth".into(),
            color: "#7c9cf5".into(),
            status: Status::Ready,
            body: String::new(),
            auto_merge: false,
        }],
        next_ticket_seq: 0,
        next_epic_seq: 0,
        ..Board::empty()
    };
    assert!(
        !migrate(&mut board).unwrap(),
        "reconciling the counters is not a schema change to persist eagerly"
    );
    assert_eq!(
        (board.next_ticket_seq, board.next_epic_seq),
        (8, 4),
        "floored above the highest id in use, not reset to one"
    );
    assert_eq!(board.next_ticket_id().0, "K-8");
    assert_eq!(board.next_epic_id().0, "EP-4");
}

#[test]
fn a_counter_behind_a_hand_added_id_is_floored_on_load() {
    let mut board = Board { tickets: vec![bare_ticket("K-99")], next_ticket_seq: 3, ..Board::empty() };
    assert!(!migrate(&mut board).unwrap());
    assert_eq!(board.next_ticket_seq, 100);
    assert_eq!(board.mint_ticket_id().0, "K-100");
}

#[test]
fn names_of_columns_and_statuses_read_back() {
    for c in ColumnId::ALL {
        assert_eq!(ColumnId::parse(c.as_str()).unwrap(), c);
    }
    for s in [Status::Draft, Status::Stub, Status::Review, Status::Ready] {
        assert_eq!(Status::parse(s.as_str()).unwrap(), s);
    }
    assert_eq!(ColumnId::parse("backlog").unwrap_err(), "'backlog' is not a column (todo/doing/review/done)");
    assert_eq!(Status::parse("shipped").unwrap_err(), "'shipped' is not a status (draft/stub/review/ready)");
}

#[test]
fn only_plain_digits_count_as_a_number() {
    let mut board = Board::empty();
    board.tickets = ["K-+5", "K-", "K-99999999999999999999"].into_iter().map(bare_ticket).collect();
    assert_eq!(board.next_ticket_id().0, "K-1");
}
