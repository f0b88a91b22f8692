use claude_kanban::store::model::{Board, Column, ColumnId, ColumnMeta, Epic, EpicId, Status, Ticket, TicketId};
use claude_kanban::store::validate::validate;

fn ticket(id: &str, deps: &[&str]) -> Ticket {
    Ticket {
        id: TicketId(id.into()),
        title: id.into(),
        epic: None,
        status: Status::Ready,
        body: String::new(),
        labels: vec![],
        model: None,
        effort: None,
        auto_merge: false,
        depends_on: deps.iter().map(|d| TicketId((*d).into())).collect(),
        notes: vec![],
        external: None,
        pr: None,
        changes_requested: false,
        accepted: false,
        landing_blocked: false,
        column: Column::Todo,
    }
}

fn board_with(tickets: Vec<Ticket>) -> Board {
    Board { tickets, ..Board::empty() }
}

#[test]
fn the_empty_board_is_valid() {
    assert!(validate(&Board::empty()).is_ok());
}

#[test]
fn missing_column_metadata_is_rejected() {
    let mut board = Board::empty();
    board.columns.retain(|c| c.id != ColumnId::Doing);
    let problems = validate(&board).unwrap_err();
    assert!(problems.iter().any(|p| p.contains("missing metadata for 'doing'")), "{problems:?}");
}

#[test]
fn duplicate_column_metadata_is_rejected() {
    let mut board = Board::empty();
    board.columns.push(ColumnMeta { id: ColumnId::Todo, title: "Again".into() });
    assert!(validate(&board).unwrap_err().iter().any(|p| p.contains("'todo' defined 2 times")));
}

#[test]
fn duplicate_ids_are_rejected() {
    let board = board_with(vec![ticket("K-1", &[]), ticket("K-1", &[])]);
    assert!(validate(&board).unwrap_err().iter().any(|p| p.contains("duplicate id 'K-1'")));
}

#[test]
fn dangling_epic_and_dependency_references_are_rejected() {
    let mut board = board_with(vec![ticket("K-1", &["K-99"])]);
    board.tickets[0].epic = Some(EpicId("EP-9".into()));
    let problems = validate(&board).unwrap_err();
    assert!(problems.iter().any(|p| p.contains("epic 'EP-9' does not exist")), "{problems:?}");
    assert!(problems.iter().any(|p| p.contains("depends_on 'K-99' does not exist")), "{problems:?}");
}

#[test]
fn self_dependency_is_rejected() {
    let board = board_with(vec![ticket("K-1", &["K-1"])]);
    assert!(validate(&board).unwrap_err().iter().any(|p| p.contains("depends on itself")));
}

#[test]
fn a_cycle_is_rejected_and_names_its_members() {
    let board =
        board_with(vec![ticket("K-1", &["K-2"]), ticket("K-2", &["K-3"]), ticket("K-3", &["K-1"]), ticket("K-4", &[])]);
    let problems = validate(&board).unwrap_err();
    let cycle = problems.iter().find(|p| p.contains("cycle")).expect("cycle reported");
    assert!(cycle.contains("K-1") && cycle.contains("K-2") && cycle.contains("K-3"), "{cycle}");
    assert!(!cycle.contains("K-4"), "K-4 is not on the cycle: {cycle}");
}

#[test]
fn a_diamond_dependency_is_fine() {
    let board = board_with(vec![
        ticket("K-1", &[]),
        ticket("K-2", &["K-1"]),
        ticket("K-3", &["K-1"]),
        ticket("K-4", &["K-2", "K-3"]),
    ]);
    assert!(validate(&board).is_ok());
}

#[test]
fn a_valid_epic_reference_passes() {
    let mut board = board_with(vec![ticket("K-1", &[])]);
    board.epics.push(Epic {
        id: EpicId("EP-1".into()),
        title: "e".into(),
        color: "#fff".into(),
        status: Status::Ready,
        body: String::new(),
        auto_merge: false,
    });
    board.tickets[0].epic = Some(EpicId("EP-1".into()));
    assert!(validate(&board).is_ok());
}

#[test]
fn a_cycle_is_reported_with_all_that_leads_to_it_and_nothing_else() {
    let tickets = vec![ticket("K-1", &["K-2"]), ticket("K-2", &["K-1"]), ticket("K-3", &["K-1"]), ticket("K-4", &[])];
    let problems = validate(&board_with(tickets)).unwrap_err();
    assert_eq!(problems, vec!["depends_on cycle involving: K-1, K-2, K-3"]);
    let chain = vec![ticket("K-1", &["K-2"]), ticket("K-2", &["K-3"]), ticket("K-3", &[])];
    assert!(validate(&board_with(chain)).is_ok());
}
