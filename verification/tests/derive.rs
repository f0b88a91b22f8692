use claude_kanban::name::assistant;
use claude_kanban::store::claims::{Claim, ClaimKind};
use claude_kanban::store::derive::{auto_merge, blocked, board_view, epic_column, ineligible, next_ticket};
use claude_kanban::store::model::{Board, Column, ColumnId, Epic, EpicId, External, Status, Ticket, TicketId};
use claude_kanban::time::Timestamp;

const NOW: Timestamp = Timestamp { secs: 1_700_000_000, nanos: 0 };

fn ticket(id: &str, column: Column) -> Ticket {
    Ticket {
        id: TicketId(id.into()),
        title: id.into(),
        epic: Some(EpicId("EP-1".into())),
        status: Status::Ready,
        body: String::new(),
        labels: vec![],
        model: None,
        effort: None,
        auto_merge: false,
        depends_on: vec![],
        notes: vec![],
        external: None,
        pr: None,
        changes_requested: false,
        accepted: false,
        landing_blocked: false,
        column,
    }
}

fn done() -> Column {
    Column::Done { branch: None, completed_at: NOW, discarded: false }
}

fn doing() -> Column {
    Column::Doing { owner: assistant(), branch: None }
}

fn board(tickets: Vec<Ticket>) -> Board {
    let mut b = Board::empty();
    b.epics.push(Epic {
        id: EpicId("EP-1".into()),
        title: "e".into(),
        color: "#fff".into(),
        status: Status::Ready,
        body: String::new(),
        auto_merge: false,
    });
    b.tickets = tickets;
    b
}

fn claim(id: &str) -> Claim {
    Claim { ticket: TicketId(id.into()), agent: assistant(), since: NOW, path: None, kind: ClaimKind::Work }
}

#[test]
fn epic_column_follows_its_tickets() {
    let ep = EpicId("EP-1".into());
    assert_eq!(epic_column(&ep, &board(vec![])), ColumnId::Todo, "empty epic is todo");
    assert_eq!(epic_column(&ep, &board(vec![ticket("K-1", Column::Todo)])), ColumnId::Todo);
    assert_eq!(
        epic_column(&ep, &board(vec![ticket("K-1", doing()), ticket("K-2", Column::Todo)])),
        ColumnId::Doing
    );
    assert_eq!(
        epic_column(&ep, &board(vec![ticket("K-1", done()), ticket("K-2", Column::Todo)])),
        ColumnId::Doing,
        "one done + one todo = in progress"
    );
    assert_eq!(epic_column(&ep, &board(vec![ticket("K-1", done()), ticket("K-2", done())])), ColumnId::Done);
}

#[test]
fn blocked_tracks_dependency_completion() {
    let mut b = board(vec![ticket("K-1", Column::Todo), ticket("K-2", Column::Todo)]);
    b.tickets[1].depends_on = vec![TicketId("K-1".into())];
    assert!(blocked(&b.tickets[1], &b));
    b.tickets[0].column = done();
    assert!(!blocked(&b.tickets[1], &b));
}

#[test]
fn next_ticket_takes_the_highest_eligible_and_skips_the_rest() {
    let mut b = board(vec![
        ticket("K-1", Column::Todo),
        ticket("K-2", Column::Todo),
        ticket("K-3", Column::Todo),
        ticket("K-4", Column::Todo),
        ticket("K-5", Column::Todo),
    ]);
    b.tickets[0].status = Status::Draft;
    b.tickets[1].depends_on = vec![TicketId("K-1".into())];
    b.tickets[3].external = Some(External::github_issue(1));
    let claims = vec![claim("K-3")];
    assert_eq!(next_ticket(&b, &claims).unwrap().id.0, "K-5");
}

#[test]
fn ineligible_names_the_first_test_each_todo_ticket_failed() {
    let mut b = board(vec![
        ticket("K-1", Column::Todo),
        ticket("K-2", Column::Todo),
        ticket("K-3", Column::Todo),
        ticket("K-4", Column::Todo),
        ticket("K-5", Column::Todo),
        ticket("K-6", Column::Todo),
    ]);
    b.tickets[0].status = Status::Draft;
    b.tickets[1].depends_on = vec![TicketId("K-1".into()), TicketId("K-6".into())];
    b.tickets[3].external = Some(External::github_issue(1));
    b.tickets[5].status = Status::Review;
    let claims = vec![claim("K-3")];

    let why: Vec<(String, String)> = ineligible(&b, &claims).into_iter().map(|(id, why)| (id.0, why)).collect();
    assert_eq!(why.len(), 5, "only the eligible K-5 is absent: {why:?}");
    assert!(why[0].1.starts_with("draft"), "{why:?}");
    assert_eq!(why[1].1, "blocked by K-1, K-6", "both unmet dependencies, named");
    assert!(why[2].1 == format!("claimed by {}", assistant()), "{why:?}");
    assert!(why[3].1.starts_with("external"), "{why:?}");
    assert!(why[4].1.starts_with("status review"), "{why:?}");
    assert!(!why.iter().any(|(id, _)| id == "K-5"));

    b.tickets[0].status = Status::Ready;
    b.tickets[0].column = done();
    b.tickets[5].status = Status::Ready;
    b.tickets[5].column = Column::Done { branch: None, completed_at: NOW, discarded: true };
    let why = ineligible(&b, &claims);
    assert_eq!(why.iter().find(|(id, _)| id.0 == "K-2").unwrap().1, "blocked by K-6");
}

#[test]
fn next_ticket_offers_stubs_for_refinement() {
    let mut b = board(vec![ticket("K-1", Column::Todo), ticket("K-2", Column::Todo)]);
    b.tickets[0].status = Status::Stub;
    assert_eq!(next_ticket(&b, &[]).unwrap().id.0, "K-1", "a stub above a ready ticket wins — position is priority");
}

#[test]
fn next_ticket_respects_array_order() {
    let b = board(vec![ticket("K-9", Column::Todo), ticket("K-1", Column::Todo)]);
    assert_eq!(next_ticket(&b, &[]).unwrap().id.0, "K-9", "top of the column wins, not lowest id");
}

#[test]
fn auto_merge_is_the_ticket_flag_or_its_epics() {
    let cases = [(false, false, false), (true, false, true), (false, true, true), (true, true, true)];
    let got: Vec<bool> = cases
        .iter()
        .map(|&(on_ticket, on_epic, _)| {
            let mut b = board(vec![ticket("K-1", Column::Todo)]);
            b.tickets[0].auto_merge = on_ticket;
            b.epics[0].auto_merge = on_epic;
            auto_merge(&b.tickets[0], &b)
        })
        .collect();
    assert_eq!(got, cases.iter().map(|&(_, _, want)| want).collect::<Vec<_>>(), "ticket OR epic, and nothing else");
}

#[test]
fn auto_merge_without_an_epic_is_the_tickets_own_answer() {
    let mut b = board(vec![ticket("K-1", Column::Todo)]);
    b.tickets[0].epic = None;
    b.epics[0].auto_merge = true;
    assert!(!auto_merge(&b.tickets[0], &b));
    b.tickets[0].auto_merge = true;
    assert!(auto_merge(&b.tickets[0], &b));
}

#[test]
fn an_epics_flag_is_never_written_onto_its_tickets() {
    let mut b = board(vec![ticket("K-1", Column::Todo)]);
    b.epics[0].auto_merge = true;
    let id = TicketId("K-1".into());

    assert!(auto_merge(b.ticket(&id).unwrap(), &b), "the effective answer follows the epic");
    assert!(!b.ticket(&id).unwrap().auto_merge, "but the stored flag is untouched");
    assert!(
        board_view(&b, &[], &vec![], NOW).tickets[0].auto_merge_effective,
        "and the view carries the derived value"
    );

    b.epics[0].auto_merge = false;
    assert!(!auto_merge(b.ticket(&id).unwrap(), &b), "so clearing the epic takes the permission back from the ticket");
}

#[test]
fn the_derived_flag_does_not_collide_with_the_flattened_stored_one() {
    let mut b = board(vec![ticket("K-1", Column::Todo)]);
    b.tickets[0].auto_merge = true;
    let view = board_view(&b, &[], &vec![], NOW);
    assert_eq!(view.tickets[0].ticket.auto_merge, true, "the stored flag is itself");
    assert_eq!(view.tickets[0].auto_merge_effective, true, "and the derived one sits beside it under its own name");
}

#[test]
fn board_view_joins_claims_and_flags_missing_worktrees() {
    let b = board(vec![ticket("K-1", doing())]);
    let claims = vec![Claim { path: Some("/nonexistent/worktree/K-1".into()), ..claim("K-1") }];
    let gone = vec!["/nonexistent/worktree/K-1".to_string()];
    let view = board_view(&b, &claims, &gone, NOW);
    let shown = view.tickets[0].claim.as_ref().unwrap();
    assert!(shown.worktree_missing, "a vanished worktree must read as missing, not as live work");

    assert_eq!(view.tickets[0].ticket.id.0, "K-1");
    assert_eq!(shown.agent, assistant());
    assert_eq!(view.epics[0].column, ColumnId::Doing, "the derived epic column");

    let view = board_view(&b, &claims, &vec![], NOW);
    assert!(!view.tickets[0].claim.as_ref().unwrap().worktree_missing);
}
