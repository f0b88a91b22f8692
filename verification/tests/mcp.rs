use claude_kanban::config::Config;
use claude_kanban::mcp::{
    kanban_bind_external, kanban_claim, kanban_create_epic, kanban_create_ticket, kanban_move, kanban_note, kanban_refine,
    kanban_release, kanban_worktree_finish, kanban_worktree_start, parse_effort, parse_status_or, shape, tool_error, Action,
    BindExternalParams, BoardParams, ClaimParams, CreateEpicParams, CreateTicketParams, KanbanServer, MoveParams,
    NewTicketParam, NoteParams, RefineParams, ReleaseParams, Shaped, ToolError, WorktreeFinishParams, WorktreeStartParams,
};
use claude_kanban::name::assistant;
use claude_kanban::ops::{apply, Op, OpError};
use claude_kanban::store::derive::{board_view, BoardView};
use claude_kanban::store::model::{Board, Column, ColumnId, Effort, Epic, EpicId, External, Status, Ticket, TicketId};
use claude_kanban::store::Store;
use claude_kanban::time::Timestamp;

const NOW: Timestamp = Timestamp { secs: 1_700_000_000, nanos: 0 };

fn ticket(id: &str, epic: &str, column: Column) -> Ticket {
    Ticket {
        id: TicketId(id.into()),
        title: id.into(),
        epic: Some(EpicId(epic.into())),
        status: Status::Ready,
        body: String::new(),
        labels: vec![],
        model: None,
        effort: None,
        auto_merge: false,
        depends_on: vec![],
        notes: vec![],
        external: None,
        pr: None,
        changes_requested: false,
        accepted: false,
        landing_blocked: false,
        column,
    }
}

fn done(discarded: bool) -> Column {
    Column::Done { branch: None, completed_at: NOW, discarded }
}

fn epic(id: &str) -> Epic {
    Epic {
        id: EpicId(id.into()),
        title: id.into(),
        color: "#fff".into(),
        status: Status::Ready,
        body: String::new(),
        auto_merge: false,
    }
}

/// Tickets in all four columns, one of the done ones discarded. EP-1 spans the board (derived column `doing`);
/// EP-2's tickets are all done, so its derived column is `done` — the case the default shape must not eat.
fn view() -> BoardView {
    let mut board = Board::empty();
    board.version = 216;
    board.epics = vec![epic("EP-1"), epic("EP-2")];
    board.tickets = vec![
        ticket("K-1", "EP-1", Column::Todo),
        ticket("K-2", "EP-1", Column::Doing { owner: assistant(), branch: None }),
        ticket("K-3", "EP-1", Column::Review { branch: None }),
        ticket("K-4", "EP-1", done(false)),
        ticket("K-5", "EP-2", done(false)),
        ticket("K-6", "EP-2", done(true)),
    ];
    board_view(&board, &[], &vec![], NOW)
}

fn ids(shaped: &Shaped) -> Vec<&str> {
    shaped.view.tickets.iter().map(|t| t.ticket.id.0.as_str()).collect()
}

#[test]
fn the_default_board_read_omits_done_tickets_and_says_so() {
    let shaped = shape(view(), None, false);
    assert_eq!(ids(&shaped), ["K-1", "K-2", "K-3"], "the default shape carries todo/doing/review only");
    let summary = shaped.done.unwrap();
    assert_eq!(summary.count, 3, "the summary counts every done ticket, discarded included");
    assert_eq!(summary.landed, ["K-4", "K-5"]);
    assert_eq!(summary.discarded, ["K-6"]);
    assert!(summary.note.contains("include_done=true"), "the summary must name the way back to the full text");
}

#[test]
fn include_done_returns_the_whole_board_unshaped() {
    let shaped = shape(view(), None, true);
    assert_eq!(format!("{:?}", shaped.view), format!("{:?}", view()), "include_done is the unchanged board");
    assert!(shaped.done.is_none(), "nothing was omitted, so there is nothing to summarize");
}

#[test]
fn an_explicit_column_is_honoured_verbatim_and_adds_no_summary() {
    let got: Vec<(Vec<String>, bool)> = ColumnId::ALL
        .iter()
        .map(|&col| {
            let shaped = shape(view(), Some(col), false);
            (ids(&shaped).iter().map(ToString::to_string).collect(), shaped.done.is_some())
        })
        .collect();
    let want = [vec!["K-1"], vec!["K-2"], vec!["K-3"], vec!["K-4", "K-5", "K-6"]]
        .map(|ids| (ids.iter().map(ToString::to_string).collect::<Vec<_>>(), false));
    assert_eq!(got, want.to_vec(), "each column returns exactly its own tickets and never a done summary");
}

#[test]
fn a_discarded_done_ticket_is_listed_apart_from_landed_ones() {
    let summary = shape(view(), None, false).done.unwrap();
    assert!(summary.discarded.contains(&"K-6".to_string()), "a discarded ticket is still done and still reported");
    assert!(!summary.landed.contains(&"K-6".to_string()), "but never as landed");
}

#[test]
fn the_version_is_the_boards_version_whatever_the_shape() {
    let shapes = [shape(view(), None, false), shape(view(), None, true), shape(view(), Some(ColumnId::Todo), false)];
    let versions: Vec<u64> = shapes.iter().map(|s| s.view.version).collect();
    assert_eq!(versions, [216; 3]);
}

#[test]
fn epics_survive_the_default_shape() {
    let shaped = shape(view(), None, false);
    let epics: Vec<&str> = shaped.view.epics.iter().map(|e| e.epic.id.0.as_str()).collect();
    assert_eq!(epics, ["EP-1", "EP-2"], "epics are never filtered — a derived column of done is legitimate");
    assert_eq!(shaped.view.epics[1].column, ColumnId::Done, "and EP-2 is exactly that case");
}

fn server() -> KanbanServer {
    let mut store = Store::at(".kanban");
    store.init().unwrap();
    KanbanServer { store }
}

fn new_ticket(title: &str, status: Option<&str>, expected_version: u64) -> CreateTicketParams {
    CreateTicketParams {
        title: title.into(),
        body: None,
        epic: None,
        labels: None,
        model: None,
        effort: None,
        depends_on: None,
        status: status.map(str::to_owned),
        expected_version,
    }
}

fn part(title: &str, depends_on: Option<Vec<String>>) -> NewTicketParam {
    NewTicketParam { title: title.into(), body: None, labels: None, model: None, effort: None, depends_on, epic: None }
}

#[test]
fn a_session_reads_claims_and_recovers_from_conflicts() {
    let mut s = server();
    let p = new_ticket("From an agent", Some("ready"), 0);
    let created = s.apply(Some(0), kanban_create_ticket(p).unwrap()).unwrap();
    assert_eq!(created.created_ids, ["K-1"]);
    assert_eq!(created.version, 1);

    let all = BoardParams { column: None, include_done: None };
    let board = s.kanban_board(&all, &Config::default(), &vec![], NOW).unwrap();
    assert_eq!(board.shaped.view.tickets[0].ticket.title, "From an agent");
    assert_eq!((board.max_workers, board.idle_time), (1, 300));
    let config = Config { max_workers: Some(2), idle_time: Some(60), ..Config::default() };
    let board = s.kanban_board(&all, &config, &vec![], NOW).unwrap();
    assert_eq!((board.max_workers, board.idle_time), (2, 60));

    let next = s.kanban_next().unwrap();
    assert_eq!(next.version, 1);
    let (t, action) = next.offer.unwrap();
    assert_eq!((t.id.0.as_str(), action), ("K-1", Action::Implement));
    let claim = kanban_claim(ClaimParams { ticket: "K-1".into(), agent: None, expected_version: 1 });
    assert!(matches!(&claim, Op::Claim { agent, .. } if *agent == assistant()));
    s.apply(Some(1), claim).unwrap();
    assert!(s.kanban_next().unwrap().offer.is_none());

    let to_done = MoveParams { ticket: "K-1".into(), to: "done".into(), position: None, branch: None, expected_version: 0 };
    let conflict = s.apply(Some(0), kanban_move(to_done, None).unwrap()).unwrap_err();
    assert!(matches!(&conflict, ToolError::Tool(text) if text.contains("expected_version=2")), "{conflict:?}");

    let vetted = s.apply(Some(2), kanban_create_ticket(new_ticket("Needs vetting", None, 2)).unwrap()).unwrap();
    assert_eq!(vetted.created_ids, ["K-2"]);
    let board = s.store.read_board().unwrap();
    assert_eq!(board.ticket(&TicketId("K-2".into())).unwrap().status, Status::Review);

    let refine = RefineParams {
        target: "K-2".into(),
        title: None,
        body: "# Real spec".into(),
        split_tickets: Some(vec![part("part one", None), part("part two", Some(vec!["new:0".into()]))]),
        split_epics: None,
        expected_version: 3,
    };
    let refined = s.apply(Some(3), kanban_refine(refine).unwrap()).unwrap();
    assert_eq!(refined.created_ids, ["K-3", "K-4"]);
}

/// One landed ticket with a fat spec and a progress log, and one live ticket.
fn seeded() -> KanbanServer {
    let mut s = server();
    let create = |title: &str, body: String| Op::CreateTicket {
        title: title.into(),
        body,
        epic: None,
        labels: vec![],
        depends_on: vec![],
        status: Status::Ready,
        model: None,
        effort: None,
        auto_merge: false,
    };
    let k1 = TicketId("K-1".into());
    let note = |text: &str| Op::AddNote { id: k1.clone(), text: text.into(), author: Some(assistant()) };
    let fat = "## Refined spec\n".to_owned() + &"every decision, recorded. ".repeat(600);
    apply(&mut s.store, None, create("landed work", fat)).unwrap();
    apply(&mut s.store, None, note("claimed it, starting on the parser")).unwrap();
    apply(&mut s.store, None, note("parser done, wiring the views up next")).unwrap();
    let to_done = Op::MoveTicket { id: k1.clone(), to: ColumnId::Done, position: None, owner: None, branch: None };
    apply(&mut s.store, None, to_done).unwrap();
    apply(&mut s.store, None, create("still to do", "short".into())).unwrap();
    s
}

fn read(s: &KanbanServer, column: Option<&str>, include_done: Option<bool>) -> Shaped {
    let p = BoardParams { column: column.map(str::to_owned), include_done };
    s.kanban_board(&p, &Config::default(), &vec![], NOW).unwrap().shaped
}

#[test]
fn kanban_board_omits_done_by_default_and_returns_it_on_request() {
    let s = seeded();
    let default = read(&s, None, None);
    assert_eq!(ids(&default), ["K-2"], "the default read carries only unfinished work");
    let summary = default.done.as_ref().unwrap();
    assert_eq!(summary.count, 1, "the summary accounts for the omitted ticket");
    assert_eq!(summary.landed, ["K-1"], "a plain move to done lands it, so it can unblock dependents");
    assert!(summary.discarded.is_empty());
    assert!(summary.note.contains("include_done=true"), "the summary must name the way back");

    let full = read(&s, None, Some(true));
    let mut restored = ids(&full);
    restored.sort();
    assert_eq!(restored, ["K-1", "K-2"], "include_done restores the done ticket");
    let landed = full.view.tickets.iter().find(|t| t.ticket.id.0 == "K-1").unwrap();
    assert!(landed.ticket.body.contains("Refined spec"), "and its body comes back whole");
    assert_eq!(landed.ticket.notes.len(), 2, "notes too");
    assert!(full.done.is_none(), "nothing was omitted, so there is no summary");

    let column = read(&s, Some("done"), None);
    assert_eq!(ids(&column), ["K-1"], "asking for the done column answers it verbatim");
    assert!(column.view.tickets[0].ticket.body.contains("Refined spec"));
    assert!(column.done.is_none(), "one column was asked for, so no summary is bolted on");
    assert_eq!(default.view.version, full.view.version, "version is the board's, not the subset's");
}

#[test]
fn the_default_board_read_is_dramatically_smaller() {
    let s = seeded();
    let (small, big) = (format!("{:?}", read(&s, None, None)).len(), format!("{:?}", read(&s, None, Some(true))).len());
    assert!(small * 10 < big, "the default read must be an order of magnitude smaller than the full board: {small} vs {big}");
}

#[test]
fn an_unknown_column_is_a_parameter_error() {
    let p = BoardParams { column: Some("nowhere".into()), include_done: None };
    let e = server().kanban_board(&p, &Config::default(), &vec![], NOW).err().unwrap();
    assert_eq!(e, ToolError::Params("'nowhere' is not a column (todo/doing/review/done)".into()));
    let e = kanban_move(
        MoveParams { ticket: "K-1".into(), to: "nowhere".into(), position: None, branch: None, expected_version: 0 },
        None,
    );
    assert_eq!(e.err().unwrap(), ToolError::Params("'nowhere' is not a column (todo/doing/review/done)".into()));
}

#[test]
fn a_stub_is_offered_for_refinement() {
    let mut s = server();
    s.apply(None, kanban_create_ticket(new_ticket("idea", Some("stub"), 0)).unwrap()).unwrap();
    let (_, action) = s.kanban_next().unwrap().offer.unwrap();
    assert_eq!(action.as_str(), "refine");
    assert_eq!(Action::Implement.as_str(), "implement");
}

#[test]
fn closing_out_is_refused_while_the_worktree_is_dirty() {
    let p = |to: &str| MoveParams {
        ticket: "K-1".into(),
        to: to.into(),
        position: Some(0),
        branch: Some("k-1/x".into()),
        expected_version: 0,
    };
    assert_eq!(
        kanban_move(p("review"), Some("/wt/K-1")).err().unwrap(),
        ToolError::Tool(
            "K-1's worktree at /wt/K-1 has uncommitted changes — commit them, then move it to review".into()
        )
    );
    assert!(matches!(kanban_move(p("doing"), Some("/wt/K-1")), Ok(Op::MoveTicket { to: ColumnId::Doing, .. })));
    assert!(matches!(kanban_move(p("review"), None),
        Ok(Op::MoveTicket { to: ColumnId::Review, branch: Some(b), position: Some(0), owner: None, .. }) if b == "k-1/x"));
}

#[test]
fn parameters_are_read_strictly() {
    assert_eq!(parse_status_or(None, Status::Review).unwrap(), Status::Review);
    assert_eq!(parse_status_or(Some("stub"), Status::Review).unwrap(), Status::Stub);
    assert!(matches!(parse_status_or(Some("later"), Status::Review), Err(ToolError::Params(_))));
    assert_eq!(parse_effort(&None).unwrap(), None);
    assert_eq!(parse_effort(&Some("high".into())).unwrap(), Some(Effort::High));
    assert!(matches!(parse_effort(&Some("huge".into())), Err(ToolError::Params(_))));
    let mut p = new_ticket("t", None, 0);
    p.effort = Some("huge".into());
    assert!(matches!(kanban_create_ticket(p), Err(ToolError::Params(_))));
    let e = CreateEpicParams { title: "e".into(), color: None, body: None, status: Some("no".into()), expected_version: 0 };
    assert!(matches!(kanban_create_epic(e), Err(ToolError::Params(_))));
    let e = CreateEpicParams { title: "e".into(), color: None, body: None, status: None, expected_version: 0 };
    assert!(matches!(kanban_create_epic(e), Ok(Op::CreateEpic { title, .. }) if title == "e"));
}

#[test]
fn the_remaining_tools_are_plain_operations() {
    assert!(matches!(kanban_release(ReleaseParams { ticket: "K-1".into(), expected_version: 0 }),
        Op::Release { id } if id.0 == "K-1"));
    let note = kanban_note(NoteParams { ticket: "K-1".into(), text: "hi".into(), agent: None, expected_version: 0 });
    assert!(matches!(note, Op::AddNote { author: Some(a), text, .. } if a == assistant() && text == "hi"));
    let bind = |number, provider: Option<&str>, kind: Option<&str>| BindExternalParams {
        ticket: "K-1".into(),
        provider: provider.map(str::to_owned),
        kind: kind.map(str::to_owned),
        number,
        expected_version: 0,
    };
    assert!(matches!(kanban_bind_external(bind(Some(4), Some("github"), Some("issue"))),
        Ok(Op::BindExternal { external: Some(e), .. }) if e == External::github_issue(4)));
    assert!(matches!(kanban_bind_external(bind(None, None, None)), Ok(Op::BindExternal { external: None, .. })));
    assert_eq!(
        kanban_bind_external(bind(Some(4), None, None)).err().unwrap(),
        ToolError::Params("provider, kind, and number must be given together (or all omitted to unbind)".into())
    );
    let start = WorktreeStartParams { ticket: "K-1".into(), slug: Some("s".into()), base: None };
    let (id, opts) = kanban_worktree_start(start);
    assert_eq!((id.0.as_str(), opts.slug.as_deref(), opts.no_sparse), ("K-1", Some("s"), false));
    let end = WorktreeFinishParams { ticket: "K-1".into(), force_discard: None, merge: Some(true) };
    let (id, force, merge) = kanban_worktree_finish(end);
    assert_eq!((id.0.as_str(), force, merge), ("K-1", false, true));
}

#[test]
fn refusals_are_told_in_the_boards_words() {
    let e = OpError::Invalid("no".into());
    assert_eq!(tool_error(&e), ToolError::Tool(e.to_string()));
}
