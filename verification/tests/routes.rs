use claude_kanban::config::Config;
use claude_kanban::name::assistant;
use claude_kanban::ops::{apply, Op, OpError};
use claude_kanban::server::routes::{
    accept_ticket, add_note, client_version, create_epic, create_pr, create_ticket, csv, default_create_status, delete_epic,
    delete_ticket, discard_ticket, entries, epic_auto_merge, epic_status, move_ticket, opt, or_not_found, or_not_reviewable,
    raw_epic, raw_ticket, ready_for_handover, request_changes, ticket_auto_merge, ticket_status, update_epic, update_ticket,
    AppError, CreateEpicForm, CreateTicketForm, MoveForm, NoteForm, SettingsForm, StatusForm, UpdateEpicForm,
    UpdateTicketForm,
};
use claude_kanban::server::views::{detail, epic_detail, review, settings};
use claude_kanban::store::derive::blocked;
use claude_kanban::store::model::{Column, ColumnId, Effort, EpicId, External, Status, TicketId};
use claude_kanban::store::{Store, StoreError};
use claude_kanban::time::Timestamp;

const NOW: Timestamp = Timestamp { secs: 1_700_000_000, nanos: 0 };

fn test_app() -> Store {
    let mut store = Store::at(".kanban");
    store.init().unwrap();
    store
}

fn id(n: u32) -> TicketId {
    TicketId(format!("K-{n}"))
}

fn form(title: &str, status: &str) -> CreateTicketForm {
    CreateTicketForm {
        title: title.into(),
        body: String::new(),
        epic: String::new(),
        labels: String::new(),
        depends_on: String::new(),
        status: status.into(),
        model: String::new(),
        effort: String::new(),
        minesweeper: String::new(),
    }
}

fn seed_ticket(store: &mut Store, title: &str) {
    let mut f = form(title, "ready");
    f.body = "# Spec".into();
    f.labels = "ui".into();
    apply(store, None, create_ticket(f).unwrap()).unwrap();
}

fn to_review_with_branch(store: &mut Store, n: u32, branch: &str) {
    apply(store, None, Op::Claim { id: id(n), agent: assistant() }).unwrap();
    apply(store, None, Op::StampWorktree { id: id(n), branch: branch.into(), path: "/tmp/unused".into() }).unwrap();
    let op = Op::MoveTicket { id: id(n), to: ColumnId::Review, position: None, owner: None, branch: None };
    apply(store, None, op).unwrap();
}

#[test]
fn a_stale_version_conflicts_with_toast_and_corrective_refresh() {
    let mut store = test_app();
    seed_ticket(&mut store, "One");
    let e = apply(&mut store, Some(0), create_ticket(form("Stale", "draft")).unwrap()).unwrap_err();
    let answer = AppError::from_op(&e);
    assert_eq!(answer.status, 409);
    let headers: Vec<(&str, &str)> = answer.headers().iter().map(|h| (h.name, h.value)).collect();
    assert_eq!(
        headers,
        vec![("hx-retarget", "#toasts"), ("hx-reswap", "beforeend"), ("hx-trigger", "kanban:refresh-now")]
    );
    assert!(answer.message.contains("Board changed"), "{}", answer.message);
}

#[test]
fn each_refusal_has_its_status() {
    assert_eq!(AppError::from_op(&OpError::NotFound("K-9".into())).status, 404);
    assert_eq!(AppError::from_op(&OpError::Invalid("no".into())).status, 422);
    assert_eq!(AppError::from_op(&OpError::External(id(1))).status, 422);
    assert_eq!(AppError::from_op(&OpError::AlreadyClaimed { id: id(1), agent: "x".into() }).status, 409);
    let broken = OpError::Store(StoreError::NotInitialized(".kanban".into()));
    assert_eq!(AppError::from_op(&broken).status, 500);
    assert_eq!(AppError::from_store(&StoreError::NotInitialized(".kanban".into())).status, 500);
    assert_eq!(AppError::bad_request("no".into()).headers().len(), 2);
    assert_eq!(or_not_found(None::<u8>, "K-99").err().unwrap(), AppError::not_found("K-99"));
    assert_eq!(or_not_found(Some(3u8), "K-99").unwrap(), 3);
}

#[test]
fn mutations_flow_create_move_status_delete() {
    let mut store = test_app();
    let mut f = form("New one", "ready");
    f.body = "hello".into();
    apply(&mut store, Some(0), create_ticket(f).unwrap()).unwrap();
    let drag = move_ticket(id(1), MoveForm { to: "doing".into(), position: Some(0) }, "tester").unwrap();
    apply(&mut store, Some(1), drag).unwrap();
    let board = store.read_board().unwrap();
    match &board.tickets[0].column {
        Column::Doing { owner, .. } => assert_eq!(owner, "tester", "UI drags stamp the human as owner"),
        other => panic!("expected doing, got {other:?}"),
    }
    let status = ticket_status(id(1), StatusForm { status: "review".into() }).unwrap();
    apply(&mut store, Some(2), status).unwrap();
    assert_eq!(store.read_board().unwrap().tickets[0].status, Status::Review);
    apply(&mut store, Some(3), delete_ticket(id(1))).unwrap();
    assert!(store.read_board().unwrap().tickets.is_empty());
}

#[test]
fn the_create_modal_hand_to_minesweeper_checkbox_forces_ready() {
    let mut f = form("Ship it", "draft");
    f.minesweeper = "on".into();
    assert!(matches!(create_ticket(f).unwrap(), Op::CreateTicket { status: Status::Ready, .. }));
    assert!(matches!(create_ticket(form("Just a draft", "draft")).unwrap(), Op::CreateTicket { status: Status::Draft, .. }));
    assert!(matches!(ready_for_handover(id(1), "on"), Some(Op::SetTicketStatus { status: Status::Ready, .. })));
    assert!(ready_for_handover(id(1), "").is_none());
    assert_eq!(default_create_status(), "draft");
}

#[test]
fn bad_fields_are_refused() {
    assert_eq!(create_ticket(form("x", "later")).unwrap_err().status, 422);
    assert_eq!(
        move_ticket(id(1), MoveForm { to: "there".into(), position: None }, "me").unwrap_err().message,
        "'there' is not a column (todo/doing/review/done)"
    );
    assert_eq!(
        ticket_status(id(1), StatusForm { status: "later".into() }).unwrap_err().message,
        "'later' is not a status (draft/stub/review/ready)"
    );
    assert_eq!(epic_status(EpicId("EP-1".into()), StatusForm { status: "later".into() }).unwrap_err().status, 422);
    assert_eq!(client_version(Some("12")).unwrap(), 12);
    assert_eq!(
        client_version(Some("twelve")).unwrap_err().message,
        "missing or malformed X-Board-Version header"
    );
    assert!(client_version(None).is_err());
}

#[test]
fn fields_are_split_and_trimmed() {
    assert_eq!(csv(" a, ,b ,"), vec!["a", "b"]);
    assert_eq!(entries(" .env\n\ncerts/local, two.pem\n"), vec![".env", "certs/local, two.pem"]);
    assert_eq!(opt(String::new()), None);
    assert_eq!(opt("EP-1".into()).as_deref(), Some("EP-1"));
}

fn edit(model: &str, effort: &str) -> UpdateTicketForm {
    UpdateTicketForm {
        title: "hard one".into(),
        body: String::new(),
        epic: String::new(),
        labels: String::new(),
        depends_on: String::new(),
        model: model.into(),
        effort: effort.into(),
    }
}

#[test]
fn the_edit_form_round_trips_model_and_effort_and_refuses_a_bad_level() {
    let mut store = test_app();
    seed_ticket(&mut store, "hard one");
    apply(&mut store, Some(1), update_ticket(id(1), edit(" opus-4-8 ", "xhigh")).unwrap()).unwrap();
    let t = store.read_board().unwrap().tickets[0].clone();
    assert_eq!(t.model.as_deref(), Some("opus-4-8"), "free text, but trimmed");
    assert_eq!(t.effort, Some(Effort::Xhigh));
    apply(&mut store, Some(2), update_ticket(id(1), edit("", "")).unwrap()).unwrap();
    let t = store.read_board().unwrap().tickets[0].clone();
    assert_eq!((t.model, t.effort), (None, None));
    assert_eq!(update_ticket(id(1), edit("", "ludicrous")).unwrap_err().status, 422);
}

#[test]
fn the_auto_merge_toggle_flips_the_flag_and_an_ordinary_edit_form_save_leaves_it_alone() {
    let mut store = test_app();
    seed_ticket(&mut store, "lands itself");
    let toggle = ticket_auto_merge(&store.read_board().unwrap(), id(1)).unwrap();
    apply(&mut store, Some(1), toggle).unwrap();
    assert!(store.read_board().unwrap().tickets[0].auto_merge, "the click writes the ticket's own flag");
    apply(&mut store, None, update_ticket(id(1), edit("", "")).unwrap()).unwrap();
    let t = store.read_board().unwrap().tickets[0].clone();
    assert_eq!(t.title, "hard one", "the save landed");
    assert!(t.auto_merge, "and it left the one field it carries no control for untouched");
    let toggle = ticket_auto_merge(&store.read_board().unwrap(), id(1)).unwrap();
    apply(&mut store, None, toggle).unwrap();
    assert!(!store.read_board().unwrap().tickets[0].auto_merge, "a second click takes it back off");
    assert_eq!(ticket_auto_merge(&store.read_board().unwrap(), id(9)).unwrap_err().status, 404);
}

#[test]
fn deleting_an_epic_from_the_board_takes_its_tickets() {
    let mut store = test_app();
    let f = CreateEpicForm { title: "Auth".into(), body: String::new(), color: String::new(), status: "ready".into() };
    apply(&mut store, None, create_epic(f).unwrap()).unwrap();
    for title in ["Inside one", "Inside two"] {
        let mut f = form(title, "ready");
        f.epic = "EP-1".into();
        apply(&mut store, None, create_ticket(f).unwrap()).unwrap();
    }
    seed_ticket(&mut store, "Outside the epic");
    let toggle = epic_auto_merge(&store.read_board().unwrap(), EpicId("EP-1".into())).unwrap();
    apply(&mut store, None, toggle).unwrap();
    assert!(store.read_board().unwrap().epics[0].auto_merge, "the toggle flips the epic's own flag");
    let rename = UpdateEpicForm { title: "Login".into(), color: "#000".into(), body: "why".into() };
    apply(&mut store, None, update_epic(EpicId("EP-1".into()), rename)).unwrap();
    assert_eq!(raw_epic(&store.read_board().unwrap(), &EpicId("EP-1".into())).unwrap(), "why");
    apply(&mut store, None, delete_epic(EpicId("EP-1".into()))).unwrap();
    let board = store.read_board().unwrap();
    let left: Vec<&str> = board.tickets.iter().map(|t| t.title.as_str()).collect();
    assert_eq!(left, vec!["Outside the epic"], "the epic's tickets go with it, the outsider stays");
    assert!(board.epics.is_empty());
    assert!(epic_detail(&board, &EpicId("EP-1".into())).is_none());
}

#[test]
fn raw_markdown_is_the_body_or_not_found() {
    let mut store = test_app();
    seed_ticket(&mut store, "with body");
    let board = store.read_board().unwrap();
    assert_eq!(raw_ticket(&board, &id(1)).unwrap(), "# Spec");
    assert_eq!(raw_ticket(&board, &id(99)).unwrap_err().message, "K-99 not found");
    assert_eq!(raw_epic(&board, &EpicId("EP-9".into())).unwrap_err().status, 404);
}

#[test]
fn dragging_a_card_to_review_closes_it_out() {
    let mut store = test_app();
    seed_ticket(&mut store, "Dragged along");
    apply(&mut store, None, Op::Claim { id: id(1), agent: assistant() }).unwrap();
    let drag = move_ticket(id(1), MoveForm { to: "review".into(), position: Some(0) }, "tester").unwrap();
    apply(&mut store, Some(2), drag).unwrap();
    assert!(matches!(store.read_board().unwrap().tickets[0].column, Column::Review { .. }));
    assert!(store.read_claims().unwrap().is_empty(), "entering review drops the claim");
}

#[test]
fn the_review_pane_renders_for_a_review_ticket_and_not_otherwise() {
    let mut store = test_app();
    seed_ticket(&mut store, "Code complete");
    seed_ticket(&mut store, "Not started");
    to_review_with_branch(&mut store, 1, "k-1/done-ish");
    let board = store.read_board().unwrap();
    let pane = or_not_reviewable(review(&board, &id(1), None, false, None, true), &id(1)).unwrap();
    assert_eq!(pane.review.branch.as_deref(), Some("k-1/done-ish"));
    let shows = |n| detail(&board, &[], &id(n), false, false, &vec![], NOW).unwrap().ticket.can_review;
    assert!(shows(1) && !shows(2));
    let e = or_not_reviewable(review(&board, &id(2), None, false, None, true), &id(2)).err().unwrap();
    assert_eq!((e.status, e.message.as_str()), (422, "K-2 is not a review ticket to judge here"));
}

#[test]
fn an_external_review_ticket_gets_no_review_pane() {
    let mut store = test_app();
    seed_ticket(&mut store, "Delegated");
    to_review_with_branch(&mut store, 1, "k-1/elsewhere");
    apply(&mut store, None, Op::BindExternal { id: id(1), external: Some(External::github_issue(4)) }).unwrap();
    let board = store.read_board().unwrap();
    assert!(!detail(&board, &[], &id(1), false, false, &vec![], NOW).unwrap().ticket.can_review);
    assert!(review(&board, &id(1), None, false, None, true).is_none());
    let e = apply(&mut store, None, request_changes(id(1), "tester", "more".into())).unwrap_err();
    assert_eq!(e.to_string(), "K-1 is external — its verdict belongs on the delegate's issue");
}

#[test]
fn request_changes_sends_the_card_back_to_doing_with_the_comment_as_a_note() {
    let mut store = test_app();
    seed_ticket(&mut store, "Needs another pass");
    to_review_with_branch(&mut store, 1, "k-1/again");
    apply(&mut store, Some(4), request_changes(id(1), "tester", "the naming is off".into())).unwrap();

    let board = store.read_board().unwrap();
    let t = board.ticket(&id(1)).unwrap();
    assert_eq!(t.column.id(), ColumnId::Doing);
    assert!(t.changes_requested);
    assert_eq!(t.notes.last().unwrap().text, "changes requested: the naming is off");
    assert_eq!(t.notes.last().unwrap().author.as_deref(), Some("tester"), "the browser user owns the verdict");
    assert_eq!(t.column.branch(), Some("k-1/again"));
    assert!(detail(&board, &[], &id(1), false, false, &vec![], NOW).unwrap().ticket.changes_requested);

    apply(&mut store, None, Op::Claim { id: id(1), agent: assistant() }).unwrap();
    let close = Op::MoveTicket { id: id(1), to: ColumnId::Review, position: None, owner: None, branch: None };
    apply(&mut store, None, close).unwrap();
    assert!(!store.read_board().unwrap().tickets[0].changes_requested, "handing it in answers the request");

    seed_ticket(&mut store, "Second");
    to_review_with_branch(&mut store, 2, "k-2/x");
    let e = apply(&mut store, None, request_changes(id(2), "tester", "   ".into())).unwrap_err();
    assert_eq!(AppError::from_op(&e).status, 422, "a send-back with no spec for the next round is useless");
    seed_ticket(&mut store, "Third");
    let e = apply(&mut store, None, request_changes(id(3), "tester", "x".into())).unwrap_err();
    assert_eq!(e.to_string(), "K-3 is not in review — only code-complete work can be sent back");
    let e = apply(&mut store, None, request_changes(id(9), "tester", "x".into())).unwrap_err();
    assert!(matches!(e, OpError::NotFound(_)));
}

#[test]
fn accept_closes_the_card_as_done_kept_with_the_comment_as_a_note() {
    let mut store = test_app();
    seed_ticket(&mut store, "Good enough");
    let mut f = form("Waits on it", "ready");
    f.depends_on = "K-1".into();
    apply(&mut store, None, create_ticket(f).unwrap()).unwrap();
    to_review_with_branch(&mut store, 1, "k-1/good");
    for op in accept_ticket(id(1), "tester", "ship it") {
        apply(&mut store, None, op).unwrap();
    }
    let board = store.read_board().unwrap();
    let t = board.ticket(&id(1)).unwrap();
    assert!(matches!(t.column, Column::Done { discarded: false, .. }), "kept, not discarded: {:?}", t.column);
    assert_eq!(t.notes.last().unwrap().text, "ship it");
    assert_eq!(t.notes.last().unwrap().author.as_deref(), Some("tester"));
    assert!(!blocked(board.ticket(&id(2)).unwrap(), &board));
    assert_eq!(accept_ticket(id(1), "tester", "  ").len(), 1, "no comment, no note");
}

#[test]
fn discard_folds_the_comment_into_the_reason() {
    let mut store = test_app();
    seed_ticket(&mut store, "Superseded");
    to_review_with_branch(&mut store, 1, "k-1/gone");
    apply(&mut store, None, discard_ticket(id(1), "tester", "replaced by K-9")).unwrap();
    let note = store.read_board().unwrap().tickets[0].notes.last().unwrap().text.clone();
    assert_eq!(note, "discarded from the board by tester: replaced by K-9");
}

#[test]
fn the_bodyless_discard_post_still_works() {
    let mut store = test_app();
    seed_ticket(&mut store, "Old-style discard");
    to_review_with_branch(&mut store, 1, "k-1/old");
    apply(&mut store, None, discard_ticket(id(1), "tester", "")).unwrap();
    let note = store.read_board().unwrap().tickets[0].notes.last().unwrap().text.clone();
    assert_eq!(note, "discarded from the board by tester", "no comment, no colon");
    seed_ticket(&mut store, "Not there yet");
    let e = apply(&mut store, None, discard_ticket(id(2), "tester", "")).unwrap_err();
    assert_eq!(AppError::from_op(&e).status, 422);
}

#[test]
fn notes_carry_their_author() {
    assert!(matches!(add_note(id(1), NoteForm { text: "hi".into() }, "tester"),
        Op::AddNote { text, author: Some(a), .. } if text == "hi" && a == "tester"));
    assert!(matches!(create_pr(id(1), true, "u", "tester"), Op::AddNote { text, .. } if text == "PR created: u"));
    assert!(matches!(create_pr(id(1), false, "u", "tester"), Op::AddNote { text, .. } if text == "PR already open: u"));
}

fn posted() -> SettingsForm {
    SettingsForm {
        worktree_root: "/data/wt".into(),
        copy_to_worktrees: ".env\ncerts/local.pem".into(),
        max_workers: "3".into(),
        idle_time: String::new(),
        port: String::new(),
        main_branch: "trunk".into(),
        poll_interval: "0".into(),
        minesweeper: "on".into(),
        minesweeper_label: "tryFix".into(),
        minesweeper_flag_labels: "minesweeperFailed, broken".into(),
        models: "opus\nvenice/zai-org-glm-5-2".into(),
    }
}

#[test]
fn the_settings_pane_round_trips_the_config_and_refuses_garbage() {
    let config = posted().into_config().unwrap();
    assert_eq!(config.main_branch.as_deref(), Some("trunk"));
    assert_eq!(config.poll_interval, Some(0), "0 is stored verbatim — it is the off switch");
    assert_eq!(config.max_workers(), 3);
    assert_eq!(config.idle_time(), 300, "cleared field falls back to the default");
    assert_eq!(config.copy_to_worktrees, vec![".env", "certs/local.pem"]);
    assert!(config.port.is_none(), "empty port stays 'nobody chose'");
    assert!(config.minesweeper(), "the checkbox posted 'on'");
    assert_eq!(config.minesweeper_label(), "tryFix");
    assert_eq!(config.minesweeper_flag_labels(), vec!["minesweeperFailed", "broken"], "comma-separated input splits");
    assert_eq!(config.models, vec!["opus", "venice/zai-org-glm-5-2"], "newline-separated textarea splits");

    let pane = settings(&config, true);
    assert!(pane.saved);
    assert_eq!((pane.main_branch.as_str(), pane.poll_interval.as_str(), pane.idle_time.as_str()), ("trunk", "0", ""));

    let mut bad = posted();
    bad.max_workers = "lots".into();
    assert_eq!(bad.into_config().err().unwrap().status, 422);
    let mut bad = posted();
    bad.port = "70000".into();
    assert!(bad.into_config().is_err());

    let mut off = posted();
    off.minesweeper = String::new();
    off.models = String::new();
    let config = off.into_config().unwrap();
    assert!(!config.minesweeper(), "unchecked box means off");
    assert!(config.models.is_empty(), "an omitted models field clears the list");
    assert!(!settings(&Config::default(), false).minesweeper);
}
