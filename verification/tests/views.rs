use claude_kanban::config::Config;
use claude_kanban::diff::parse;
use claude_kanban::name::assistant;
use claude_kanban::ops::{apply, EpicPatch, Op, TicketPatch};
use claude_kanban::server::docs::DocEntry;
use claude_kanban::server::views::{
    board, detail, detail_edit, diff, docs, effort_options, epic_detail, epic_edit, external_flag, page, pr_ctx, review,
    run_badge, status_badge, status_options, BoardTpl, CardCtx, Filters, ToastTpl,
};
use claude_kanban::store::claims::{Claim, ClaimKind};
use claude_kanban::store::derive::board_view;
use claude_kanban::store::model::{ColumnId, Effort, EpicId, External, PrRef, PrState, Status, TicketId};
use claude_kanban::store::Store;
use claude_kanban::time::Timestamp;

const NOW: Timestamp = Timestamp { secs: 1_784_289_600, nanos: 0 };

fn test_app() -> Store {
    let mut store = Store::at(".kanban");
    store.init().unwrap();
    store
}

fn id(n: u32) -> TicketId {
    TicketId(format!("K-{n}"))
}

fn seed_full(store: &mut Store, title: &str, body: &str, labels: &[&str], auto_merge: bool) {
    let op = Op::CreateTicket {
        title: title.into(),
        body: body.into(),
        epic: None,
        labels: labels.iter().map(|l| l.to_string()).collect(),
        depends_on: vec![],
        status: Status::Ready,
        model: None,
        effort: None,
        auto_merge,
    };
    apply(store, None, op).unwrap();
}

fn seed_ticket(store: &mut Store, title: &str) {
    seed_full(store, title, "# Spec", &["ui"], false);
}

fn seed_epic(store: &mut Store, title: &str, titles: &[&str]) -> EpicId {
    let op = Op::CreateEpic { title: title.into(), color: None, body: String::new(), status: Status::Ready, auto_merge: false };
    let epic = EpicId(apply(store, None, op).unwrap().created_ids[0].clone());
    for t in titles {
        seed_ticket(store, t);
        let newest = store.read_board().unwrap().tickets.last().unwrap().id.clone();
        let patch = TicketPatch { epic: Some(Some(epic.clone())), ..TicketPatch::default() };
        apply(store, None, Op::UpdateTicket { id: newest, patch }).unwrap();
    }
    epic
}

fn to_review_with_branch(store: &mut Store, n: u32, branch: &str) {
    apply(store, None, Op::Claim { id: id(n), agent: assistant() }).unwrap();
    apply(store, None, Op::StampWorktree { id: id(n), branch: branch.into(), path: "/tmp/unused".into() }).unwrap();
    let op = Op::MoveTicket { id: id(n), to: ColumnId::Review, position: None, owner: None, branch: None };
    apply(store, None, op).unwrap();
}

fn to_done_with_branch(store: &mut Store, n: u32, branch: &str) {
    to_review_with_branch(store, n, branch);
    let op = Op::MoveTicket { id: id(n), to: ColumnId::Done, position: None, owner: None, branch: None };
    apply(store, None, op).unwrap();
}

fn rendered(store: &Store, q: &str, heads: Option<&Vec<String>>) -> BoardTpl {
    let view = board_view(&store.read_board().unwrap(), &store.read_claims().unwrap(), &vec![], NOW);
    board(&view, &Filters { epic: String::new(), q: q.into() }, heads)
}

fn cards(b: &BoardTpl) -> Vec<&CardCtx> {
    b.columns.iter().flat_map(|c| c.cards.iter()).collect()
}

fn titles(b: &BoardTpl) -> Vec<&str> {
    cards(b).iter().map(|c| c.title.as_str()).collect()
}

#[test]
fn the_board_fragment_renders_seeded_tickets_with_the_version_stamp() {
    let mut store = test_app();
    seed_ticket(&mut store, "Visible on the board");
    let b = rendered(&store, "", None);
    assert_eq!(titles(&b), ["Visible on the board"]);
    assert_eq!(b.version, 1, "the fragment must carry the current version");
    assert!(b.draggable);
    let columns: Vec<ColumnId> = b.columns.iter().map(|c| c.id).collect();
    assert_eq!(columns, ColumnId::ALL.to_vec());
}

#[test]
fn filters_hide_cards_and_disable_dragging() {
    let mut store = test_app();
    seed_ticket(&mut store, "Labelled ui");
    seed_full(&mut store, "Unlabelled", "", &[], false);
    let b = rendered(&store, "label:ui", None);
    assert_eq!(titles(&b), ["Labelled ui"]);
    assert!(!b.draggable, "a filtered board must not reorder");
}

#[test]
fn the_search_bar_matches_free_text_across_every_column() {
    let mut store = test_app();
    for title in ["Alpha", "Beta", "Gamma", "Delta"] {
        seed_full(&mut store, title, "shares the phrase quantum ledger", &[], false);
    }
    seed_full(&mut store, "Epsilon", "about something else entirely", &[], false);
    apply(&mut store, None, Op::Claim { id: id(2), agent: assistant() }).unwrap();
    to_review_with_branch(&mut store, 3, "k-3/work");
    to_done_with_branch(&mut store, 4, "k-4/work");
    assert_eq!(titles(&rendered(&store, "quantum ledger", None)), ["Alpha", "Beta", "Gamma", "Delta"]);
}

#[test]
fn the_example_query_narrows_to_the_landed_ux_card() {
    let mut store = test_app();
    seed_full(&mut store, "Landed with the phrase", "realtime results as you type", &["UX"], false);
    seed_full(&mut store, "Discarded with the phrase", "realtime results as you type", &["UX"], false);
    seed_full(&mut store, "Still in review", "realtime results as you type", &["UX"], false);
    seed_full(&mut store, "Landed without the phrase", "batch results, overnight", &["UX"], false);
    to_done_with_branch(&mut store, 1, "k-1/work");
    to_review_with_branch(&mut store, 2, "k-2/work");
    apply(&mut store, None, Op::DiscardTicket { id: id(2), reason: "superseded".into() }).unwrap();
    to_review_with_branch(&mut store, 3, "k-3/work");
    to_done_with_branch(&mut store, 4, "k-4/work");
    let b = rendered(&store, "landed: true, label: ux, realtime results", None);
    assert_eq!(titles(&b), ["Landed with the phrase"]);
}

#[test]
fn a_blank_query_keeps_the_board_draggable() {
    let mut store = test_app();
    seed_ticket(&mut store, "Anything at all");
    for query in ["", "  ", ",,", " , ", "\"\""] {
        let b = rendered(&store, query, None);
        assert!(b.draggable, "{query:?} hides nothing, so the board must still drag");
        assert_eq!(titles(&b), ["Anything at all"]);
    }
    assert!(!rendered(&store, "label:ui", None).draggable, "a real query must stop the drag");
}

#[test]
fn the_auto_merge_filter_splits_the_board_both_ways() {
    let mut store = test_app();
    seed_full(&mut store, "Merges itself", "", &[], true);
    seed_full(&mut store, "Waits for a human", "", &[], false);
    assert_eq!(titles(&rendered(&store, "auto-merge:true", None)), ["Merges itself"]);
    assert_eq!(titles(&rendered(&store, "auto-merge:false", None)), ["Waits for a human"]);
}

#[test]
fn auto_merge_true_finds_a_ticket_that_inherits_the_flag_from_its_epic() {
    let mut store = test_app();
    let epic = seed_epic(&mut store, "Chores", &["Inherits from its epic"]);
    let patch = EpicPatch { auto_merge: Some(true), ..EpicPatch::default() };
    apply(&mut store, None, Op::UpdateEpic { id: epic, patch }).unwrap();
    seed_full(&mut store, "Filed under nothing", "", &[], false);
    assert_eq!(titles(&rendered(&store, "auto-merge:true", None)), ["Inherits from its epic"]);
    assert!(!store.read_board().unwrap().ticket(&id(1)).unwrap().auto_merge, "the ticket's own flag stays false");
}

#[test]
fn a_card_credits_the_epic_when_the_grant_is_inherited() {
    let mut store = test_app();
    let epic = seed_epic(&mut store, "Auth", &["under the epic"]);
    let patch = EpicPatch { auto_merge: Some(true), ..EpicPatch::default() };
    apply(&mut store, None, Op::UpdateEpic { id: epic, patch }).unwrap();
    let b = rendered(&store, "", None);
    let card = cards(&b)[0];
    assert!(card.auto_merge && card.auto_merge_inherited);
    let pane = detail(&store.read_board().unwrap(), &[], &id(1), false, false, &vec![], NOW).unwrap().ticket;
    assert!(pane.auto_merge && pane.auto_merge_inherited);
    assert!(
        pane.auto_merge_confirm.contains("still auto-merges — switch it off on the epic instead"),
        "{}",
        pane.auto_merge_confirm
    );
}

#[test]
fn the_auto_merge_confirm_names_the_ticket_and_says_main_moves_unreviewed() {
    let mut store = test_app();
    seed_ticket(&mut store, "risky one");
    let confirm = |s: &Store| {
        detail(&s.read_board().unwrap(), &[], &id(1), false, false, &vec![], NOW).unwrap().ticket.auto_merge_confirm
    };
    let text = confirm(&store);
    assert!(text.contains("Turn on auto-merge for K-1 — risky one?"), "{text}");
    assert!(text.contains("fast-forward main into it with no human review of the merge"), "{text}");
    assert!(text.contains("There is no undo once main has moved."), "{text}");
    let patch = TicketPatch { auto_merge: Some(true), ..TicketPatch::default() };
    apply(&mut store, None, Op::UpdateTicket { id: id(1), patch }).unwrap();
    let text = confirm(&store);
    assert!(text.contains("Turn off auto-merge for K-1 — risky one?"), "{text}");
    assert!(!text.contains("There is no undo"), "{text}");
}

#[test]
fn the_epic_delete_confirm_says_the_tickets_go_too() {
    let mut store = test_app();
    seed_epic(&mut store, "Auth", &["Inside one", "Inside two"]);
    let done = Op::MoveTicket { id: id(1), to: ColumnId::Done, position: None, owner: None, branch: None };
    apply(&mut store, None, done).unwrap();
    let pane = epic_detail(&store.read_board().unwrap(), &EpicId("EP-1".into())).unwrap().epic;
    assert!(pane.delete_confirm.contains("its 2 tickets (1 already done)"), "{}", pane.delete_confirm);
    assert!(pane.delete_confirm.contains("There is no undo."), "{}", pane.delete_confirm);
    seed_epic(&mut store, "Empty", &[]);
    let pane = epic_detail(&store.read_board().unwrap(), &EpicId("EP-2".into())).unwrap().epic;
    assert!(pane.delete_confirm.contains("Delete EP-2 — Empty? It has no tickets."), "{}", pane.delete_confirm);
}

#[test]
fn the_epic_auto_merge_confirm_counts_the_tickets_the_grant_reaches() {
    let mut store = test_app();
    let epic = seed_epic(&mut store, "Auth", &["one", "two"]);
    let pane = epic_detail(&store.read_board().unwrap(), &epic).unwrap().epic;
    assert!(
        pane.auto_merge_confirm.contains("Turn on auto-merge for EP-1 — Auth and its 2 tickets?"),
        "{}",
        pane.auto_merge_confirm
    );
    let patch = EpicPatch { auto_merge: Some(true), ..EpicPatch::default() };
    apply(&mut store, None, Op::UpdateEpic { id: epic.clone(), patch }).unwrap();
    let pane = epic_detail(&store.read_board().unwrap(), &epic).unwrap().epic;
    assert!(pane.auto_merge);
    assert!(pane.auto_merge_confirm.contains("Turn off auto-merge for EP-1 — Auth?"), "{}", pane.auto_merge_confirm);
    let form = epic_edit(&store.read_board().unwrap(), &epic).unwrap().epic;
    assert_eq!((form.id.as_str(), form.title.as_str()), ("EP-1", "Auth"));
}

#[test]
fn the_review_column_renders_with_pr_and_branch_state_badges() {
    let mut store = test_app();
    seed_ticket(&mut store, "Open PR here");
    to_review_with_branch(&mut store, 1, "k-1/alive");
    let open = PrRef { number: 7, url: "https://github.com/x/y/pull/7".into(), state: PrState::Open, merged_commit: None };
    apply(&mut store, None, Op::SetPr { id: id(1), pr: Some(open) }).unwrap();
    seed_ticket(&mut store, "Merged awaiting pull");
    to_review_with_branch(&mut store, 2, "k-2/pushed");
    let merged = PrRef {
        number: 8,
        url: "https://github.com/x/y/pull/8".into(),
        state: PrState::Merged,
        merged_commit: Some("0".repeat(40)),
    };
    apply(&mut store, None, Op::SetPr { id: id(2), pr: Some(merged) }).unwrap();

    let heads = vec!["main".to_string(), "k-1/alive".to_string()];
    let b = rendered(&store, "", Some(&heads));
    let review = &b.columns[2].cards;
    assert_eq!(review[0].pr.as_ref().unwrap().label, "PR #7");
    assert_eq!(review[1].pr.as_ref().unwrap().label, "PR #8 merged — pull main");
    assert!(!review[0].branch_gone && review[1].branch_gone);
    assert_eq!(review[0].branch.as_deref(), Some("k-1/alive"));
    let pane = detail(&store.read_board().unwrap(), &[], &id(1), true, true, &vec![], NOW).unwrap().ticket;
    assert_eq!(pane.pr.unwrap().url, "https://github.com/x/y/pull/7");
    assert!(pane.can_discard && pane.can_pr && pane.can_diff);
    let unknown = rendered(&store, "", None);
    assert!(cards(&unknown).iter().all(|c| !c.branch_gone), "without a repository no branch is called gone");
}

#[test]
fn discard_closes_the_ticket_and_keeps_dependents_blocked_on_the_board() {
    let mut store = test_app();
    seed_ticket(&mut store, "Doomed work");
    seed_ticket(&mut store, "Blocked follow-up");
    let patch = TicketPatch { depends_on: Some(vec![id(1)]), ..TicketPatch::default() };
    apply(&mut store, None, Op::UpdateTicket { id: id(2), patch }).unwrap();
    to_review_with_branch(&mut store, 1, "k-1/doomed");
    apply(&mut store, None, Op::DiscardTicket { id: id(1), reason: "no".into() }).unwrap();
    let b = rendered(&store, "", None);
    let find = |t: &str| cards(&b).into_iter().find(|c| c.title == t).unwrap();
    assert!(find("Doomed work").discarded && find("Doomed work").done);
    assert!(find("Blocked follow-up").blocked);
    let pane = detail(&store.read_board().unwrap(), &[], &id(2), false, false, &vec![], NOW).unwrap().ticket;
    assert!(pane.blocked);
    assert!(!pane.deps[0].done, "the checkmark says why it is blocked");
    let pane = detail(&store.read_board().unwrap(), &[], &id(1), false, false, &vec![], NOW).unwrap().ticket;
    assert!(pane.discarded && pane.completed_at.is_some());
}

#[test]
fn done_cards_carry_no_merged_badge() {
    let mut store = test_app();
    seed_ticket(&mut store, "Delegated elsewhere");
    to_done_with_branch(&mut store, 1, "myrepo-issue0042");
    let merged = PrRef { number: 8, url: "u".into(), state: PrState::Merged, merged_commit: None };
    apply(&mut store, None, Op::SetPr { id: id(1), pr: Some(merged) }).unwrap();
    let b = rendered(&store, "", Some(&vec!["main".to_string()]));
    let card = cards(&b)[0];
    assert!(card.pr.is_none() && !card.branch_gone, "done cards say nothing about merge state at all");
}

#[test]
fn a_flagged_delegated_ticket_wears_the_minesweeper_warning() {
    let mut store = test_app();
    seed_ticket(&mut store, "delegated and stuck");
    apply(&mut store, None, Op::Claim { id: id(1), agent: "minesweeper".into() }).unwrap();
    let flagged = External { flag: Some("minesweeperFailed".into()), ..External::github_issue(42) };
    apply(&mut store, None, Op::BindExternal { id: id(1), external: Some(flagged) }).unwrap();
    let b = rendered(&store, "", None);
    assert_eq!(cards(&b)[0].external_flag.as_deref(), Some("minesweeperFailed"));
    assert_eq!(cards(&b)[0].external.as_deref(), Some("github issue#42"));
    let board = store.read_board().unwrap();
    assert_eq!(external_flag(board.ticket(&id(1)).unwrap()).as_deref(), Some("minesweeperFailed"));
    let pane = detail(&board, &[], &id(1), false, false, &vec![], NOW).unwrap().ticket;
    assert_eq!(pane.external_flag.as_deref(), Some("minesweeperFailed"));
}

#[test]
fn detail_and_edit_panes_render_and_404_cleanly() {
    let mut store = test_app();
    seed_ticket(&mut store, "Detailed");
    let b = store.read_board().unwrap();
    let claim = Claim { ticket: id(1), agent: "me".into(), since: NOW, path: Some("/wt".into()), kind: ClaimKind::Work };
    let pane = detail(&b, &[claim], &id(1), false, false, &vec!["/wt".to_string()], NOW).unwrap().ticket;
    assert_eq!(pane.title, "Detailed");
    let claim = pane.claim.unwrap();
    assert_eq!((claim.agent.as_str(), claim.since.as_str()), ("me", "2026-07-17 12:00 UTC"));
    assert!(claim.worktree_missing);
    let form = detail_edit(&b, &id(1), vec!["opus".into()], true).unwrap();
    assert_eq!(form.ticket.body, "# Spec");
    assert_eq!(form.ticket.labels_csv, "ui");
    assert_eq!(form.model_placeholder, "opus");
    assert!(form.can_hand_over);
    assert!(detail(&b, &[], &id(99), false, false, &vec![], NOW).is_none());
    assert!(detail_edit(&b, &id(99), vec![], false).is_none());
}

#[test]
fn the_edit_modal_hides_the_handoff_checkbox_once_bound() {
    let mut store = test_app();
    seed_ticket(&mut store, "grew into something delegable");
    apply(&mut store, None, Op::BindExternal { id: id(1), external: Some(External::github_issue(9)) }).unwrap();
    assert!(!detail_edit(&store.read_board().unwrap(), &id(1), vec![], true).unwrap().can_hand_over);
}

#[test]
fn the_model_datalists_follow_the_configured_vocabulary() {
    let store = test_app();
    let b = store.read_board().unwrap();
    let p = page("test".into(), &b, Config::default().models(), "v1".into(), "repo".into(), true);
    assert!(p.models.contains(&"sonnet".to_string()), "{:?}", p.models);
    assert_eq!(p.model_placeholder, "opus");
    assert!(p.minesweeper_available);
    let config = Config { models: vec!["venice/zai-org-glm-5-2".into()], ..Config::default() };
    let p = page("test".into(), &b, config.models(), "v1".into(), "repo".into(), false);
    assert_eq!(p.models, vec!["venice/zai-org-glm-5-2"]);
    assert_eq!(p.model_placeholder, "venice/zai-org-glm-5-2");
}

#[test]
fn the_review_pane_carries_what_a_verdict_needs() {
    let mut store = test_app();
    seed_ticket(&mut store, "Code complete");
    to_review_with_branch(&mut store, 1, "k-1/x");
    let b = store.read_board().unwrap();
    let pane = review(&b, &id(1), Some("/wt".into()), true, Some("not merged".into()), true).unwrap().review;
    assert_eq!((pane.worktree_path.as_deref(), pane.worktree_dirty), (Some("/wt"), true));
    assert_eq!(pane.landing.as_deref(), Some("not merged"));
    assert_eq!(
        pane.discard_confirm,
        "Discard K-1 — Code complete? It closes as done without landing, and tickets depending on it stay blocked."
    );
}

#[test]
fn a_diff_is_summed_up() {
    let files = parse("--- a/x\n+++ b/x\n@@ -1,1 +1,2 @@\n-a\n+b\n+c\n--- /dev/null\n+++ b/y\n@@ -0,0 +1 @@\n+hi\n").unwrap();
    let d = diff("K-1".into(), "k-1/x".into(), "main".into(), files);
    assert_eq!((d.files_changed, d.added, d.deleted), (2, 3, 1));
}

#[test]
fn small_badges_and_options() {
    let mut store = test_app();
    seed_ticket(&mut store, "t");
    let mut t = store.read_board().unwrap().tickets[0].clone();
    assert_eq!(run_badge(&t), None);
    t.model = Some("opus".into());
    assert_eq!(run_badge(&t).as_deref(), Some("opus"));
    t.effort = Some(Effort::High);
    assert_eq!(run_badge(&t).as_deref(), Some("opus · high"));
    t.model = None;
    assert_eq!(run_badge(&t).as_deref(), Some("high"));
    let efforts = effort_options(Some(Effort::High));
    assert_eq!(efforts.iter().filter(|o| o.selected).map(|o| o.name).collect::<Vec<_>>(), ["high"]);
    let statuses = status_options(Status::Stub);
    assert_eq!(statuses.iter().filter(|o| o.current).map(|o| o.name).collect::<Vec<_>>(), ["stub"]);
    assert_ne!(status_badge(Status::Ready), status_badge(Status::Draft));
    let closed = PrRef { number: 3, url: "u".into(), state: PrState::Closed, merged_commit: None };
    assert_eq!(pr_ctx(&closed).label, "PR #3 closed");
    assert_eq!(ToastTpl::error("x".into()).message, "x");
    assert_ne!(ToastTpl::error("x".into()).kind, ToastTpl::warning("x".into()).kind);
}

#[test]
fn the_docs_pane_opens_on_its_first_entry() {
    let list = vec![
        DocEntry { file: "a.md".into(), title: "A".into() },
        DocEntry { file: "b.md".into(), title: "B".into() },
    ];
    let pane = docs(&list);
    assert_eq!(pane.first.unwrap().file, "a.md");
    assert_eq!(pane.entries.iter().map(|e| e.first).collect::<Vec<_>>(), [true, false]);
    assert!(docs(&vec![]).first.is_none());
}
