use claude_kanban::name::assistant;
use claude_kanban::server::search::{Query, Term};
use claude_kanban::store::derive::{EpicView, TicketView};
use claude_kanban::store::model::{Column, ColumnId, Epic, EpicId, External, Note, Status, Ticket, TicketId};
use claude_kanban::time::Timestamp;

const NOW: Timestamp = Timestamp { secs: 1_700_000_000, nanos: 0 };

fn ticket(id: &str, title: &str) -> Ticket {
    Ticket {
        id: TicketId(id.into()),
        title: title.into(),
        epic: None,
        status: Status::Ready,
        body: String::new(),
        labels: vec![],
        model: None,
        effort: None,
        auto_merge: false,
        depends_on: vec![],
        notes: vec![],
        external: None,
        pr: None,
        changes_requested: false,
        accepted: false,
        landing_blocked: false,
        column: Column::Todo,
    }
}

fn view(t: Ticket) -> TicketView {
    TicketView { ticket: t, blocked: false, auto_merge_effective: false, claim: None }
}

fn done(discarded: bool) -> Column {
    Column::Done { branch: Some("k-1/work".into()), completed_at: NOW, discarded }
}

fn epic_view(id: &str, title: &str) -> EpicView {
    EpicView {
        epic: Epic { id: EpicId(id.into()), title: title.into(), color: "#fff".into(), status: Status::Ready, body: "the plan".into(), auto_merge: false },
        column: ColumnId::Todo,
        tickets: vec![],
    }
}

/// The dragging invariant's first half: nothing that hides no cards may report itself as a filter.
#[test]
fn blank_and_punctuation_only_queries_are_empty() {
    let filtering: Vec<&str> =
        ["", "   ", ",,", " , ", "\t\n", ",  ,,   ,", "\"\""].into_iter().filter(|raw| !Query::parse(raw).is_empty()).collect();
    assert!(filtering.is_empty(), "these hide nothing, so they must parse to no terms: {filtering:?}");
}

/// The other half: a query with no terms admits every ticket, whatever shape it is in.
#[test]
fn an_empty_query_admits_every_ticket() {
    let mut discarded = ticket("K-9", "Retired");
    discarded.column = done(true);
    let tickets = [ticket("K-1", "Todo work"), discarded];
    let q = Query::parse("  ");
    assert!(tickets.into_iter().all(|t| q.matches(&view(t), &[])));
    assert!(q.matches_epic(&epic_view("EP-1", "Board")));
}

#[test]
fn unknown_keys_degrade_to_free_text() {
    assert_eq!(Query::parse("fix: the login bug").terms, vec![Term::Text("fix: the login bug".into())]);

    let mut t = ticket("K-1", "Nothing to see");
    t.body = "We should FIX: the Login Bug before release".into();
    assert!(Query::parse("fix: the login bug").matches(&view(t), &[]));
}

#[test]
fn quotes_force_free_text_and_protect_commas() {
    assert_eq!(Query::parse("\"label: ux\"").terms, vec![Term::Text("label: ux".into())]);
    assert_eq!(Query::parse("label:\"foo, bar\"").terms, vec![Term::Label("foo, bar".into())]);
}

#[test]
fn matching_is_case_insensitive_in_keys_and_values() {
    let mut t = ticket("K-1", "Anything");
    t.labels = vec!["UX".into()];
    assert!(Query::parse("LABEL: ux").matches(&view(t.clone()), &[]));
    assert!(Query::parse("label:UX").matches(&view(t.clone()), &[]));

    t.labels = vec!["ux".into()];
    assert!(Query::parse("Label: UX").matches(&view(t), &[]));
}

#[test]
fn free_text_spans_id_title_body_labels_and_branch() {
    let mut t = ticket("K-27", "Search bar");
    t.body = "Realtime results as you type".into();
    t.labels = vec!["UX".into()];
    t.external = Some(External::github_issue(42));
    t.column = Column::Review { branch: Some("k-27/search-bar".into()) };
    let v = view(t);

    let missed: Vec<&str> = ["k-27", "search bar", "realtime results", "ux", "search-bar", "github issue#42"]
        .into_iter()
        .filter(|q| !Query::parse(q).matches(&v, &[]))
        .collect();
    assert!(missed.is_empty(), "every field a bare phrase covers must match: {missed:?}");
    assert!(!Query::parse("nowhere in this ticket").matches(&v, &[]));
}

#[test]
fn free_text_ignores_notes_but_the_note_key_finds_them() {
    let mut t = ticket("K-1", "Quiet title");
    t.notes = vec![Note { at: NOW, author: Some(assistant()), text: "worktree started".into() }];
    let v = view(t);
    assert!(!Query::parse("worktree").matches(&v, &[]), "notes stay out of free text");
    assert!(Query::parse("note: worktree").matches(&v, &[]), "the opt-in key finds them");
}

#[test]
fn landed_is_done_and_not_discarded() {
    let mut landed = ticket("K-1", "Shipped");
    landed.column = done(false);
    let mut binned = ticket("K-2", "Retired");
    binned.column = done(true);
    let (landed, binned) = (view(landed), view(binned));

    assert!(Query::parse("landed: true").matches(&landed, &[]));
    assert!(!Query::parse("landed: true").matches(&binned, &[]), "a discarded ticket never landed");
    assert!(Query::parse("discarded:yes").matches(&binned, &[]));
    assert!(!Query::parse("discarded:yes").matches(&landed, &[]));
    // Both sit in the done column, whatever their fate.
    assert!(["col:done", "column: DONE"].into_iter().all(|q| Query::parse(q).matches(&binned, &[])));
}

#[test]
fn bad_booleans_and_unknown_statuses_degrade_to_free_text() {
    assert_eq!(Query::parse("landed:maybe").terms, vec![Term::Text("landed:maybe".into())]);
    assert_eq!(Query::parse("status:shipped").terms, vec![Term::Text("status:shipped".into())]);
    assert_eq!(Query::parse("col:backlog").terms, vec![Term::Text("col:backlog".into())]);
    // A half-typed key is a phrase, not an error and not a match-everything term.
    assert_eq!(Query::parse("label:").terms, vec![Term::Text("label:".into())]);
}

#[test]
fn status_accepts_a_prefix() {
    assert_eq!(Query::parse("status:re").terms, vec![Term::Status(Status::Review)]);
    assert_eq!(Query::parse("status: DRAFT").terms, vec![Term::Status(Status::Draft)]);
    assert_eq!(Query::parse("status:s").terms, vec![Term::Status(Status::Stub)]);
}

#[test]
fn ticket_only_terms_hide_epic_cards() {
    let e = epic_view("EP-1", "Board UI");
    assert!(Query::parse("board").matches_epic(&e), "free text searches the epic's own words");
    assert!(Query::parse("the plan").matches_epic(&e), "including its body");
    assert!(Query::parse("epic: ep-1").matches_epic(&e));
    assert!(Query::parse("status: ready").matches_epic(&e));

    let leaked: Vec<&str> = ["label: ux", "col: todo", "landed: false", "discarded:no", "blocked:false", "id: EP-1", "note: anything"]
        .into_iter()
        .filter(|q| Query::parse(q).matches_epic(&e))
        .collect();
    assert!(leaked.is_empty(), "a ticket-only term cannot be satisfied by an epic, so it must hide the card: {leaked:?}");
}

#[test]
fn the_worked_example_ands_three_terms() {
    let q = Query::parse("landed: true, label: ux, realtime results");
    assert_eq!(
        q.terms,
        vec![Term::Landed(true), Term::Label("ux".into()), Term::Text("realtime results".into())]
    );

    let mut t = ticket("K-27", "Search bar");
    t.body = "Realtime results as you type".into();
    t.labels = vec!["UX".into()];
    t.column = done(false);
    assert!(q.matches(&view(t.clone()), &[]));

    t.column = done(true);
    assert!(!q.matches(&view(t), &[]), "discarded work has not landed");
}

#[test]
fn the_epic_key_matches_by_id_or_title() {
    let epics = [epic_view("EP-1", "Board UI")];
    let mut t = ticket("K-1", "Anything");
    t.epic = Some(EpicId("EP-1".into()));
    let v = view(t);
    assert!(Query::parse("epic: ep-1").matches(&v, &epics));
    assert!(Query::parse("epic: board").matches(&v, &epics));
    assert!(!Query::parse("epic: landing").matches(&v, &epics));
    assert!(!Query::parse("epic: board").matches(&view(ticket("K-2", "Epicless")), &epics));
}
