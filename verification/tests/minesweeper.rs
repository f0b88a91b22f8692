use claude_kanban::config::Config;
use claude_kanban::json::parse;
use claude_kanban::minesweeper::{
    ask_issue, ask_mirror, ask_repo, batch_answer, batch_call, batch_query, changed, create_issue, created_issue, delegate,
    delegate_entering_doing, delegate_ticket, facts_from, fetch_issue, find_mirror, follow_pass, followed, hand_over,
    issue_facts, label_call, may_delegate, mirror_footer, parse_refine_comment, poll, repo_slug, track_ticket,
    track_writes, trailing_issue_number, DelegateFacts, DelegateQuestion, DelegateStep, Fetched, FollowStep, HandStep,
    IssueFacts, TrackStep,
};
use claude_kanban::name::product;
use claude_kanban::ops::{apply, Op, OpError};
use claude_kanban::store::model::{Column, ColumnId, External, PrRef, PrState, Status, Ticket, TicketId};
use claude_kanban::store::Store;
use claude_kanban::writes::Write;

#[test]
fn refine_comments_parse_the_daemons_exact_format_and_nothing_else() {
    let comment = "Refined into the following sub-tasks:\n\n- [ ] #12 — split the parser\n- [x] #13 — wire the flags\n- [ ] #14 — docs";
    assert_eq!(parse_refine_comment(comment), vec![12, 13, 14]);

    assert!(parse_refine_comment("Fixed in #12").is_empty(), "an ordinary comment mentioning an issue is not a refine");
    assert!(parse_refine_comment("- [ ] #12 — no marker line").is_empty(), "the marker prefix is required");
    let junk = "Refined into the following sub-tasks:\n\n- [ ] no number here\n- [ ] #notanumber — x\nprose in between\n- [ ] #15 — real";
    assert_eq!(parse_refine_comment(junk), vec![15], "junk lines are skipped, not fatal");
}

#[test]
fn refine_lines_may_be_indented_and_numbers_must_fit() {
    let comment = "\n  Refined into the following sub-tasks:\r\n  - [X] #7\r\n- [ ] #99999999999999999999 — too much\n- [ ] 8 — no hash";
    assert_eq!(parse_refine_comment(comment), vec![7]);
}

#[test]
fn issue_urls_yield_their_trailing_number() {
    assert_eq!(trailing_issue_number("https://github.com/o/r/issues/42"), Some(42));
    assert_eq!(trailing_issue_number("https://github.com/o/r/issues/42/"), Some(42));
    assert_eq!(trailing_issue_number("https://github.com/o/r/pull/42"), None, "a PR URL is not an issue");
}

#[test]
fn the_batch_query_aliases_every_number_once() {
    let q = batch_query(&[7, 42]);
    assert!(q.contains("i7: issue(number: 7)") && q.contains("i42: issue(number: 42)"), "{q}");
    assert!(q.contains("closedByPullRequestsReferences"), "{q}");
    assert!(q.starts_with("query($owner: String!, $name: String!)"), "{q}");
    assert_eq!(
        batch_query(&[]),
        "query($owner: String!, $name: String!) { repository(owner: $owner, name: $name) {  } }"
    );
    assert_eq!(
        batch_query(&[7]),
        "query($owner: String!, $name: String!) { repository(owner: $owner, name: $name) { i7: issue(number: 7) { number state labels(first: 20) { nodes { name } } comments(last: 30) { nodes { body } } closedByPullRequestsReferences(first: 5, includeClosedPrs: true) { nodes { number url state merged mergeCommit { oid } headRefName } } }  } }"
    );
}

#[test]
fn the_mirror_footer_matches_the_delegate_skills_wording() {
    assert_eq!(mirror_footer(&TicketId("K-7".into())), "Mirrored from kanban ticket K-7.");
}

fn scratch() -> Store {
    let mut store = Store::at(".kanban");
    store.init().unwrap();
    store
}

fn create(store: &mut Store, title: &str, depends_on: Vec<TicketId>) -> TicketId {
    let op = Op::CreateTicket {
        title: title.into(),
        body: "the spec".into(),
        epic: None,
        labels: vec![],
        depends_on,
        status: Status::Ready,
        model: None,
        effort: None,
        auto_merge: false,
    };
    TicketId(apply(store, None, op).unwrap().created_ids[0].clone())
}

/// Hand a ticket over where there is no remote to mirror it to.
fn hand_over_without_remote(store: &mut Store, id: &TicketId) {
    let claimed = match hand_over(id, None, None) {
        HandStep::Claim(op) => apply(store, None, op).map(|_| ()),
        other => panic!("{other:?}"),
    };
    let ops = match hand_over(id, Some(&claimed), None) {
        HandStep::Finish(ops) => ops,
        HandStep::Delegate => match hand_over(id, Some(&claimed), Some(&Ok(None))) {
            HandStep::Finish(ops) => ops,
            other => panic!("{other:?}"),
        },
        other => panic!("{other:?}"),
    };
    for op in ops {
        apply(store, None, op).unwrap();
    }
}

#[test]
fn a_failed_handoff_notes_the_card_and_leaves_it_unclaimed_in_todo() {
    let mut store = scratch();

    let dep = create(&mut store, "unfinished dependency", vec![]);
    let blocked = create(&mut store, "wants delegation too early", vec![dep.clone()]);
    hand_over_without_remote(&mut store, &blocked);
    let board = store.read_board().unwrap();
    let t = board.ticket(&blocked).unwrap();
    assert!(matches!(t.column, Column::Todo), "{:?}", t.column);
    assert!(t.notes.last().unwrap().text.contains("handing to minesweeper failed"), "{:?}", t.notes);
    assert!(store.read_claims().unwrap().is_empty());

    hand_over_without_remote(&mut store, &dep);
    let board = store.read_board().unwrap();
    let t = board.ticket(&dep).unwrap();
    assert!(matches!(t.column, Column::Todo), "released back: {:?}", t.column);
    assert!(t.external.is_none());
    assert!(t.notes.last().unwrap().text.contains("no git repository or remote"), "{:?}", t.notes);
    assert!(store.read_claims().unwrap().is_empty(), "the released claim is gone");
}

#[test]
fn a_handover_ends_quietly_when_the_issue_exists() {
    let id = TicketId("K-1".into());
    assert!(matches!(hand_over(&id, None, None), HandStep::Claim(Op::Claim { agent, .. }) if agent == "minesweeper"));
    assert!(matches!(hand_over(&id, Some(&Ok(())), None), HandStep::Delegate));
    let done = Ok(Some("https://x/issues/1".to_string()));
    assert!(matches!(hand_over(&id, Some(&Ok(())), Some(&done)), HandStep::Finish(ops) if ops.is_empty()));
    let failed = Err("gh said no".to_string());
    match hand_over(&id, Some(&Ok(())), Some(&failed)) {
        HandStep::Finish(ops) => {
            assert!(matches!(&ops[0], Op::Release { .. }), "released before it is noted");
            assert!(matches!(&ops[1], Op::AddNote { text, author: Some(a), .. } if a == "kanban" && text
                == "handing to minesweeper failed: gh said no — fix the cause and delegate again, or run /kanban:delegate"));
        }
        other => panic!("{other:?}"),
    }
    let refused = Err(OpError::Invalid("K-1 is blocked".into()));
    match hand_over(&id, Some(&refused), None) {
        HandStep::Finish(ops) => {
            assert_eq!(ops.len(), 1);
            assert!(matches!(&ops[0], Op::AddNote { text, .. } if text.starts_with("handing to minesweeper failed: ")
                && text.ends_with(" — clear that, then delegate again")));
        }
        other => panic!("{other:?}"),
    }
}

const ISSUE: &str = r#"{
    "number": 42,
    "state": "CLOSED",
    "labels": { "nodes": [{ "name": "autofix" }, { "name": "minesweeperFailed" }] },
    "comments": { "nodes": [
        { "body": "Hi — I am Minesweeper, an automated bot." },
        { "body": "Refined into the following sub-tasks:\n\n- [ ] #43 — half" }
    ] },
    "closedByPullRequestsReferences": { "nodes": [{
        "number": 57,
        "url": "https://github.com/o/r/pull/57",
        "state": "MERGED",
        "merged": true,
        "mergeCommit": { "oid": "abc123" },
        "headRefName": "myrepo-issue0042"
    }] }
}"#;

#[test]
fn graphql_answers_shape_into_issue_facts() {
    let issue = parse(ISSUE).unwrap();
    let facts = issue_facts(&issue);
    assert!(facts.closed);
    assert_eq!(facts.labels, vec!["autofix", "minesweeperFailed"]);
    assert_eq!(facts.refine, vec![43]);
    let (pr, head) = facts.pr.expect("the closing reference is the PR");
    assert_eq!((pr.number, pr.state, pr.merged_commit.as_deref()), (57, PrState::Merged, Some("abc123")));
    assert_eq!(head, "myrepo-issue0042");
}

#[test]
fn a_batch_answer_is_looked_up_by_alias() {
    let out = format!("{{\"data\":{{\"repository\":{{\"i42\":{ISSUE},\"i43\":null}}}}}}");
    let answer = batch_answer(&out).unwrap();
    assert!(facts_from(&answer, 42).unwrap().closed);
    assert!(facts_from(&answer, 43).is_none());
    assert!(facts_from(&answer, 44).is_none());
    assert!(batch_answer("nope").err().unwrap().starts_with("unexpected graphql output: "));
    let odd = parse(r#"{"closedByPullRequestsReferences":{"nodes":[{"number":1,"state":"weird"}]}}"#).unwrap();
    let (pr, head) = issue_facts(&odd).pr.unwrap();
    assert_eq!((pr.state, pr.url.as_str(), head.as_str()), (PrState::Closed, "", ""));
    let none = issue_facts(&parse("{}").unwrap());
    assert!(!none.closed && none.labels.is_empty() && none.refine.is_empty() && none.pr.is_none());
}

#[test]
fn a_mirror_is_found_created_and_read_back() {
    let id = TicketId("K-7".into());
    assert_eq!(
        ask_mirror("/r", &id).args,
        vec![
            "issue", "list", "--state", "all", "--search", "\"Mirrored from kanban ticket K-7.\" in:body", "--json",
            "number,url", "--limit", "5"
        ]
    );
    assert_eq!(find_mirror("[]").unwrap(), None);
    assert_eq!(find_mirror(r#"[{"number":4,"url":"u"},{"number":5,"url":"v"}]"#).unwrap(), Some((4, "u".to_string())));
    assert_eq!(find_mirror(r#"[{"url":"u"}]"#).unwrap(), None);
    assert!(find_mirror("{}").unwrap_err().starts_with("unexpected `gh issue list` output: "));
    assert_eq!(created_issue("https://x/issues/9\n").unwrap(), (9, "https://x/issues/9".to_string()));
    assert_eq!(created_issue("hm").unwrap_err(), "no issue number in gh's answer: hm");
    assert_eq!(label_call("/r", "autofix").args[4], format!("{} delegation", product()));
    assert_eq!(repo_slug(r#"{"owner":{"login":"o"},"name":"r"}"#).unwrap(), ("o".to_string(), "r".to_string()));
    assert_eq!(repo_slug(r#"{"name":"r"}"#).unwrap_err(), "gh repo view answered without an owner");
    assert_eq!(repo_slug(r#"{"owner":{"login":"o"}}"#).unwrap_err(), "gh repo view answered without a name");
    assert!(repo_slug("x").unwrap_err().starts_with("unexpected `gh repo view` output: "));
    assert_eq!(ask_repo("/r").args, vec!["repo", "view", "--json", "owner,name"]);
    assert_eq!(ask_issue("/r", 12).args, vec!["issue", "view", "12", "--json", "title,body"]);
    let spec = fetch_issue(r#"{"title":"half","body":"do it"}"#, 12).unwrap();
    assert_eq!((spec.number, spec.title.as_str(), spec.body.as_str()), (12, "half", "do it"));
    let spec = fetch_issue("{}", 12).unwrap();
    assert_eq!((spec.title.as_str(), spec.body.as_str()), ("(untitled)", ""));
    assert!(fetch_issue("x", 1).err().unwrap().starts_with("unexpected `gh issue view` output: "));
    let call = batch_call("/r", &[1], "o", "n");
    assert_eq!(&call.args[..3], ["api", "graphql", "-f"]);
    assert_eq!((call.args[5].as_str(), call.args[7].as_str()), ("owner=o", "name=n"));
    assert!(call.silenced && call.program == "gh");
}

fn working() -> (Store, Ticket) {
    let mut store = scratch();
    let id = create(&mut store, "work", vec![]);
    apply(&mut store, None, Op::Claim { id: id.clone(), agent: "someone".into() }).unwrap();
    let t = store.read_board().unwrap().ticket(&id).unwrap().clone();
    (store, t)
}

#[test]
fn delegation_asks_then_adopts_or_creates_and_binds() {
    let (mut store, t) = working();
    let on = Config { minesweeper: Some(true), ..Config::default() };
    let facts = |remote, mirror, created| DelegateFacts { remote, mirror, created };
    assert!(matches!(delegate(&Config::default(), "/r", Some(&t), &facts(None, None, None)), DelegateStep::Skip));
    assert!(matches!(delegate(&on, "/r", Some(&t), &facts(None, None, None)), DelegateStep::Ask(DelegateQuestion::Remote)));
    assert!(matches!(delegate(&on, "/r", Some(&t), &facts(Some(false), None, None)), DelegateStep::Skip));
    assert!(matches!(delegate(&on, "/r", Some(&t), &facts(Some(true), None, None)),
        DelegateStep::Ask(DelegateQuestion::Mirror)));
    match delegate_ticket("/r", Some(&t), "autofix", &facts(Some(true), Some(None), None)) {
        DelegateStep::Create(label, issue) => {
            assert_eq!(&label.args[..3], ["label", "create", "autofix"]);
            assert_eq!(
                issue.call.args,
                vec![
                    "issue", "create", "--title", "K-1: work", "--body",
                    "the spec\n\n---\nMirrored from kanban ticket K-1.", "--label", "autofix"
                ]
            );
            assert_eq!(issue.context.as_deref(), Some("creating the mirror issue for K-1"));
        }
        other => panic!("{other:?}"),
    }
    let adopted = facts(Some(true), Some(Some((42, "https://x/issues/42".into()))), None);
    match delegate(&on, "/r", Some(&t), &adopted) {
        DelegateStep::Bind(op, url) => {
            assert_eq!(url, "https://x/issues/42");
            apply(&mut store, None, op).unwrap();
        }
        other => panic!("{other:?}"),
    }
    let t = store.read_board().unwrap().tickets[0].clone();
    assert_eq!(t.external.as_ref().unwrap().number, 42);
    assert_eq!(t.notes.last().unwrap().text, "delegated to minesweeper: issue #42 https://x/issues/42");
    assert!(!may_delegate(&t), "a bound ticket is not delegated twice");
    assert!(matches!(delegate(&on, "/r", Some(&t), &facts(None, None, None)), DelegateStep::Skip));
    assert!(matches!(delegate(&on, "/r", None, &facts(None, None, None)), DelegateStep::Skip));
}

#[test]
fn a_failed_delegation_is_noted_on_the_card() {
    let id = TicketId("K-1".into());
    assert!(delegate_entering_doing(&id, &Ok(None)).is_none());
    assert!(delegate_entering_doing(&id, &Ok(Some("u".into()))).is_none());
    let note = delegate_entering_doing(&id, &Err("boom".into()));
    assert!(matches!(note, Some(Op::AddNote { text, author: Some(a), .. }) if a == "kanban" && text
        == "delegating to minesweeper failed: boom — fix the cause, then re-enter doing (or run /kanban:delegate)"));
}

fn bound(column: Column) -> Ticket {
    let (_, mut t) = working();
    t.external = Some(External::github_issue(42));
    t.column = column;
    t
}

fn nothing() -> IssueFacts {
    IssueFacts { closed: false, labels: vec![], refine: vec![], pr: None }
}

fn pr() -> PrRef {
    PrRef { number: 57, url: "u".into(), state: PrState::Open, merged_commit: None }
}

#[test]
fn the_poll_follows_doing_tickets_and_unrecorded_reviews() {
    let doing = || Column::Doing { owner: "minesweeper".into(), branch: None };
    let mut t = bound(doing());
    assert!(followed(&t));
    assert!(followed(&bound(Column::Review { branch: None })));
    assert!(!followed(&bound(Column::Todo)));
    t.column = Column::Review { branch: None };
    t.pr = Some(pr());
    assert!(!followed(&t), "a recorded pull request is the landing poll's business");
    let mut board = scratch().read_board().unwrap();
    board.tickets = vec![bound(doing()), t];
    let on = Config { minesweeper: Some(true), ..Config::default() };
    assert_eq!(poll(&on, &board), vec![42]);
    assert!(poll(&Config::default(), &board).is_empty());
}

#[test]
fn a_referencing_pull_request_moves_the_card_to_review() {
    let t = bound(Column::Doing { owner: "minesweeper".into(), branch: None });
    let board = scratch().read_board().unwrap();
    let facts = IssueFacts { pr: Some((pr(), "head".into())), ..nothing() };
    let step = track_ticket(&t, &board, Some(&facts), &vec![], false);
    assert!(matches!(&step, TrackStep::Review { pr: Some(p), head: Some(h) } if p.number == 57 && h == "head"));
    let writes = track_writes(step, &t.id, vec![]);
    assert!(matches!(writes[0].op(), Op::SetPr { pr: Some(_), .. }));
    assert!(matches!(writes[1].op(), Op::MoveTicket { to: ColumnId::Review, branch: Some(b), .. } if b == "head"));
    assert!(matches!(track_ticket(&t, &board, None, &vec![], false), TrackStep::Nothing));
}

#[test]
fn a_split_issue_is_fetched_then_mirrored() {
    let t = bound(Column::Doing { owner: "minesweeper".into(), branch: None });
    let mut board = scratch().read_board().unwrap();
    let mut known = bound(Column::Todo);
    known.external = Some(External::github_issue(43));
    board.tickets = vec![t.clone(), known];
    let facts = IssueFacts { refine: vec![43, 44], ..nothing() };
    assert!(matches!(track_ticket(&t, &board, Some(&facts), &vec![], false), TrackStep::Fetch(n) if n == vec![44]));
    let step = track_ticket(&t, &board, Some(&facts), &vec![], true);
    assert!(matches!(step, TrackStep::Mirror));
    let children = vec![fetch_issue(r#"{"title":"half","body":""}"#, 44).unwrap()];
    let writes = track_writes(step, &t.id, children);
    assert!(matches!(writes[0].op(), Op::MirrorSubIssues { agent, children, .. } if agent == "minesweeper" && children.len() == 1));
}

#[test]
fn flags_and_closure_are_noted_once() {
    let mut t = bound(Column::Doing { owner: "minesweeper".into(), branch: None });
    let board = scratch().read_board().unwrap();
    let flags = vec!["stuck".to_string(), "minesweeperFailed".to_string()];
    let facts = IssueFacts { closed: true, labels: vec!["minesweeperFailed".into()], ..nothing() };
    match track_ticket(&t, &board, Some(&facts), &flags, false) {
        TrackStep::Observe { external, notes } => {
            assert_eq!(external.flag.as_deref(), Some("minesweeperFailed"));
            assert!(external.closed);
            assert_eq!(
                notes,
                vec![
                    "minesweeper flagged: issue #42 carries `minesweeperFailed` — investigate on GitHub; the ticket stays in doing until you decide",
                    "issue #42 was closed without a PR — rework the ticket, release it, or close it out by hand",
                ]
            );
            t.external = Some(external);
        }
        other => panic!("{other:?}"),
    }
    assert!(matches!(track_ticket(&t, &board, Some(&facts), &flags, false), TrackStep::Nothing), "observing again is quiet");
    assert!(create_issue("/r", &t, "l").call.silenced);
}

#[test]
fn following_asks_fetches_and_only_then_writes() {
    let mut board = scratch().read_board().unwrap();
    board.tickets = vec![bound(Column::Doing { owner: "minesweeper".into(), branch: None })];
    let on = Config { minesweeper: Some(true), ..Config::default() };
    let off = follow_pass(&Config::default(), &board, None, &vec![]);
    assert!(matches!(off, FollowStep::Done { writes, updated: 0 } if writes.is_empty()));
    assert!(matches!(follow_pass(&on, &board, None, &vec![]), FollowStep::Query(n) if n == vec![42]));

    let split = r#"{"state":"OPEN","comments":{"nodes":[{"body":"Refined into the following sub-tasks:\n\n- [ ] #43 — half\n- [ ] #44 — rest"}]}}"#;
    let answer = Ok(batch_answer(&format!("{{\"data\":{{\"repository\":{{\"i42\":{split}}}}}}}")).unwrap());
    let mut issues: Vec<Fetched> = vec![];
    assert!(matches!(follow_pass(&on, &board, Some(&answer), &issues), FollowStep::Fetch(43)));
    issues.push((43, fetch_issue(r#"{"title":"half","body":""}"#, 43)));
    assert!(matches!(follow_pass(&on, &board, Some(&answer), &issues), FollowStep::Fetch(44)));
    issues.push((44, fetch_issue(r#"{"title":"rest","body":""}"#, 44)));
    match follow_pass(&on, &board, Some(&answer), &issues) {
        FollowStep::Done { writes, updated } => {
            assert_eq!((writes.len(), updated), (1, 1));
            assert!(matches!(&writes[0], Write::Mirror { children, .. }
                if children.len() == 2 && children[0].title == "half" && children[1].title == "rest"));
        }
        other => panic!("{other:?}"),
    }
    issues[1].1 = Err("offline".into());
    let step = follow_pass(&on, &board, Some(&answer), &issues);
    assert!(matches!(step, FollowStep::Done { writes, updated: 0 } if writes.is_empty()), "trouble writes nothing");
    let failed = Err("offline".to_string());
    let step = follow_pass(&on, &board, Some(&failed), &vec![]);
    assert!(matches!(step, FollowStep::Done { writes, updated: 0 } if writes.is_empty()));
}

#[test]
fn following_records_a_request_and_moves_the_card() {
    let mut board = scratch().read_board().unwrap();
    board.tickets = vec![bound(Column::Doing { owner: "minesweeper".into(), branch: None })];
    let on = Config { minesweeper: Some(true), ..Config::default() };
    let answer = Ok(batch_answer(&format!("{{\"data\":{{\"repository\":{{\"i42\":{ISSUE}}}}}}}")).unwrap());
    match follow_pass(&on, &board, Some(&answer), &vec![]) {
        FollowStep::Done { writes, updated } => {
            assert_eq!((writes.len(), updated), (2, 1));
            assert!(matches!(&writes[0], Write::Request { pr, .. } if pr.number == 57));
            assert!(matches!(&writes[1], Write::Review { head, .. } if head == "myrepo-issue0042"));
        }
        other => panic!("{other:?}"),
    }
}

#[test]
fn a_stopped_pass_counts_the_tickets_it_is_done_with() {
    let note = |n: u32| Write::Note { id: TicketId(format!("K-{n}")), text: "t".into() };
    let writes = vec![note(1), note(1), note(2), note(3), note(3)];
    let counts: Vec<usize> = (0..writes.len()).map(|n| changed(&writes, n)).collect();
    assert_eq!(counts, vec![0, 0, 1, 2, 2]);
}
