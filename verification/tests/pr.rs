use claude_kanban::git::{branch_exists, GitError};
use claude_kanban::name::assistant;
use claude_kanban::ops::Op;
use claude_kanban::pr::{
    ask_open_pr, bind, branch_on_offer, create_pr, eligible, gh, gh_answer, has_remote, open_pr_for, pick_remote, pr_body,
    PrFacts, PrQuestion, PrStep,
};
use claude_kanban::store::model::{Column, External, Note, PrState, Status, Ticket, TicketId};
use claude_kanban::time::Timestamp;

/// 2026-07-17 12:00:00 UTC.
const NOON: Timestamp = Timestamp { secs: 1_784_289_600, nanos: 0 };

fn ticket(body: &str, notes: Vec<Note>) -> Ticket {
    Ticket {
        id: TicketId("K-7".into()),
        title: "Rate-limit the login route".into(),
        epic: None,
        status: Status::Ready,
        body: body.into(),
        labels: vec![],
        model: None,
        effort: None,
        auto_merge: false,
        depends_on: vec![],
        notes,
        external: None,
        pr: None,
        changes_requested: false,
        accepted: false,
        landing_blocked: false,
        column: Column::Review { branch: Some("k-7/rate-limit-login".into()) },
    }
}

#[test]
fn pr_body_is_the_spec_verbatim_without_notes() {
    let body = pr_body(&ticket("# Spec\n\nDo the thing.", vec![]));
    assert_eq!(body, "## K-7: Rate-limit the login route\n\n# Spec\n\nDo the thing.");
}

#[test]
fn pr_body_appends_the_progress_log_when_notes_exist() {
    let notes = vec![
        Note { at: NOON, author: Some(assistant()), text: "started".into() },
        Note { at: NOON, author: None, text: "hand-added".into() },
    ];
    let body = pr_body(&ticket("spec", notes));
    let expected = format!(
        "## K-7: Rate-limit the login route\n\nspec\n\n## Progress\n\n\
         - 2026-07-17 12:00 UTC — {}: started\n- 2026-07-17 12:00 UTC: hand-added",
        assistant()
    );
    assert_eq!(body, expected);
}

#[test]
fn pick_remote_prefers_origin_then_first_then_errors() {
    assert!(pick_remote("").is_err(), "no remotes at all must bail");
    assert_eq!(pick_remote("").unwrap_err(), "this repository has no git remote to push to");
    assert_eq!(pick_remote("alpha\nzeta").unwrap(), "alpha", "no origin: the first listed remote wins");
    assert_eq!(pick_remote("alpha\norigin\nzeta").unwrap(), "origin");
}

#[test]
fn branch_and_remote_probes_answer_false_cleanly() {
    assert!(!has_remote(&Ok(String::new())));
    let failed = Err(GitError::Failed { args: "git".into(), stderr: "fatal: not a git repository".into() });
    assert!(!branch_exists(&failed));
    assert!(!has_remote(&failed), "not a repo counts as no remote, not an error");
    assert!(has_remote(&Ok("origin".into())));
}

#[test]
fn only_a_local_review_branch_with_somewhere_to_go_is_eligible() {
    let mut t = ticket("", vec![]);
    assert!(eligible(&t, true, true));
    assert!(!eligible(&t, false, true) && !eligible(&t, true, false));
    assert_eq!(branch_on_offer(&t).as_deref(), Some("k-7/rate-limit-login"));
    t.external = Some(External::github_issue(1));
    assert!(!eligible(&t, true, true));
    t.external = None;
    t.column = Column::Done { branch: Some("k-7/rate-limit-login".into()), completed_at: NOON, discarded: false };
    assert!(!eligible(&t, true, true));
}

fn step(t: Option<&Ticket>, branch_exists: Option<bool>, remotes: Option<&str>, open: Option<Option<&str>>) -> PrStep {
    let facts = PrFacts {
        branch_exists,
        remotes: remotes.map(str::to_owned),
        open: open.map(|o| o.map(str::to_owned)),
    };
    create_pr("/r", &TicketId("K-7".into()), t, &facts)
}

fn refusal(s: PrStep) -> String {
    match s {
        PrStep::Refuse(why) => why,
        other => panic!("expected a refusal, got {other:?}"),
    }
}

#[test]
fn creating_a_pull_request_checks_then_dedupes_then_pushes() {
    let t = ticket("spec", vec![]);
    assert_eq!(refusal(step(None, None, None, None)), "K-7 not found on the board");
    let mut elsewhere = ticket("", vec![]);
    elsewhere.external = Some(External::github_issue(1));
    assert_eq!(refusal(step(Some(&elsewhere), None, None, None)), "K-7 is external — its PRs are worked elsewhere");
    let mut todo = ticket("", vec![]);
    todo.column = Column::Todo;
    assert_eq!(
        refusal(step(Some(&todo), None, None, None)),
        "K-7 is not a review ticket with a branch — nothing to open a PR from"
    );
    assert!(matches!(step(Some(&t), None, None, None), PrStep::Ask(PrQuestion::Branch, b) if b == "k-7/rate-limit-login"));
    assert_eq!(
        refusal(step(Some(&t), Some(false), None, None)),
        "branch k-7/rate-limit-login no longer exists locally — already merged and deleted?"
    );
    assert!(matches!(step(Some(&t), Some(true), None, None), PrStep::Ask(PrQuestion::Remotes, _)));
    assert_eq!(refusal(step(Some(&t), Some(true), Some(""), None)), "this repository has no git remote to push to");
    assert!(matches!(step(Some(&t), Some(true), Some("origin"), None), PrStep::Ask(PrQuestion::Open, _)));
    assert!(matches!(step(Some(&t), Some(true), Some("origin"), Some(Some("u"))),
        PrStep::Found(report) if report.url == "u" && !report.created));
    match step(Some(&t), Some(true), Some("alpha"), Some(None)) {
        PrStep::Go(push, create) => {
            assert_eq!(push.call.args, vec!["push", "-u", "alpha", "k-7/rate-limit-login"]);
            assert_eq!(push.context.as_deref(), Some("pushing k-7/rate-limit-login to alpha"));
            assert!(push.call.silenced && push.call.program == "git");
            assert_eq!(
                create.call.args,
                vec![
                    "pr", "create", "--head", "k-7/rate-limit-login", "--title", "K-7: Rate-limit the login route", "--body",
                    "## K-7: Rate-limit the login route\n\nspec"
                ]
            );
            assert_eq!(create.context.as_deref(), Some("creating the PR for k-7/rate-limit-login"));
        }
        other => panic!("{other:?}"),
    }
}

#[test]
fn a_created_pull_request_is_recorded_by_its_number() {
    match bind(&TicketId("K-7".into()), "https://github.com/o/r/pull/57") {
        Some(Op::SetPr { pr: Some(pr), .. }) => {
            assert_eq!((pr.number, pr.url.as_str(), pr.state), (57, "https://github.com/o/r/pull/57", PrState::Open));
        }
        other => panic!("{other:?}"),
    }
    assert!(bind(&TicketId("K-7".into()), "nowhere").is_none());
}

#[test]
fn an_open_pull_request_is_found_in_the_listing() {
    assert_eq!(open_pr_for("[]").unwrap(), None);
    assert_eq!(open_pr_for(r#"[{"url":"https://x/pull/1"}]"#).unwrap().as_deref(), Some("https://x/pull/1"));
    assert!(open_pr_for("oops").unwrap_err().starts_with("unexpected `gh pr list` output: oops"));
    assert_eq!(
        ask_open_pr("/r", "b").args,
        vec!["pr", "list", "--head", "b", "--state", "open", "--json", "url"]
    );
}

#[test]
fn a_missing_gh_becomes_install_advice() {
    let missing = Err(GitError::Spawn { missing: true, source: "entity not found".into() });
    assert_eq!(
        gh_answer(missing).unwrap_err(),
        "GitHub CLI (gh) not found — install it, or push the branch manually"
    );
    let other = Err(GitError::Spawn { missing: false, source: "denied".into() });
    assert_eq!(gh_answer(other).unwrap_err(), "could not run: denied");
    assert_eq!(gh_answer(Ok("u".into())).unwrap(), "u");
    assert_eq!(
        gh("/r").envs(),
        vec![
            ("GH_PROMPT_DISABLED".to_string(), "1".to_string()),
            ("GH_NO_UPDATE_NOTIFIER".to_string(), "1".to_string()),
        ]
    );
}
