use claude_kanban::git::GitError;
use claude_kanban::name::assistant;
use claude_kanban::ops::{apply, Op};
use claude_kanban::store::claims::{Claim, ClaimKind};
use claude_kanban::store::model::{Column, ColumnId, External, Status, Ticket, TicketId};
use claude_kanban::store::Store;
use claude_kanban::time::Timestamp;
use claude_kanban::worktree::{
    ask_existing_branch, ask_main_status, copy_verdict, derive_slug, dirty_worktree, existing_branch, finish, finished, list,
    live_worktree_for, path_for, repo_root, retire, sparse_available, start, start_question, started, submodule_task,
    ticket_for_branch, worktree_entries, worktree_path, Checkout, FinishFacts, FinishPlan, FinishQuestion, FinishStep,
    Retirement, StartFacts, StartOpts, StartPlan, StartQuestion, StartStep, Task,
};

const NOW: Timestamp = Timestamp { secs: 1_700_000_000, nanos: 0 };

#[test]
fn slugs_condense_like_design_md_says() {
    assert_eq!(derive_slug("Rate-limit the login route"), "rate-limit-login");
    assert_eq!(derive_slug("Add session refresh"), "add-session-refresh");
    assert_eq!(derive_slug("Add authorization based on OAuth from Google"), "add-authorization-oauth");
    assert_eq!(derive_slug("The Of For"), "work", "all-stopword titles still get a slug");
    assert_eq!(derive_slug("Ünïcode Tïtle Here Now"), "code-tle-here", "non-ascii splits rather than panics");
}

#[test]
fn long_slugs_are_cut_without_a_trailing_hyphen() {
    assert_eq!(derive_slug("internationalization improvements everywhere"), "internationalization-imp");
    assert_eq!(derive_slug("abcdefghijk abcdefghijk zz"), "abcdefghijk-abcdefghijk");
    assert_eq!(derive_slug(""), "work");
}

#[test]
fn same_named_repos_get_distinct_worktree_paths() {
    let id = TicketId("K-1".into());
    let path_a = worktree_path("/tmp/root", Some("api"), 0x00c0_ffee, &id);
    let path_b = worktree_path("/tmp/root", Some("api"), 0xdead_beef, &id);
    assert_ne!(path_a, path_b, "the path hash keeps two repos both named `api` apart");
    assert_eq!(path_a, "/tmp/root/api-00c0ffee/K-1");
    assert_eq!(path_b, "/tmp/root/api-deadbeef/K-1");
    assert_eq!(worktree_path("/tmp/root", None, 1, &id), "/tmp/root/repo-00000001/K-1");
}

#[test]
fn branch_to_ticket_mapping_is_strict() {
    assert_eq!(ticket_for_branch("k-7/rate-limit-login").as_deref(), Some("K-7"));
    assert_eq!(ticket_for_branch("k-12/x").as_deref(), Some("K-12"));
    assert_eq!(ticket_for_branch("feature/nope"), None);
    assert_eq!(ticket_for_branch("k-x/nope"), None);
    assert_eq!(ticket_for_branch("k-/x"), None);
    assert_eq!(ticket_for_branch("myrepo-issue0042"), None, "external branches are data, not a format");
}

/// A store with one claimed ready ticket, K-1.
fn scratch() -> Store {
    let mut store = Store::at(".kanban");
    store.init().unwrap();
    let op = Op::CreateTicket {
        title: "Rate-limit the login route".into(),
        body: String::new(),
        epic: None,
        labels: vec![],
        depends_on: vec![],
        status: Status::Ready,
        model: None,
        effort: None,
        auto_merge: false,
    };
    apply(&mut store, None, op).unwrap();
    apply(&mut store, None, Op::Claim { id: k1(), agent: assistant() }).unwrap();
    store
}

fn k1() -> TicketId {
    TicketId("K-1".into())
}

fn ticket_of(store: &Store) -> Ticket {
    store.read_board().unwrap().ticket(&k1()).unwrap().clone()
}

fn line(task: &Task) -> String {
    format!("{}: {} {}", task.call.dir, task.call.program, task.call.args.join(" "))
}

fn known(branch: Option<&str>, worktree: Option<&str>) -> StartFacts {
    StartFacts {
        pruned: true,
        version: Some(Some((2, 43))),
        branch: Some(branch.map(str::to_owned)),
        worktree: Some(worktree.map(str::to_owned)),
    }
}

fn planned(t: &Ticket, opts: &StartOpts, facts: &StartFacts) -> StartPlan {
    match start("/repo", &k1(), Some(t), opts, "/wt/K-1", facts) {
        StartStep::Go(plan) => plan,
        other => panic!("expected a plan, got {other:?}"),
    }
}

#[test]
fn start_creates_a_sparse_worktree_without_the_board() {
    let mut store = scratch();
    let t = ticket_of(&store);
    let plan = planned(&t, &StartOpts::default(), &known(None, None));
    assert_eq!(plan.branch, "k-1/rate-limit-login");
    assert!(!plan.reattached);
    assert!(plan.sparse, "this git is recent enough");
    let lines: Vec<String> = plan.tasks.iter().map(line).collect();
    assert_eq!(
        lines,
        vec![
            "/repo: git worktree add --no-checkout /wt/K-1 -b k-1/rate-limit-login HEAD",
            "/wt/K-1: git sparse-checkout set --no-cone /* !/.kanban/",
            "/wt/K-1: git checkout",
        ]
    );
    assert_eq!(plan.tasks[0].context.as_deref(), Some("creating the worktree at /wt/K-1"));

    let (op, report) = started(&k1(), plan, vec!["more".into()]);
    apply(&mut store, None, op).unwrap();
    let board = store.read_board().unwrap();
    assert_eq!(board.tickets[0].column.branch(), Some("k-1/rate-limit-login"));
    let claims = store.read_claims().unwrap();
    assert_eq!(claims[0].path.as_deref(), Some(report.path.as_str()));
    assert_eq!(report.warnings, vec!["more"]);
}

#[test]
fn start_is_idempotent_and_recovers_from_a_wipe() {
    let store = scratch();
    let t = ticket_of(&store);
    let first = planned(&t, &StartOpts::default(), &known(None, None));

    let again = planned(&t, &StartOpts::default(), &known(Some(&first.branch), Some("/wt/K-1")));
    assert!(again.reattached);
    assert_eq!(again.path, first.path);
    assert_eq!(again.branch, first.branch);
    assert!(again.tasks.is_empty());

    let recovered = planned(&t, &StartOpts::default(), &known(Some(&first.branch), None));
    assert!(recovered.reattached);
    assert_eq!(recovered.branch, first.branch);
    assert_eq!(line(&recovered.tasks[0]), "/repo: git worktree add --no-checkout /wt/K-1 k-1/rate-limit-login");
}

#[test]
fn start_finds_out_what_it_needs_step_by_step() {
    let store = scratch();
    let t = ticket_of(&store);
    let opts = StartOpts::default();
    let mut facts = StartFacts::default();
    let ask = |facts: &StartFacts| match start("/repo", &k1(), Some(&t), &opts, "/wt/K-1", facts) {
        StartStep::Ask(q) => q,
        other => panic!("expected a question, got {other:?}"),
    };
    assert_eq!(ask(&facts), StartQuestion::Prune);
    facts.pruned = true;
    assert_eq!(ask(&facts), StartQuestion::Version);
    facts.version = Some(Some((2, 35)));
    assert_eq!(ask(&facts), StartQuestion::Branch);
    facts.branch = Some(Some("k-1/x".into()));
    assert_eq!(ask(&facts), StartQuestion::Worktree);
    let calls: Vec<String> = [StartQuestion::Prune, StartQuestion::Version, StartQuestion::Branch, StartQuestion::Worktree]
        .into_iter()
        .map(|q| start_question("/repo", &k1(), q).args.join(" "))
        .collect();
    assert_eq!(
        calls,
        vec![
            "worktree prune",
            "version",
            "for-each-ref --format=%(refname:short) refs/heads/k-1/*",
            "worktree list --porcelain",
        ]
    );
    assert_eq!(ask_existing_branch("/repo", &k1()).args[2], "refs/heads/k-1/*");
}

#[test]
fn an_old_git_takes_a_full_worktree_and_says_so() {
    let store = scratch();
    let t = ticket_of(&store);
    let facts = StartFacts { version: Some(Some((2, 35))), ..known(None, None) };
    let plan = planned(&t, &StartOpts { slug: Some("mine".into()), base: Some("v1".into()), ..StartOpts::default() }, &facts);
    assert!(!plan.sparse);
    assert_eq!(line(&plan.tasks[0]), "/repo: git worktree add /wt/K-1 -b k-1/mine v1");
    assert_eq!(plan.tasks.len(), 1);
    assert_eq!(
        plan.warnings,
        vec!["git 2.35 is below 2.36 — falling back to a full worktree (safe: the board is anchored to the main checkout anyway)"]
    );
    let mut warnings = vec![];
    assert!(!sparse_available(false, None, &mut warnings));
    assert!(warnings[0].starts_with("git ?? is below 2.36"));
    assert!(sparse_available(false, Some((2, 36)), &mut warnings) && sparse_available(false, Some((3, 0)), &mut warnings));
    assert!(!sparse_available(true, Some((2, 43)), &mut warnings));
    assert_eq!(warnings.len(), 1, "asking for a full worktree is nothing to warn of");
}

#[test]
fn unclaimed_and_external_tickets_are_refused() {
    let store = scratch();
    let mut t = ticket_of(&store);
    let refusal = |t: Option<&Ticket>| match start("/repo", &k1(), t, &StartOpts::default(), "/wt", &StartFacts::default()) {
        StartStep::Refuse(why) => why,
        other => panic!("expected a refusal, got {other:?}"),
    };
    t.column = Column::Todo;
    assert!(refusal(Some(&t)).contains("claim it first"));
    t.external = Some(External::github_issue(42));
    t.column = Column::Doing { owner: "minesweeper".into(), branch: None };
    assert!(refusal(Some(&t)).contains("external"));
    assert_eq!(refusal(None), "K-1 not found on the board");
}

fn ended(t: &Ticket, force: bool, merge: bool, facts: &FinishFacts) -> FinishStep {
    finish("/repo", &k1(), Some(t), force, merge, facts)
}

fn refused(step: FinishStep) -> String {
    match step {
        FinishStep::Refuse(why) => why,
        other => panic!("expected a refusal, got {other:?}"),
    }
}

fn gone(step: FinishStep) -> FinishPlan {
    match step {
        FinishStep::Go(plan) => plan,
        other => panic!("expected a plan, got {other:?}"),
    }
}

fn worked() -> (Store, Ticket) {
    let mut store = scratch();
    let op = Op::StampWorktree { id: k1(), branch: "k-1/rate-limit-login".into(), path: "/wt/K-1".into() };
    apply(&mut store, None, op).unwrap();
    let t = ticket_of(&store);
    (store, t)
}

fn seen(dirty: bool) -> FinishFacts {
    FinishFacts {
        branch: Some(None),
        worktree: Some(Some("/wt/K-1".into())),
        dirty: Some(dirty),
        main: Some(Some("main".into())),
        current: Some(Some("main".into())),
        main_dirty: Some(false),
    }
}

#[test]
fn finish_refuses_dirty_then_discards_on_request_and_keeps_the_branch() {
    let (mut store, t) = worked();
    let why = refused(ended(&t, false, false, &seen(true)));
    assert!(why.contains("uncommitted"), "{why}");

    let plan = gone(ended(&t, true, false, &seen(true)));
    assert_eq!(plan.removed.as_deref(), Some("/wt/K-1"));
    assert_eq!(plan.branch.as_deref(), Some("k-1/rate-limit-login"));
    let lines: Vec<String> = plan.tasks.iter().map(line).collect();
    assert_eq!(lines, vec!["/repo: git worktree remove --force /wt/K-1", "/repo: git worktree prune"]);

    let (op, report) = finished(&k1(), plan);
    apply(&mut store, None, op).unwrap();
    let claims = store.read_claims().unwrap();
    assert_eq!(claims.len(), 1);
    assert!(claims[0].path.is_none());
    assert_eq!((report.ticket.as_str(), report.merged), ("K-1", false));
}

#[test]
fn finish_with_merge_lands_the_commits_on_the_current_branch() {
    let (_, t) = worked();
    let plan = gone(ended(&t, false, true, &seen(false)));
    assert!(plan.merged);
    let lines: Vec<String> = plan.tasks.iter().map(line).collect();
    assert_eq!(
        lines,
        vec![
            "/repo: git merge --no-edit k-1/rate-limit-login",
            "/repo: git worktree remove /wt/K-1",
            "/repo: git worktree prune",
        ]
    );
    assert_eq!(plan.tasks[0].context.as_deref(), Some("merging k-1/rate-limit-login into the main branch"));
}

#[test]
fn merge_refuses_when_the_main_checkout_is_not_on_the_main_branch() {
    let (_, t) = worked();
    let facts = FinishFacts { current: Some(Some("elsewhere".into())), ..seen(false) };
    let why = refused(ended(&t, false, true, &facts));
    assert!(why.contains("'elsewhere', not 'main'"), "{why}");
    let facts = FinishFacts { current: Some(None), ..seen(false) };
    let why = refused(ended(&t, false, true, &facts));
    assert_eq!(why, "the main checkout is on a detached HEAD — check out 'main' before finish --merge");
    assert!(gone(ended(&t, false, true, &seen(false))).merged, "back on main, the merge proceeds");
    let facts = FinishFacts { main: Some(None), current: None, ..seen(false) };
    assert!(gone(ended(&t, false, true, &facts)).merged, "without a main branch there is no target to insist on");
}

#[test]
fn merge_refuses_when_the_main_checkout_is_dirty() {
    let (_, t) = worked();
    let facts = FinishFacts { main_dirty: Some(true), ..seen(false) };
    let why = refused(ended(&t, false, true, &facts));
    assert!(why.contains("main checkout has uncommitted changes"), "{why}");
    assert_eq!(ask_main_status("/repo").args.join(" "), "status --porcelain -- . :(exclude).kanban");
}

#[test]
fn finish_finds_out_what_it_needs_step_by_step() {
    let (_, t) = worked();
    let ask = |merge: bool, facts: &FinishFacts| match ended(&t, false, merge, facts) {
        FinishStep::Ask(q) => q,
        other => panic!("expected a question, got {other:?}"),
    };
    let mut facts = FinishFacts::default();
    assert_eq!(ask(true, &facts), FinishQuestion::Branch);
    facts.branch = Some(None);
    assert_eq!(ask(true, &facts), FinishQuestion::Worktree);
    facts.worktree = Some(Some("/wt/K-1".into()));
    assert_eq!(ask(true, &facts), FinishQuestion::Dirty);
    facts.dirty = Some(false);
    assert_eq!(ask(true, &facts), FinishQuestion::Main);
    facts.main = Some(Some("main".into()));
    assert_eq!(ask(true, &facts), FinishQuestion::Current);
    facts.current = Some(Some("main".into()));
    assert_eq!(ask(true, &facts), FinishQuestion::MainDirty);
    let plan = gone(ended(&t, false, false, &facts));
    assert!(!plan.merged);
}

#[test]
fn a_ticket_without_a_branch_has_nothing_to_merge() {
    let store = scratch();
    let t = ticket_of(&store);
    let facts = FinishFacts { branch: Some(None), ..FinishFacts::default() };
    assert_eq!(refused(ended(&t, false, true, &facts)), "K-1 has no branch to merge");
    let plan = gone(ended(&t, false, false, &facts));
    assert!(plan.removed.is_none() && plan.branch.is_none());
}

#[test]
fn copy_to_worktrees_honours_the_gitignore_gate() {
    assert_eq!(copy_verdict(".env", true, true), None);
    assert_eq!(
        copy_verdict("tracked.txt", true, false).unwrap(),
        "copy_to_worktrees: tracked.txt is not gitignored — skipped (only ignored files may be copied)"
    );
    assert_eq!(copy_verdict("absent.txt", false, false).unwrap(), "copy_to_worktrees: absent.txt is not a file — skipped");
    assert_eq!(line(&submodule_task("/wt")), "/wt: git submodule update --init --recursive");
}

const LISTING: &str = "worktree /repo\nHEAD aaa\nbranch refs/heads/main\n\nworktree /wt/K-1\nHEAD bbb\nbranch refs/heads/k-1/work\n\nworktree /wt/odd\nHEAD ccc\ndetached\n";

#[test]
fn the_porcelain_listing_is_read_stanza_by_stanza() {
    let es = worktree_entries(LISTING);
    let seen: Vec<(&str, Option<&str>)> = es.iter().map(|e| (e.path.as_str(), e.branch.as_deref())).collect();
    assert_eq!(seen, vec![("/repo", Some("main")), ("/wt/K-1", Some("k-1/work")), ("/wt/odd", None)]);
    assert_eq!(live_worktree_for(&es, "k-1/work").as_deref(), Some("/wt/K-1"));
    assert_eq!(live_worktree_for(&es, "main"), None, "the main checkout does not count");
    assert_eq!(existing_branch("k-1/work\nk-1/other").as_deref(), Some("k-1/work"));
    assert_eq!(existing_branch(""), None);
    assert_eq!(repo_root("/repo/x", &Ok(LISTING.into())).unwrap(), "/repo");
    let none = Err(GitError::Failed { args: "git".into(), stderr: "no".into() });
    assert_eq!(
        repo_root("/elsewhere", &none).unwrap_err(),
        "/elsewhere is not inside a git repository — worktrees need one"
    );
}

fn checkout(path: &str, branch: Option<&str>, missing: bool, status: Option<&str>) -> Checkout {
    Checkout {
        path: path.into(),
        branch: branch.map(str::to_owned),
        missing,
        status: status.map(str::to_owned),
    }
}

#[test]
fn list_joins_worktrees_with_claims_and_flags_missing_paths() {
    let claims = vec![
        Claim { ticket: k1(), agent: assistant(), since: NOW, path: Some("/wt/K-1".into()), kind: ClaimKind::Work },
        Claim { ticket: TicketId("K-9".into()), agent: "ghost".into(), since: NOW, path: Some("/wt/K-9".into()), kind: ClaimKind::Work },
        Claim { ticket: TicketId("K-8".into()), agent: "idle".into(), since: NOW, path: None, kind: ClaimKind::Work },
    ];
    let main = checkout("/repo", Some("main"), false, Some(" M x"));
    let rows = list(&vec![main, checkout("/wt/K-1", Some("k-1/work"), false, Some(""))], &claims);
    assert_eq!(rows.len(), 2);
    assert_eq!(rows[0].ticket.as_deref(), Some("K-1"));
    assert_eq!(rows[0].agent.as_deref(), Some(assistant().as_str()));
    assert!(!rows[0].dirty && !rows[0].missing);
    assert_eq!(rows[1].ticket.as_deref(), Some("K-9"), "a claim whose worktree has vanished still has its row");
    assert!(rows[1].missing && rows[1].branch.is_empty());

    let main = checkout("/repo", Some("main"), false, None);
    let rows = list(&vec![main, checkout("/wt/K-1", Some("k-1/work"), false, Some("?? junk.txt"))], &vec![]);
    assert!(rows[0].dirty);

    let main = checkout("/repo", Some("main"), false, None);
    let rows = list(&vec![main, checkout("/wt/K-1", Some("k-1/work"), true, Some("?? junk.txt"))], &vec![]);
    assert!(rows[0].missing, "a wiped path reads as missing, not as live work: {rows:?}");
    assert!(!rows[0].dirty);
}

#[test]
fn a_finished_tickets_worktree_is_retired_unless_it_holds_work() {
    let es = worktree_entries(LISTING);
    let (_, mut t) = worked();
    t.column = Column::Done { branch: Some("k-1/work".into()), completed_at: NOW, discarded: false };
    let path = path_for(&es, &t);
    assert_eq!(path.as_deref(), Some("/wt/K-1"));
    match retire("/repo", &k1(), path.as_deref(), false) {
        Retirement::Remove(tasks) => {
            let lines: Vec<String> = tasks.iter().map(line).collect();
            assert_eq!(lines, vec!["/repo: git worktree remove /wt/K-1", "/repo: git worktree prune"]);
        }
        other => panic!("{other:?}"),
    }
    match retire("/repo", &k1(), path.as_deref(), true) {
        Retirement::Keep(Op::AddNote { text, author, .. }) => {
            assert_eq!(author.as_deref(), Some("kanban"));
            assert!(text.contains("uncommitted changes") && text.contains("/wt/K-1"), "{text}");
        }
        other => panic!("{other:?}"),
    }
    assert!(matches!(retire("/repo", &k1(), None, false), Retirement::Nothing));
    t.column = Column::Todo;
    assert_eq!(path_for(&es, &t), None);
    assert_eq!(t.column.id(), ColumnId::Todo);
    assert_eq!(dirty_worktree(Some("/wt/K-1".into()), Some("?? x")).as_deref(), Some("/wt/K-1"));
    assert_eq!(dirty_worktree(Some("/wt/K-1".into()), Some("")), None);
    assert_eq!(dirty_worktree(Some("/wt/K-1".into()), None), None);
}
