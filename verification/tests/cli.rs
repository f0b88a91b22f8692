use claude_kanban::cli::{finish_summary, init, list_summary, start_summary, upgrades, Command, WorktreeCommand};
use claude_kanban::store::Store;
use claude_kanban::worktree::{FinishReport, StartReport, WorktreeRow};

#[test]
fn every_face_but_init_upgrades_the_store() {
    assert!(!upgrades(&Command::Init));
    assert!(upgrades(&Command::Mcp));
    assert!(upgrades(&Command::Serve { port: None, no_open: true, assets_dir: None }));
    assert!(upgrades(&Command::Worktree { command: WorktreeCommand::List { json: false } }));
}

#[test]
fn init_says_what_to_commit() {
    let lines = init(&Store::at("/repo/.kanban"));
    assert_eq!(
        lines,
        vec![
            "Initialised an empty board at /repo/.kanban/board.json",
            "Commit /repo/.kanban/board.json, /repo/.kanban/config.json, and /repo/.kanban/.gitignore — claims, locks, and pid files stay untracked.",
        ]
    );
}

#[test]
fn a_started_worktree_is_summed_up() {
    let mut report = StartReport {
        ticket: "K-7".into(),
        branch: "k-7/x".into(),
        path: "/wt/K-7".into(),
        sparse: true,
        reattached: false,
        warnings: vec!["careful".into()],
    };
    assert_eq!(
        start_summary(&report),
        vec![
            "created worktree for K-7:",
            "  branch  k-7/x",
            "  path    /wt/K-7  (sparse — no .kanban/)",
            "  warning: careful",
        ]
    );
    report.sparse = false;
    report.reattached = true;
    report.warnings.clear();
    assert_eq!(start_summary(&report), vec!["re-attached worktree for K-7:", "  branch  k-7/x", "  path    /wt/K-7"]);
}

fn report(removed: Option<&str>, branch: Option<&str>, merged: bool) -> FinishReport {
    FinishReport {
        ticket: "K-7".into(),
        branch: branch.map(str::to_owned),
        removed: removed.map(str::to_owned),
        merged,
    }
}

#[test]
fn a_finished_worktree_is_summed_up() {
    assert_eq!(
        finish_summary(&report(Some("/wt"), Some("b"), true)),
        vec!["removed the worktree at /wt", "branch b merged into the current branch — and kept"]
    );
    assert_eq!(
        finish_summary(&report(None, Some("b"), false)),
        vec!["no live worktree to remove", "branch b kept — merge or push it when you're ready"]
    );
    assert_eq!(
        finish_summary(&report(None, None, false)),
        vec!["no live worktree to remove", "no branch recorded for K-7"]
    );
}

fn row(ticket: Option<&str>, missing: bool, dirty: bool, agent: Option<&str>) -> WorktreeRow {
    WorktreeRow {
        ticket: ticket.map(str::to_owned),
        branch: "k-7/x".into(),
        path: "/wt".into(),
        dirty,
        missing,
        agent: agent.map(str::to_owned),
    }
}

#[test]
fn worktrees_are_listed_in_columns() {
    assert_eq!(list_summary(&vec![]), vec!["no ticket worktrees"]);
    let lines = list_summary(&vec![
        row(Some("K-7"), false, true, Some("me")),
        row(None, false, false, None),
        row(Some("K-123456"), true, true, None),
    ]);
    let pad = " ".repeat(27);
    assert_eq!(lines[0], format!("K-7    k-7/x{pad} /wt  (dirty)  [me]"));
    assert_eq!(lines[1], format!("—      k-7/x{pad} /wt  (clean)"));
    assert_eq!(lines[2], format!("K-123456 k-7/x{pad} /wt  (missing — restore with `worktree start`)"));
}
