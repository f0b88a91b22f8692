use claude_kanban::config::{
    default_worktree_root, Config, DEFAULT_IDLE_TIME_SECS, DEFAULT_POLL_INTERVAL_SECS,
};

#[test]
fn missing_file_yields_defaults() {
    let cfg = Config::load(None);
    assert!(cfg.worktree_root.is_none());
    assert!(cfg.copy_to_worktrees.is_empty());
}

#[test]
fn precedence_is_flag_then_config_then_default() {
    let cfg = Config { worktree_root: Some("/from/config".into()), ..Config::default() };
    assert_eq!(cfg.worktree_root(Some("/from/flag".into())), "/from/flag");
    assert_eq!(cfg.worktree_root(None), "/from/config");
    assert_eq!(Config::default().worktree_root(None), default_worktree_root());
}

#[test]
fn max_workers_absent_and_zero_collapse_to_one() {
    assert_eq!(Config::default().max_workers(), 1);
    assert_eq!(Config { max_workers: Some(0), ..Config::default() }.max_workers(), 1);
    assert_eq!(Config { max_workers: Some(4), ..Config::default() }.max_workers(), 4);
}

#[test]
fn idle_time_absent_and_zero_collapse_to_five_minutes() {
    assert_eq!(Config::default().idle_time(), DEFAULT_IDLE_TIME_SECS);
    assert_eq!(Config { idle_time: Some(0), ..Config::default() }.idle_time(), DEFAULT_IDLE_TIME_SECS);
    assert_eq!(Config { idle_time: Some(30), ..Config::default() }.idle_time(), 30);
    assert_eq!(DEFAULT_IDLE_TIME_SECS, 300);
}

#[test]
fn poll_interval_defaults_to_a_minute_and_zero_switches_it_off() {
    assert_eq!(Config::default().poll_interval(), Some(DEFAULT_POLL_INTERVAL_SECS));
    assert_eq!(Config { poll_interval: Some(0), ..Config::default() }.poll_interval(), None, "0 is the off switch");
    assert_eq!(Config { poll_interval: Some(15), ..Config::default() }.poll_interval(), Some(15));
    assert_eq!(DEFAULT_POLL_INTERVAL_SECS, 60);
}

#[test]
fn main_branch_config_beats_detection() {
    let cfg = Config { main_branch: Some("trunk".into()), ..Config::default() };
    assert_eq!(cfg.main_branch(None).as_deref(), Some("trunk"));
    assert_eq!(cfg.main_branch(Some("main".into())).as_deref(), Some("trunk"));
    assert_eq!(Config::default().main_branch(None), None, "no config, no repo: no answer");
    assert_eq!(Config::default().main_branch(Some("main".into())).as_deref(), Some("main"));
}

#[test]
fn port_precedence_is_flag_env_then_config_then_nobody() {
    let cfg = Config { port: Some(5050), ..Config::default() };
    assert_eq!(cfg.port(Some(8080)), Some(8080), "flag/env beats config");
    assert_eq!(cfg.port(None), Some(5050), "config beats the default");
    assert_eq!(Config::default().port(None), None, "None means: try 4747, then hunt");
}

#[test]
fn delegation_is_off_unless_chosen_and_has_default_labels() {
    let cfg = Config::default();
    assert!(!cfg.minesweeper());
    assert_eq!(cfg.minesweeper_label(), "autofix");
    assert_eq!(cfg.minesweeper_flag_labels(), vec!["minesweeperFailed"]);
    let cfg = Config {
        minesweeper: Some(true),
        minesweeper_label: Some("bot".into()),
        minesweeper_flag_labels: vec!["help".into(), "stuck".into()],
        ..Config::default()
    };
    assert!(cfg.minesweeper());
    assert_eq!(cfg.minesweeper_label(), "bot");
    assert_eq!(cfg.minesweeper_flag_labels(), vec!["help", "stuck"]);
}
