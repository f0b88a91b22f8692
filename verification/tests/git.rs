use claude_kanban::git::{
    ask_ancestor, ask_branch, ask_cherry, ask_current_branch, ask_diff, ask_local_heads, ask_origin_head, ask_remotes,
    ask_status, ask_version, ask_worktrees, branch_exists, cherry_equivalent, current_branch, detect_main_branch, git,
    is_ancestor, local_heads, main_worktree, run, version, Ended, GitError, Invocation,
};

fn ok(out: &str) -> Result<String, GitError> {
    Ok(out.into())
}

fn failed() -> Result<String, GitError> {
    Err(GitError::Failed { args: "git x".into(), stderr: "no".into() })
}

#[test]
fn version_parses() {
    let (major, minor) = version(&ok("git version 2.43.0")).expect("a plain version text");
    assert!(major >= 2, "unexpectedly ancient git {major}.{minor}");
    assert_eq!((major, minor), (2, 43));
    assert_eq!(version(&ok("git version 2.39.3 (Apple Git-146)")), Some((2, 39)));
    assert_eq!(version(&ok("git version")), None);
    assert_eq!(version(&ok("git version two.one")), None);
    assert_eq!(version(&failed()), None);
}

#[test]
fn main_worktree_finds_the_repo_root_from_a_subdirectory() {
    let out = "worktree /home/me/repo\nHEAD abc\nbranch refs/heads/main\n\nworktree /tmp/wt/K-1\nHEAD def\n";
    assert_eq!(main_worktree(&ok(out)).as_deref(), Some("/home/me/repo"));
}

#[test]
fn main_worktree_is_none_outside_a_repo() {
    assert!(main_worktree(&failed()).is_none());
    assert!(main_worktree(&ok("")).is_none());
}

#[test]
fn is_ancestor_distinguishes_yes_no_and_cannot_answer() {
    assert_eq!(is_ancestor(Some(0)), Some(true));
    assert_eq!(is_ancestor(Some(1)), Some(false));
    assert_eq!(is_ancestor(Some(128)), None, "an unknown rev is no answer, not a no");
    assert_eq!(is_ancestor(None), None);
}

#[test]
fn detect_main_branch_prefers_origin_head_then_local_names() {
    assert_eq!(detect_main_branch(&ok("origin/trunk"), true, true).as_deref(), Some("trunk"));
    assert_eq!(detect_main_branch(&failed(), true, true).as_deref(), Some("main"));
    assert_eq!(detect_main_branch(&failed(), false, true).as_deref(), Some("master"));
    assert_eq!(detect_main_branch(&failed(), false, false), None);
    assert_eq!(detect_main_branch(&ok("origin/feature/x"), false, false).as_deref(), Some("feature/x"));
}

#[test]
fn current_branch_and_local_heads_answer_and_degrade() {
    assert_eq!(current_branch(&ok("main")).as_deref(), Some("main"));
    assert_eq!(current_branch(&ok("")), None, "detached HEAD is no branch");
    assert_eq!(current_branch(&failed()), None);
    let heads = local_heads(&ok("main\nk-2/extra")).unwrap();
    assert_eq!(heads, vec!["main", "k-2/extra"]);
    assert_eq!(local_heads(&failed()), None);
    assert!(branch_exists(&ok("abc")) && !branch_exists(&failed()));
}

#[test]
fn cherry_equivalent_proves_a_rebase_then_ff_landing() {
    assert_eq!(cherry_equivalent(&ok("- abc\n+ def")), Some(false), "not landed yet");
    assert_eq!(cherry_equivalent(&ok("- abc\n- def")), Some(true), "patch-ids prove the landing");
    assert_eq!(cherry_equivalent(&ok("")), Some(true));
    assert_eq!(cherry_equivalent(&failed()), None);
}

#[test]
fn failed_commands_carry_stderr() {
    let call = git("/repo").arg("worktree").arg("add").arg("/nonexistent/target").arg("no-such-ref");
    let ended = Ended { success: false, stdout: String::new(), stderr: "fatal: invalid reference\n".into() };
    let err = run(&call, &ended).unwrap_err();
    assert!(matches!(err, GitError::Failed { .. }), "{err:?}");
    assert_eq!(
        err.to_string(),
        "`git worktree add /nonexistent/target no-such-ref` failed: fatal: invalid reference"
    );
    let ended = Ended { success: true, stdout: "main\n\n".into(), stderr: "noise".into() };
    assert_eq!(run(&call, &ended).unwrap(), "main");
    let spawn = GitError::Spawn { missing: true, source: "not found".into() };
    assert_eq!(spawn.to_string(), "could not run: not found");
}

fn args(call: &Invocation) -> Vec<&str> {
    call.args.iter().map(String::as_str).collect()
}

#[test]
fn questions_are_argument_vectors() {
    assert_eq!(args(&ask_version(".")), ["version"]);
    assert_eq!(args(&ask_worktrees("/r")), ["worktree", "list", "--porcelain"]);
    assert_eq!(args(&ask_ancestor("/r", "tip", "main")), ["merge-base", "--is-ancestor", "tip", "main"]);
    assert_eq!(args(&ask_origin_head("/r")), ["symbolic-ref", "--short", "refs/remotes/origin/HEAD"]);
    assert_eq!(args(&ask_current_branch("/r")), ["branch", "--show-current"]);
    assert_eq!(args(&ask_local_heads("/r")), ["for-each-ref", "refs/heads", "--format=%(refname:short)"]);
    assert_eq!(args(&ask_branch("/r", "a b")), ["rev-parse", "--quiet", "--verify", "refs/heads/a b"]);
    assert_eq!(args(&ask_cherry("/r", "main", "tip")), ["cherry", "main", "tip"]);
    assert_eq!(args(&ask_diff("/r", "main", "k-1/x")), ["diff", "main...k-1/x"]);
    assert_eq!(args(&ask_remotes("/r")), ["remote"]);
    assert_eq!(args(&ask_status("/r")), ["status", "--porcelain"]);
    let call = ask_remotes("/r");
    assert_eq!((call.program.as_str(), call.dir.as_str(), call.silenced), ("git", "/r", false));
    assert!(call.envs().is_empty());
    assert_eq!(call.silently().envs(), vec![("GIT_TERMINAL_PROMPT".to_string(), "0".to_string())]);
}
