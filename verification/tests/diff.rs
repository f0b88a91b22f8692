use claude_kanban::diff::{can_parse, compute, eligible, lang_for, parse, DiffFacts, DiffQuestion, DiffStep};
use claude_kanban::store::model::{Column, External, Status, Ticket, TicketId};

const MODIFY: &str = "\
diff --git a/src/foo.rs b/src/foo.rs
index e69de29..1111111 100644
--- a/src/foo.rs
+++ b/src/foo.rs
@@ -1,3 +1,3 @@
 fn main() {
-    println!(\"old\");
+    println!(\"new\");
 }
";

#[test]
fn parses_a_single_file_modification_with_line_numbers() {
    let files = parse(MODIFY).unwrap();
    assert_eq!(files.len(), 1);
    let f = &files[0];
    assert_eq!(f.path, "src/foo.rs");
    assert_eq!(f.old_path, None);
    assert_eq!(f.status, "modified");
    assert_eq!(f.lang, Some("rust"));
    assert_eq!((f.added, f.deleted), (1, 1));

    let lines = &f.hunks[0].lines;
    let added = lines.iter().find(|l| l.css == "dl-add").unwrap();
    let removed = lines.iter().find(|l| l.css == "dl-del").unwrap();
    assert_eq!(added.text, "    println!(\"new\");");
    assert!(!added.text.starts_with('+'), "the +/- marker must not survive into the rendered text");
    assert!(added.new_no.is_some() && added.old_no.is_none());
    assert!(removed.old_no.is_some() && removed.new_no.is_none());
}

#[test]
fn classifies_added_and_deleted_files() {
    let added = parse("--- /dev/null\n+++ b/new.txt\n@@ -0,0 +1 @@\n+hi\n").unwrap();
    assert_eq!((added[0].status, added[0].path.as_str()), ("added", "new.txt"));

    let deleted = parse("--- a/gone.txt\n+++ /dev/null\n@@ -1 +0,0 @@\n-bye\n").unwrap();
    assert_eq!((deleted[0].status, deleted[0].path.as_str()), ("deleted", "gone.txt"));
}

#[test]
fn empty_diff_yields_no_files() {
    assert!(parse("").unwrap().is_empty());
}

#[test]
fn language_is_mapped_by_extension_and_absent_when_unknown() {
    assert_eq!(lang_for("src/main.rs"), Some("rust"));
    assert_eq!(lang_for("web/app.ts"), Some("typescript"));
    assert_eq!(lang_for("Makefile"), None);
    assert_eq!(lang_for("notes"), None);
}

#[test]
fn more_languages_by_extension() {
    assert_eq!(lang_for("a.b/c.yml"), Some("yaml"));
    assert_eq!(lang_for("Cargo.toml"), Some("ini"));
    assert_eq!(lang_for("x.patch"), Some("diff"));
    assert_eq!(lang_for("x.unknown"), None);
}

#[test]
fn a_rename_names_both_paths_and_a_section_joins_the_header() {
    let files = parse("--- a/old.rs\n+++ b/new.rs\n@@ -3,1 +3,1 @@ fn main() {\n-a\n+b\n").unwrap();
    assert_eq!(files[0].status, "renamed");
    assert_eq!(files[0].path, "new.rs");
    assert_eq!(files[0].old_path.as_deref(), Some("old.rs"));
    assert_eq!(files[0].hunks[0].header, "@@ -3,1 +3,1 @@ fn main() {");
    let lines: Vec<(&str, &str)> = files[0].hunks[0].lines.iter().map(|l| (l.css, l.text.as_str())).collect();
    assert_eq!(lines, vec![("dl-del", "a"), ("dl-add", "b")]);
    assert_eq!((files[0].hunks[0].lines[0].old_no, files[0].hunks[0].lines[1].new_no), (Some(3), Some(3)));
}

#[test]
fn a_stray_hunk_is_an_error() {
    let e = parse("@@ -1 +1 @@\n-a\n+b\n").unwrap_err();
    assert_eq!(e, "parsing the unified diff: Unexpected hunk found: @@ -1 +1 @@");
}

#[test]
fn texts_that_cannot_be_taken_apart_are_known_beforehand() {
    assert!(can_parse(MODIFY));
    assert!(can_parse(""));
    assert!(can_parse("@@ -1 +1 @@\n+++ b/x\n"));
    assert!(!can_parse("+++ b/new.txt\n"), "a target without any source");
    assert!(!can_parse("--- a/x\n+++ b/x\n@@ -99999999999999999999999,1 +1,1 @@\n"), "a number out of all proportion");
    assert!(can_parse("--- a/x\n+++ b/x\n@@ -1 +1 @@ fn ünïcode() 12345678901234567890\n-a\n+b\n"));
    assert!(can_parse("@@ -ünïcode @@\n"), "no header, whatever it holds");
    assert!(!can_parse("--- a/x\n+++ b/x\n@@ -١ +1 @@\n"), "digits of another script");
    assert!(can_parse("--- a/x\n+++ b/x\n@@ -18446744073709551000,1 +1 @@\n-a\n+b\n"));
    assert!(!can_parse("--- a/x\n+++ b/x\n@@ -18446744073709551615,1 +1 @@\n-a\n+b\n"), "no line behind the last");
}

fn ticket(column: Column) -> Ticket {
    Ticket {
        id: TicketId("K-7".into()),
        title: "t".into(),
        epic: None,
        status: Status::Ready,
        body: String::new(),
        labels: vec![],
        model: None,
        effort: None,
        auto_merge: false,
        depends_on: vec![],
        notes: vec![],
        external: None,
        pr: None,
        changes_requested: false,
        accepted: false,
        landing_blocked: false,
        column,
    }
}

#[test]
fn only_a_live_review_branch_worked_here_is_diffable() {
    let mut t = ticket(Column::Review { branch: Some("k-7/x".into()) });
    assert!(eligible(&t, true));
    assert!(!eligible(&t, false));
    t.external = Some(External::github_issue(1));
    assert!(!eligible(&t, true));
    assert!(!eligible(&ticket(Column::Todo), true));
    assert!(!eligible(&ticket(Column::Review { branch: None }), true));
}

#[test]
fn computing_a_diff_asks_then_refuses_or_goes() {
    let id = TicketId("K-7".into());
    let t = ticket(Column::Review { branch: Some("k-7/x".into()) });
    let step = |t: Option<&Ticket>, branch_exists, main| compute(&id, t, &DiffFacts { branch_exists, main });
    assert!(matches!(step(None, None, None), DiffStep::Refuse(e) if e == "K-7 not found on the board"));
    assert!(matches!(step(Some(&ticket(Column::Todo)), None, None), DiffStep::Refuse(e)
        if e == "K-7 is not a review ticket with a branch — nothing to diff"));
    assert!(matches!(step(Some(&t), None, None), DiffStep::Ask(DiffQuestion::Branch, b) if b == "k-7/x"));
    assert!(matches!(step(Some(&t), Some(false), None), DiffStep::Refuse(e)
        if e == "branch k-7/x no longer exists locally — already merged and deleted?"));
    assert!(matches!(step(Some(&t), Some(true), None), DiffStep::Ask(DiffQuestion::Main, _)));
    assert!(matches!(step(Some(&t), Some(true), Some(None)), DiffStep::Refuse(e)
        if e == "no main branch is configured or detectable to diff against"));
    assert!(matches!(step(Some(&t), Some(true), Some(Some("main".into()))), DiffStep::Go { branch, main }
        if branch == "k-7/x" && main == "main"));
}

#[test]
fn an_external_ticket_is_not_diffed() {
    let id = TicketId("K-7".into());
    let mut t = ticket(Column::Review { branch: Some("k-7/x".into()) });
    t.external = Some(External::github_issue(1));
    let facts = DiffFacts { branch_exists: Some(true), main: Some(Some("main".into())) };
    assert!(matches!(compute(&id, Some(&t), &facts), DiffStep::Refuse(e)
        if e == "K-7 is external — its branch is worked elsewhere"));
}

#[test]
fn large_line_numbers_are_taken_apart() {
    let text = "--- a/x\n+++ b/x\n@@ -4000000000,1 +4000000000,1 @@\n-a\n+b\n";
    assert!(can_parse(text));
    let files = parse(text).unwrap();
    assert_eq!((files[0].added, files[0].deleted), (1, 1));
}

#[test]
fn the_largest_numbers_that_fit_are_taken_apart() {
    let text = "--- a/x\n+++ b/x\n@@ -18446744073709551000,1 +1 @@\n-a\n+b\n";
    assert!(can_parse(text));
    let files = parse(text).unwrap();
    let removed = files[0].hunks[0].lines.iter().find(|l| l.css == "dl-del").unwrap();
    assert_eq!(removed.old_no, Some(18446744073709551000));
    assert!(parse("@@ -ünïcode @@\n").unwrap().is_empty());
}
