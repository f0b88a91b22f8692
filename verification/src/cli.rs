//! The command line: what can be asked for, and what is printed in answer.
use vstd::prelude::*;

use crate::seqs::models;
use crate::store::Store;
use crate::text::{chars, concat2, concat3, concat4, concat5, Text};
use crate::worktree::{FinishReport, StartReport, WorktreeRow, WorktreeRowModel};

verus! {

broadcast use crate::seqs::group_models;

/// A command line. Without a store the board is that of the main working tree.
#[derive(Debug)]
pub struct Cli {
    pub store: Option<String>,
    pub command: Command,
}

/// What can be asked for.
#[derive(Debug)]
pub enum Command {
    /// Seed an empty board.
    Init,
    /// Serve the board's web face.
    Serve { port: Option<u16>, no_open: bool, assets_dir: Option<String> },
    /// Run the tools on standard input and output.
    Mcp,
    /// The one-ticket-one-checkout lifecycle.
    Worktree { command: WorktreeCommand },
}

/// What can be asked of a ticket's worktree.
#[derive(Debug)]
#[allow(inconsistent_fields)]
pub enum WorktreeCommand {
    Start {
        ticket: String,
        base: Option<String>,
        slug: Option<String>,
        dir: Option<String>,
        no_sparse: bool,
        json: bool,
    },
    Finish { ticket: String, force_discard: bool, merge: bool, json: bool },
    List { json: bool },
}

/// Whether the board is brought up to the current schema first. Seeding never touches an existing store.
pub fn upgrades(command: &Command) -> (r: bool)
    ensures
        r == !(*command is Init),
{
    match command {
        Command::Init => false,
        _ => true,
    }
}

// ---- what is printed ------------------------------------------------------------------------------------------------

/// What a fresh store is announced with: where the board is, and what to commit.
pub open spec fn init_lines(board: Text, config: Text, ignore: Text) -> Seq<Text> {
    Seq::<Text>::empty().push("Initialised an empty board at "@ + board).push(
        "Commit "@ + board + ", "@ + config + (", and "@ + ignore
            + " — claims, locks, and pid files stay untracked."@),
    )
}

/// What a fresh store is announced with.
pub fn init(store: &Store) -> (r: Vec<String>)
    ensures
        models(r@) == init_lines(
            crate::store::board_path_in(store@.dir),
            crate::store::joined(store@.dir, crate::store::CONFIG_FILE@),
            crate::store::joined(store@.dir, ".gitignore"@),
        ),
{
    let board: String = store.board_path();
    let config: String = store.config_path();
    let ignore: String = crate::store::join_path(store.dir(), ".gitignore");
    let tail: String = concat3(", and ", &ignore, " — claims, locks, and pid files stay untracked.");
    let mut out: Vec<String> = Vec::new();
    out.push(concat2("Initialised an empty board at ", &board));
    out.push(concat5("Commit ", &board, ", ", &config, &tail));
    out
}

/// One line per warning.
pub open spec fn warning_lines(ws: Seq<Text>) -> Seq<Text> {
    Seq::new(ws.len(), |i: int| "  warning: "@ + ws[i])
}

/// What a start is announced with: whether it was new, the branch, the path, and the warnings.
pub open spec fn start_lines(r: StartReport) -> Seq<Text> {
    let how = if r.reattached {
        "re-attached"@
    } else {
        "created"@
    };
    let note = if r.sparse {
        "  (sparse — no .kanban/)"@
    } else {
        Seq::empty()
    };
    Seq::<Text>::empty().push(how + " worktree for "@ + r.ticket@ + ":"@).push("  branch  "@ + r.branch@).push(
        "  path    "@ + r.path@ + note,
    ) + warning_lines(models(r.warnings@))
}

/// What a start is announced with.
pub fn start_summary(report: &StartReport) -> (r: Vec<String>)
    ensures
        models(r@) == start_lines(*report),
{
    let how: &str = if report.reattached { "re-attached" } else { "created" };
    let note: String = if report.sparse { "  (sparse — no .kanban/)".to_owned() } else { String::new() };
    let mut out: Vec<String> = Vec::new();
    out.push(concat4(how, " worktree for ", &report.ticket, ":"));
    out.push(concat2("  branch  ", &report.branch));
    out.push(concat3("  path    ", &report.path, &note));
    let ghost head = models(out@);
    let ghost ws = models(report.warnings@);
    proof {
        assert(head + warning_lines(ws).take(0) =~= head);
    }
    let mut i: usize = 0;
    while i < report.warnings.len()
        invariant
            ws == models(report.warnings@),
            i <= report.warnings@.len(),
            models(out@) == head + warning_lines(ws).take(i as int),
        decreases report.warnings@.len() - i,
    {
        proof {
            assert(ws[i as int] == report.warnings@[i as int]@);
            assert(head + warning_lines(ws).take(i + 1) =~= (head + warning_lines(ws).take(i as int)).push(
                warning_lines(ws)[i as int],
            ));
        }
        out.push(concat2("  warning: ", &report.warnings[i]));
        i = i + 1;
    }
    assert(warning_lines(ws).take(ws.len() as int) =~= warning_lines(ws));
    out
}

/// What a finish is announced with: what was removed, and what became of the branch.
pub open spec fn finish_lines(r: FinishReport) -> Seq<Text> {
    let removed = match r.removed {
        Some(path) => "removed the worktree at "@ + path@,
        None => "no live worktree to remove"@,
    };
    let branch = match r.branch {
        Some(branch) => if r.merged {
            "branch "@ + branch@ + " merged into the current branch — and kept"@
        } else {
            "branch "@ + branch@ + " kept — merge or push it when you're ready"@
        },
        None => "no branch recorded for "@ + r.ticket@,
    };
    Seq::<Text>::empty().push(removed).push(branch)
}

/// What a finish is announced with.
pub fn finish_summary(report: &FinishReport) -> (r: Vec<String>)
    ensures
        models(r@) == finish_lines(*report),
{
    let mut out: Vec<String> = Vec::new();
    match &report.removed {
        Some(path) => out.push(concat2("removed the worktree at ", path)),
        None => out.push("no live worktree to remove".to_owned()),
    }
    match &report.branch {
        Some(branch) => {
            if report.merged {
                out.push(concat3("branch ", branch, " merged into the current branch — and kept"));
            } else {
                out.push(concat3("branch ", branch, " kept — merge or push it when you're ready"));
            }
        },
        None => out.push(concat2("no branch recorded for ", &report.ticket)),
    }
    out
}

/// A text filled up with spaces to a width; a longer one stays as it is.
pub open spec fn padded(s: Text, width: nat) -> Text {
    if s.len() >= width {
        s
    } else {
        s + Seq::new((width - s.len()) as nat, |i: int| ' ')
    }
}

fn pad(s: &str, width: usize) -> (r: String)
    ensures
        r@ == padded(s@, width as nat),
{
    let n: usize = chars(s).len();
    let mut out: String = s.to_owned();
    let mut i: usize = n;
    while i < width
        invariant
            n == s@.len(),
            n <= i,
            i <= width || i == n,
            out@ == s@ + Seq::new((i - n) as nat, |k: int| ' '),
        decreases width - i,
    {
        out.push(' ');
        i = i + 1;
        assert(out@ =~= s@ + Seq::new((i - n) as nat, |k: int| ' '));
    }
    assert(n >= width ==> out@ =~= s@);
    out
}

/// One row of the listing: the ticket, the branch, the path, the state of the checkout, and who claims it.
pub open spec fn row_line(r: WorktreeRowModel) -> Text {
    let ticket = match r.ticket {
        Some(t) => t,
        None => "—"@,
    };
    let state = if r.missing {
        "missing — restore with `worktree start`"@
    } else if r.dirty {
        "dirty"@
    } else {
        "clean"@
    };
    let agent = match r.agent {
        Some(a) => "  ["@ + a + "]"@,
        None => Seq::empty(),
    };
    padded(ticket, 6) + " "@ + padded(r.branch, 32) + " "@ + (r.path + "  ("@ + state + ")"@ + agent)
}

fn line_of(row: &WorktreeRow) -> (r: String)
    ensures
        r@ == row_line(row@),
{
    let ticket: String = match &row.ticket {
        Some(t) => t.clone(),
        None => "—".to_owned(),
    };
    let state: &str = if row.missing {
        "missing — restore with `worktree start`"
    } else if row.dirty {
        "dirty"
    } else {
        "clean"
    };
    let agent: String = match &row.agent {
        Some(a) => concat3("  [", a, "]"),
        None => String::new(),
    };
    let tail: String = concat5(&row.path, "  (", state, ")", &agent);
    concat5(&pad(&ticket, 6), " ", &pad(&row.branch, 32), " ", &tail)
}

/// The listing, one row to a line.
pub open spec fn list_lines(rows: Seq<WorktreeRowModel>) -> Seq<Text> {
    if rows.len() == 0 {
        Seq::<Text>::empty().push("no ticket worktrees"@)
    } else {
        Seq::new(rows.len(), |i: int| row_line(rows[i]))
    }
}

/// The listing, one row to a line.
pub fn list_summary(rows: &Vec<WorktreeRow>) -> (r: Vec<String>)
    ensures
        models(r@) == list_lines(models(rows@)),
{
    let mut out: Vec<String> = Vec::new();
    if rows.len() == 0 {
        out.push("no ticket worktrees".to_owned());
        return out;
    }
    let ghost all = models(rows@);
    let mut i: usize = 0;
    while i < rows.len()
        invariant
            all == models(rows@),
            i <= rows@.len(),
            out@.len() == i,
            forall|j: int| 0 <= j < i ==> (#[trigger] out@[j])@ == row_line(all[j]),
        decreases rows@.len() - i,
    {
        assert(all[i as int] == rows@[i as int]@);
        out.push(line_of(&rows[i]));
        i = i + 1;
    }
    assert(models(out@) =~= list_lines(all));
    out
}

// ---- laws -----------------------------------------------------------------------------------------------------------

/// A start is announced with whether the worktree is new, its branch and its path, which is marked when the board is not in
/// it; behind them stands each warning.
pub proof fn a_start_is_announced_in_full(r: StartReport)
    ensures
        ({
            let ls = start_lines(r);
            let ws = models(r.warnings@);
            &&& ls.len() == 3 + ws.len()
            &&& r.reattached ==> ls[0] == "re-attached"@ + " worktree for "@ + r.ticket@ + ":"@
            &&& !r.reattached ==> ls[0] == "created"@ + " worktree for "@ + r.ticket@ + ":"@
            &&& ls[1] == "  branch  "@ + r.branch@
            &&& r.sparse ==> ls[2] == "  path    "@ + r.path@ + "  (sparse — no .kanban/)"@
            &&& !r.sparse ==> ls[2] == "  path    "@ + r.path@
            &&& forall|i: int| 0 <= i < ws.len() ==> #[trigger] ls[i + 3] == "  warning: "@ + ws[i]
        }),
{
    assert(("  path    "@ + r.path@) + Seq::<char>::empty() =~= "  path    "@ + r.path@);
}

/// A finish is announced with what was removed and with the branch, which is always kept.
pub proof fn a_finish_is_announced_in_full(r: FinishReport)
    ensures
        ({
            let ls = finish_lines(r);
            &&& ls.len() == 2
            &&& r.removed matches Some(path) ==> ls[0] == "removed the worktree at "@ + path@
            &&& r.removed is None ==> ls[0] == "no live worktree to remove"@
            &&& r.branch is Some && r.merged ==> ls[1] == "branch "@ + (r.branch->0)@
                + " merged into the current branch — and kept"@
            &&& r.branch is Some && !r.merged ==> ls[1] == "branch "@ + (r.branch->0)@
                + " kept — merge or push it when you're ready"@
            &&& r.branch is None ==> ls[1] == "no branch recorded for "@ + r.ticket@
        }),
{
}

/// The listing has a line for each row, in order, that says which ticket it is, its branch, its path, its state and who has
/// it; without rows it says so.
pub proof fn a_listing_has_a_line_per_row(rows: Seq<WorktreeRowModel>, i: int)
    requires
        0 <= i < rows.len(),
    ensures
        list_lines(Seq::empty()) == seq!["no ticket worktrees"@],
        list_lines(rows).len() == rows.len(),
        ({
            let r = rows[i];
            let ticket = if r.ticket is Some {
                r.ticket->0
            } else {
                "—"@
            };
            let state = if r.missing {
                "missing — restore with `worktree start`"@
            } else if r.dirty {
                "dirty"@
            } else {
                "clean"@
            };
            let plain = padded(ticket, 6) + " "@ + padded(r.branch, 32) + " "@ + (r.path + "  ("@ + state + ")"@);
            &&& r.agent is None ==> list_lines(rows)[i] == plain
            &&& r.agent is Some ==> list_lines(rows)[i] == plain + ("  ["@ + r.agent->0 + "]"@)
        }),
{
    assert(list_lines(Seq::empty()) =~= seq!["no ticket worktrees"@]);
    let r = rows[i];
    let ticket = if r.ticket is Some {
        r.ticket->0
    } else {
        "—"@
    };
    let state = if r.missing {
        "missing — restore with `worktree start`"@
    } else if r.dirty {
        "dirty"@
    } else {
        "clean"@
    };
    let head = padded(ticket, 6) + " "@ + padded(r.branch, 32) + " "@;
    let tail = r.path + "  ("@ + state + ")"@;
    if r.agent is Some {
        assert(head + (tail + ("  ["@ + r.agent->0 + "]"@)) =~= head + tail + ("  ["@ + r.agent->0 + "]"@));
    } else {
        assert(head + (tail + Seq::<char>::empty()) =~= head + tail);
    }
}

/// A column is filled up with spaces to its width and never cut.
pub proof fn padding_only_adds_spaces(s: Text, width: nat)
    ensures
        padded(s, width).len() == if s.len() >= width {
            s.len()
        } else {
            width
        },
        padded(s, width).take(s.len() as int) == s,
        forall|i: int| s.len() <= i < padded(s, width).len() ==> #[trigger] padded(s, width)[i] == ' ',
{
    assert(padded(s, width).take(s.len() as int) =~= s);
}

/// A fresh store is announced with where its board is and which files to commit.
pub proof fn a_fresh_store_is_announced(board: Text, config: Text, ignore: Text)
    ensures
        init_lines(board, config, ignore).len() == 2,
        init_lines(board, config, ignore)[0] == "Initialised an empty board at "@ + board,
        init_lines(board, config, ignore)[1] == "Commit "@ + board + ", "@ + config + (", and "@ + ignore
            + " — claims, locks, and pid files stay untracked."@),
{
}

} // verus!
