//! The store: one board, one list of live claims, one write discipline.
//!
//! A [`Store`] holds what one locked read of a store directory found, and what has to be written back. Every mutation
//! goes the same way: check the caller's expected version, apply, validate, advance the version. A failing step leaves
//! the store exactly as it was.
pub mod claims;
pub mod derive;
pub mod model;
pub mod validate;

use vstd::prelude::*;

use crate::name::{hyphenated, product, CODE_NAME};
use crate::seqs::{models, opt_model};
use crate::text::{chars, concat2, concat3, concat4, concat5, join, join_spec, to_decimal, Text};
use claims::{clone_claims, same_claims, ClaimModel};
use model::{migrate, migrated, Board, BoardModel, CURRENT_SCHEMA};
use validate::{problems, valid, validate};

pub use claims::{find as find_claim, remove as remove_claim, upsert as upsert_claim, Claim};

verus! {

broadcast use crate::seqs::group_models;

/// File name of the board inside the store directory.
pub const BOARD_FILE: &'static str = "board.json";

/// File name of the live claims inside the store directory.
pub const CLAIMS_FILE: &'static str = "claims.json";

/// File name of the store config inside the store directory.
pub const CONFIG_FILE: &'static str = "config.json";

/// File name of the lock inside the store directory.
pub const LOCK_FILE: &'static str = ".lock";

/// File name of the branch tips last observed, inside the store directory.
pub const LAND_STATE_FILE: &'static str = "land-state.json";

/// Store-local config that `init` writes.
pub const STORE_CONFIG: &'static str = "{\n  \"max_workers\": 1,\n  \"idle_time\": 300\n}\n";

/// The store-local gitignore: the runtime artifacts, and never the board itself.
pub open spec fn gitignore() -> Text {
    "# "@ + hyphenated(CODE_NAME@) + " runtime artifacts — machine-local, never committed. (board.json and this file ARE committed.)\n"@
        + ".lock\n*.tmp\nserve.pid\nclaims.json\nland-state.json\n"@
}

/// The store-local gitignore that `init` writes.
pub fn store_gitignore() -> (r: String)
    ensures
        r@ == gitignore(),
{
    concat4(
        "# ",
        &product(),
        " runtime artifacts — machine-local, never committed. (board.json and this file ARE committed.)\n",
        ".lock\n*.tmp\nserve.pid\nclaims.json\nland-state.json\n",
    )
}

// ---- paths ----------------------------------------------------------------------------------------------------------

/// A path with one more component: an absolute one replaces it.
pub open spec fn joined(dir: Text, name: Text) -> Text {
    if dir.len() == 0 || (name.len() > 0 && name[0] == '/') {
        name
    } else if dir.last() == '/' {
        dir + name
    } else {
        dir + "/"@ + name
    }
}

/// Append a component to a path.
pub fn join_path(dir: &str, name: &str) -> (r: String)
    ensures
        r@ == joined(dir@, name@),
{
    let d: Vec<char> = chars(dir);
    let n: Vec<char> = chars(name);
    if d.len() == 0 || (n.len() > 0 && n[0] == '/') {
        name.to_owned()
    } else if d[d.len() - 1] == '/' {
        concat2(dir, name)
    } else {
        concat3(dir, "/", name)
    }
}

// ---- errors ---------------------------------------------------------------------------------------------------------

/// Everything that can go wrong below the operation layer.
#[derive(Debug, PartialEq)]
pub enum StoreError {
    NotInitialized(String),
    AlreadyExists(String),
    VersionConflict { expected: u64, actual: u64 },
    /// The board breaks an invariant; `problems` lists all of them.
    Invalid { path: String, problems: String },
    /// The board's schema is newer than this library understands.
    NewerSchema { path: String, found: u32 },
    /// A store file is not what it should be.
    Parse { path: String, source: String },
    /// A store file could not be read or written.
    Io { path: String, source: String },
}

pub enum StoreErrorModel {
    NotInitialized(Text),
    AlreadyExists(Text),
    VersionConflict { expected: u64, actual: u64 },
    Invalid { path: Text, problems: Text },
    NewerSchema { path: Text, found: u32 },
    Parse { path: Text, source: Text },
    Io { path: Text, source: Text },
}

impl View for StoreError {
    type V = StoreErrorModel;

    open spec fn view(&self) -> StoreErrorModel {
        match *self {
            StoreError::NotInitialized(path) => StoreErrorModel::NotInitialized(path@),
            StoreError::AlreadyExists(path) => StoreErrorModel::AlreadyExists(path@),
            StoreError::VersionConflict { expected, actual } => StoreErrorModel::VersionConflict { expected, actual },
            StoreError::Invalid { path, problems } => StoreErrorModel::Invalid { path: path@, problems: problems@ },
            StoreError::NewerSchema { path, found } => StoreErrorModel::NewerSchema { path: path@, found },
            StoreError::Parse { path, source } => StoreErrorModel::Parse { path: path@, source: source@ },
            StoreError::Io { path, source } => StoreErrorModel::Io { path: path@, source: source@ },
        }
    }
}

impl StoreErrorModel {
    /// The sentence a reader gets.
    pub open spec fn message(self) -> Text {
        match self {
            StoreErrorModel::NotInitialized(path) => "no board at "@ + path + " — run `"@ + hyphenated(CODE_NAME@) + " init` first"@,
            StoreErrorModel::AlreadyExists(path) => path + " already exists — refusing to overwrite an existing board"@,
            StoreErrorModel::VersionConflict { expected, actual } => "board changed underneath this write: version is "@
                + crate::text::decimal(actual as nat) + ", expected "@ + crate::text::decimal(expected as nat),
            StoreErrorModel::Invalid { path, problems } => "invalid board in "@ + path + ":\n  - "@ + problems,
            StoreErrorModel::NewerSchema { path, found } => path + " has schema "@ + crate::text::decimal(found as nat)
                + ", newer than this binary understands"@,
            StoreErrorModel::Parse { path, source } => "failed to parse "@ + path + ": "@ + source,
            StoreErrorModel::Io { path, source } => path + ": "@ + source,
        }
    }
}

impl StoreError {
    /// The sentence a reader gets.
    pub fn to_string(&self) -> (r: String)
        ensures
            r@ == self@.message(),
    {
        match self {
            StoreError::NotInitialized(path) => concat5("no board at ", path, " — run `", &product(), " init` first"),
            StoreError::AlreadyExists(path) => concat2(path, " already exists — refusing to overwrite an existing board"),
            StoreError::VersionConflict { expected, actual } => concat4(
                "board changed underneath this write: version is ",
                &to_decimal(*actual),
                ", expected ",
                &to_decimal(*expected),
            ),
            StoreError::Invalid { path, problems } => concat4("invalid board in ", path, ":\n  - ", problems),
            StoreError::NewerSchema { path, found } => concat4(
                path,
                " has schema ",
                &to_decimal(*found as u64),
                ", newer than this binary understands",
            ),
            StoreError::Parse { path, source } => concat4("failed to parse ", path, ": ", source),
            StoreError::Io { path, source } => concat3(path, ": ", source),
        }
    }
}

// ---- the store ------------------------------------------------------------------------------------------------------

/// A store directory as one locked read found it, with what has to be written back.
#[derive(Debug)]
pub struct Store {
    dir: String,
    board: Option<Board>,
    claims: Vec<Claim>,
    board_pending: bool,
    claims_pending: bool,
}

pub struct StoreModel {
    pub dir: Text,
    /// The board, where there is one.
    pub board: Option<BoardModel>,
    pub claims: Seq<ClaimModel>,
    /// The board has to be written back.
    pub board_pending: bool,
    /// The claims have to be written back.
    pub claims_pending: bool,
}

impl View for Store {
    type V = StoreModel;

    closed spec fn view(&self) -> StoreModel {
        StoreModel {
            dir: self.dir@,
            board: opt_model(self.board),
            claims: models(self.claims@),
            board_pending: self.board_pending,
            claims_pending: self.claims_pending,
        }
    }
}

/// The path of the board in a store directory.
pub open spec fn board_path_in(dir: Text) -> Text {
    joined(dir, BOARD_FILE@)
}

/// The problems of a board as one text, one to a line.
pub open spec fn problem_list(b: BoardModel) -> Text {
    join_spec(problems(b), "\n  - "@)
}

impl StoreModel {
    /// The board as it is handed out: migrated and valid, or why not.
    pub open spec fn readable(self) -> Result<BoardModel, StoreErrorModel> {
        match self.board {
            None => Err(StoreErrorModel::NotInitialized(board_path_in(self.dir))),
            Some(b) => if b.schema > CURRENT_SCHEMA {
                Err(StoreErrorModel::NewerSchema { path: board_path_in(self.dir), found: b.schema })
            } else if !valid(migrated(b)) {
                Err(StoreErrorModel::Invalid { path: board_path_in(self.dir), problems: problem_list(migrated(b)) })
            } else {
                Ok(migrated(b))
            },
        }
    }

    /// What a mutation starts from: the readable board, at the version the caller expects.
    pub open spec fn started(self, expected: Option<u64>) -> Result<BoardModel, StoreErrorModel> {
        match self.readable() {
            Err(e) => Err(e),
            Ok(b) => match expected {
                Some(v) => if b.version != v {
                    Err(StoreErrorModel::VersionConflict { expected: v, actual: b.version })
                } else {
                    Ok(b)
                },
                None => Ok(b),
            },
        }
    }

    /// What writing back a mutated board makes of the store: refused unless the board is valid, one version further.
    pub open spec fn committed(self, b: BoardModel, claims: Seq<ClaimModel>) -> Result<StoreModel, StoreErrorModel> {
        if !valid(b) {
            Err(StoreErrorModel::Invalid { path: board_path_in(self.dir), problems: problem_list(b) })
        } else {
            Ok(
                StoreModel {
                    dir: self.dir,
                    board: Some(BoardModel { version: (b.version + 1) as u64, ..b }),
                    claims,
                    board_pending: true,
                    claims_pending: self.claims_pending || claims != self.claims,
                },
            )
        }
    }

    /// There is a board, and its schema is not the current one.
    pub open spec fn outdated(self) -> bool {
        self.board matches Some(b) && b.schema != CURRENT_SCHEMA
    }

    /// What an upgrade at startup makes of the store: an older board is migrated, validated and one version further; a
    /// current one, or none, is left alone.
    pub open spec fn upgraded(self) -> Result<StoreModel, StoreErrorModel> {
        match self.board {
            None => Ok(self),
            Some(b) => if b.schema == CURRENT_SCHEMA {
                Ok(self)
            } else {
                match self.readable() {
                    Ok(m) => self.committed(m, self.claims),
                    Err(e) => Err(e),
                }
            },
        }
    }

    /// The id counters of the board, where it will be read at all, fit their fields.
    pub open spec fn fits(self) -> bool {
        self.board matches Some(b) ==> b.schema <= CURRENT_SCHEMA ==> b.counters_fit()
    }
}

impl Store {
    /// Where a store lives: the explicit choice, else `.kanban` in the main working tree, else `.kanban` here.
    pub fn resolve(flag: Option<String>, main_worktree: Option<String>) -> (r: Store)
        ensures
            r@ == Store::fresh(
                match flag {
                    Some(dir) => dir@,
                    None => match main_worktree {
                        Some(root) => joined(root@, ".kanban"@),
                        None => ".kanban"@,
                    },
                },
            ),
    {
        match flag {
            Some(dir) => Store::at(&dir),
            None => match main_worktree {
                Some(root) => Store::at(&join_path(&root, ".kanban")),
                None => Store::at(".kanban"),
            },
        }
    }

    /// A store of which nothing has been read.
    pub open spec fn fresh(dir: Text) -> StoreModel {
        StoreModel { dir, board: None, claims: Seq::empty(), board_pending: false, claims_pending: false }
    }

    /// A store at exactly `dir`, of which nothing has been read.
    pub fn at(dir: &str) -> (r: Store)
        ensures
            r@ == Store::fresh(dir@),
    {
        Store { dir: dir.to_owned(), board: None, claims: Vec::new(), board_pending: false, claims_pending: false }
    }

    /// A store at `dir` whose files hold `board` and `claims`.
    pub fn loaded(dir: &str, board: Option<Board>, claims: Vec<Claim>) -> (r: Store)
        ensures
            r@ == (StoreModel {
                dir: dir@,
                board: opt_model(board),
                claims: models(claims@),
                board_pending: false,
                claims_pending: false,
            }),
    {
        Store { dir: dir.to_owned(), board, claims, board_pending: false, claims_pending: false }
    }

    /// The store directory itself.
    pub fn dir(&self) -> (r: &str)
        ensures
            r@ == self@.dir,
    {
        self.dir.as_str()
    }

    /// Path of the board.
    pub fn board_path(&self) -> (r: String)
        ensures
            r@ == board_path_in(self@.dir),
    {
        join_path(&self.dir, BOARD_FILE)
    }

    /// Path of the claims.
    pub fn claims_path(&self) -> (r: String)
        ensures
            r@ == joined(self@.dir, CLAIMS_FILE@),
    {
        join_path(&self.dir, CLAIMS_FILE)
    }

    /// Path of the store config.
    pub fn config_path(&self) -> (r: String)
        ensures
            r@ == joined(self@.dir, CONFIG_FILE@),
    {
        join_path(&self.dir, CONFIG_FILE)
    }

    /// Path of the lock.
    pub fn lock_path(&self) -> (r: String)
        ensures
            r@ == joined(self@.dir, LOCK_FILE@),
    {
        join_path(&self.dir, LOCK_FILE)
    }

    /// Path of the observed branch tips.
    pub fn land_state_path(&self) -> (r: String)
        ensures
            r@ == joined(self@.dir, LAND_STATE_FILE@),
    {
        join_path(&self.dir, LAND_STATE_FILE)
    }

    /// The board that has to be written back, where one has.
    pub fn pending_board(&self) -> (r: Option<&Board>)
        ensures
            match r {
                Some(b) => self@.board_pending && self@.board == Some(b@),
                None => !self@.board_pending || self@.board is None,
            },
    {
        if self.board_pending {
            match &self.board {
                Some(b) => Some(b),
                None => None,
            }
        } else {
            None
        }
    }

    /// The claims that have to be written back, where they have changed.
    pub fn pending_claims(&self) -> (r: Option<&Vec<Claim>>)
        ensures
            match r {
                Some(c) => self@.claims_pending && self@.claims == models(c@),
                None => !self@.claims_pending,
            },
    {
        if self.claims_pending {
            Some(&self.claims)
        } else {
            None
        }
    }

    /// Seed an empty board. An existing board is refused and left alone.
    pub fn init(&mut self) -> (r: Result<(), StoreError>)
        ensures
            match r {
                Ok(_) => old(self)@.board is None && final(self)@ == (StoreModel {
                    board: Some(BoardModel::empty()),
                    board_pending: true,
                    ..old(self)@
                }),
                Err(e) => old(self)@.board is Some && e@ == StoreErrorModel::AlreadyExists(board_path_in(old(self)@.dir))
                    && final(self)@ == old(self)@,
            },
    {
        if self.board.is_some() {
            return Err(StoreError::AlreadyExists(self.board_path()));
        }
        self.board = Some(Board::empty());
        self.board_pending = true;
        Ok(())
    }

    /// The board, migrated and validated.
    pub fn read_board(&self) -> (r: Result<Board, StoreError>)
        requires
            self@.fits(),
        ensures
            match r {
                Ok(b) => self@.readable() == Ok::<BoardModel, StoreErrorModel>(b@),
                Err(e) => self@.readable() == Err::<BoardModel, StoreErrorModel>(e@),
            },
    {
        let mut board: Board = match &self.board {
            Some(b) => b.clone(),
            None => return Err(StoreError::NotInitialized(self.board_path())),
        };
        match migrate(&mut board) {
            Ok(_) => {},
            Err(found) => return Err(StoreError::NewerSchema { path: self.board_path(), found }),
        }
        match validate(&board) {
            Ok(_) => Ok(board),
            Err(found) => Err(StoreError::Invalid { path: self.board_path(), problems: join(&found, "\n  - ") }),
        }
    }

    /// The live claims.
    pub fn read_claims(&self) -> (r: Result<Vec<Claim>, StoreError>)
        ensures
            r matches Ok(c) && models(c@) == self@.claims,
    {
        Ok(clone_claims(&self.claims))
    }

    /// Bring an older board up to the current schema and have it written back, as one mutation. Answers whether there was
    /// anything to do; a store without a board has nothing.
    pub fn upgrade(&mut self) -> (r: Result<bool, StoreError>)
        requires
            old(self)@.fits(),
            old(self)@.board matches Some(b) ==> b.version < u64::MAX,
        ensures
            match old(self)@.upgraded() {
                Ok(after) => final(self)@ == after && r == Ok::<bool, StoreError>(old(self)@.outdated()),
                Err(e) => final(self)@ == old(self)@ && (r matches Err(got) && got@ == e),
            },
    {
        match &self.board {
            Some(b) => {
                if b.schema == CURRENT_SCHEMA {
                    return Ok(false);
                }
            },
            None => return Ok(false),
        }
        let board: Board = match self.read_board() {
            Ok(b) => b,
            Err(e) => return Err(e),
        };
        let claims: Vec<Claim> = clone_claims(&self.claims);
        match self.commit(board, claims) {
            Ok(_) => Ok(true),
            Err(e) => Err(e),
        }
    }

    /// Start a mutation: the board and claims to work on, when the board is at the version the caller expects.
    pub fn begin(&self, expected_version: Option<u64>) -> (r: Result<(Board, Vec<Claim>), StoreError>)
        requires
            self@.fits(),
        ensures
            match r {
                Ok(s) => self@.started(expected_version) == Ok::<BoardModel, StoreErrorModel>(s.0@) && models(s.1@)
                    == self@.claims,
                Err(e) => self@.started(expected_version) == Err::<BoardModel, StoreErrorModel>(e@),
            },
    {
        let board: Board = match self.read_board() {
            Ok(b) => b,
            Err(e) => return Err(e),
        };
        match expected_version {
            Some(expected) => {
                if board.version != expected {
                    return Err(StoreError::VersionConflict { expected, actual: board.version });
                }
            },
            None => {},
        }
        Ok((board, clone_claims(&self.claims)))
    }

    /// Finish a mutation: validate the board, advance its version, and take it and the claims over. Answers the new
    /// version. The claims count as changed only when they did change.
    pub fn commit(&mut self, board: Board, claims: Vec<Claim>) -> (r: Result<u64, StoreError>)
        requires
            board@.version < u64::MAX,
        ensures
            match r {
                Ok(v) => old(self)@.committed(board@, models(claims@)) == Ok::<StoreModel, StoreErrorModel>(final(self)@)
                    && v == board@.version + 1,
                Err(e) => old(self)@.committed(board@, models(claims@)) == Err::<StoreModel, StoreErrorModel>(e@)
                    && final(self)@ == old(self)@,
            },
    {
        match validate(&board) {
            Ok(_) => {},
            Err(found) => return Err(
                StoreError::Invalid { path: self.board_path(), problems: join(&found, "\n  - ") },
            ),
        }
        let mut board: Board = board;
        board.version = board.version + 1;
        let version: u64 = board.version;
        if !same_claims(&claims, &self.claims) {
            self.claims_pending = true;
        }
        self.board = Some(board);
        self.board_pending = true;
        self.claims = claims;
        Ok(version)
    }

    /// The one write cycle: start at the expected version, run `f`, finish. Any error, from the start, from `f` or from
    /// the finish, leaves the store as it was. Answers what `f` produced, and the new version.
    pub fn mutate<T, F>(&mut self, expected_version: Option<u64>, f: F) -> (r: Result<(T, u64), StoreError>) where
        F: FnOnce(Board, Vec<Claim>) -> Result<(T, Board, Vec<Claim>), StoreError>,

        requires
            old(self)@.fits(),
            forall|b: Board, c: Vec<Claim>|
                old(self)@.started(expected_version) == Ok::<BoardModel, StoreErrorModel>(b@) && models(c@) == old(self)@.claims
                    ==> #[trigger] f.requires((b, c)),
            forall|b: Board, c: Vec<Claim>, out: Result<(T, Board, Vec<Claim>), StoreError>|
                #[trigger] f.ensures((b, c), out) && out is Ok ==> out->Ok_0.1@.version < u64::MAX,
        ensures
            match r {
                Ok(done) => wrote(f, old(self)@, expected_version, done.0, done.1, final(self)@),
                Err(e) => final(self)@ == old(self)@ && refused(f, old(self)@, expected_version, e),
            },
    {
        let (board, claims) = match self.begin(expected_version) {
            Ok(s) => s,
            Err(e) => return Err(e),
        };
        let ghost (b, c) = (board, claims);
        let (out, board, claims) = match f(board, claims) {
            Ok(o) => o,
            Err(e) => {
                assert(f.ensures((b, c), Err(e)));
                return Err(e);
            },
        };
        let ghost (t, nb, nc) = (out, board, claims);
        assert(f.ensures((b, c), Ok((t, nb, nc))));
        match self.commit(board, claims) {
            Ok(version) => {
                let done: (T, u64) = (out, version);
                assert(f.ensures((b, c), Ok((done.0, nb, nc))));
                Ok(done)
            },
            Err(e) => {
                Err(e)
            },
        }
    }
}

/// `f` was run on what `s` holds and answered `out`, and what it made of the board is now in `after`, at `version`.
pub open spec fn wrote<T, F: FnOnce(Board, Vec<Claim>) -> Result<(T, Board, Vec<Claim>), StoreError>>(
    f: F,
    s: StoreModel,
    expected: Option<u64>,
    out: T,
    version: u64,
    after: StoreModel,
) -> bool {
    exists|b: Board, c: Vec<Claim>, nb: Board, nc: Vec<Claim>|
        {
            &&& #[trigger] f.ensures((b, c), Ok((out, nb, nc)))
            &&& s.started(expected) == Ok::<BoardModel, StoreErrorModel>(b@)
            &&& models(c@) == s.claims
            &&& s.committed(nb@, models(nc@)) == Ok::<StoreModel, StoreErrorModel>(after)
            &&& version == nb@.version + 1
        }
}

/// The mutation `f` could not start, or failed, or left a board that is not valid; `e` says which.
pub open spec fn refused<T, F: FnOnce(Board, Vec<Claim>) -> Result<(T, Board, Vec<Claim>), StoreError>>(
    f: F,
    s: StoreModel,
    expected: Option<u64>,
    e: StoreError,
) -> bool {
    ||| s.started(expected) == Err::<BoardModel, StoreErrorModel>(e@)
    ||| (exists|b: Board, c: Vec<Claim>|
        {
            &&& #[trigger] f.ensures((b, c), Err(e))
            &&& s.started(expected) == Ok::<BoardModel, StoreErrorModel>(b@)
            &&& models(c@) == s.claims
        })
    ||| (exists|b: Board, c: Vec<Claim>, t: T, nb: Board, nc: Vec<Claim>|
        {
            &&& #[trigger] f.ensures((b, c), Ok((t, nb, nc)))
            &&& s.started(expected) == Ok::<BoardModel, StoreErrorModel>(b@)
            &&& models(c@) == s.claims
            &&& s.committed(nb@, models(nc@)) == Err::<StoreModel, StoreErrorModel>(e@)
        })
}

// ---- laws -----------------------------------------------------------------------------------------------------------

/// A write at a stale version is refused, whatever it would do.
pub proof fn stale_writes_are_refused(s: StoreModel, b: BoardModel, expected: u64)
    requires
        s.readable() == Ok::<BoardModel, StoreErrorModel>(b),
        b.version != expected,
    ensures
        s.started(Some(expected)) == Err::<BoardModel, StoreErrorModel>(
            StoreErrorModel::VersionConflict { expected, actual: b.version },
        ),
{
}

/// What a write leaves behind can be read back as it was written: valid, one version further, its claims with it.
pub proof fn what_is_written_reads_back(s: StoreModel, b: BoardModel, claims: Seq<ClaimModel>)
    requires
        s.started(None) is Ok,
        b.schema == CURRENT_SCHEMA,
        b.version < u64::MAX,
        b.counters_fit(),
        b.reconciled() == b,
    ensures
        match s.committed(b, claims) {
            Ok(after) => after.readable() == Ok::<BoardModel, StoreErrorModel>(
                BoardModel { version: (b.version + 1) as u64, ..b },
            ) && after.claims == claims && valid(b),
            Err(_) => !valid(b),
        },
{
    let next = BoardModel { version: (b.version + 1) as u64, ..b };
    assert(problems(next) == problems(b));
    assert(migrated(next) == next);
}

/// The version a writer was given is refused to the next writer that still expects the one before.
pub proof fn a_version_is_good_for_one_write(s: StoreModel, b: BoardModel, claims: Seq<ClaimModel>, v: u64)
    requires
        s.started(Some(v)) is Ok,
        s.started(Some(v)) == s.readable(),
        b.version == v,
        v < u64::MAX,
        b.schema == CURRENT_SCHEMA,
        b.counters_fit(),
        b.reconciled() == b,
        s.committed(b, claims) is Ok,
    ensures
        s.committed(b, claims)->Ok_0.started(Some(v)) == Err::<BoardModel, StoreErrorModel>(
            StoreErrorModel::VersionConflict { expected: v, actual: (v + 1) as u64 },
        ),
{
    let next = BoardModel { version: (b.version + 1) as u64, ..b };
    assert(problems(next) == problems(b));
    assert(migrated(next) == next);
}

/// A valid board is written one version further, otherwise as it is, with the claims beside it; a board that is not valid is
/// refused, and told what is wrong with it.
pub proof fn a_write_counts_the_version_up(s: StoreModel, b: BoardModel, claims: Seq<ClaimModel>)
    requires
        b.version < u64::MAX,
    ensures
        valid(b) <==> s.committed(b, claims) is Ok,
        s.committed(b, claims) matches Ok(after) ==> {
            let written = after.board->0;
            &&& after.board is Some && written.version == b.version + 1
            &&& written.tickets == b.tickets && written.epics == b.epics && written.columns == b.columns && written.schema
                == b.schema && written.next_ticket_seq == b.next_ticket_seq && written.next_epic_seq == b.next_epic_seq
            &&& after.claims == claims && after.dir == s.dir
            &&& after.board_pending
            &&& after.claims_pending <==> s.claims_pending || claims != s.claims
        },
        s.committed(b, claims) matches Err(e) ==> (e matches StoreErrorModel::Invalid { path, problems } && path
            == board_path_in(s.dir) && problems == problem_list(b)),
{
}

/// An upgrade touches a board of an older schema only: that one is migrated and counts one version up.
pub proof fn an_upgrade_touches_old_boards_only(s: StoreModel)
    ensures
        s.board is None || (s.board->0).schema == CURRENT_SCHEMA ==> s.upgraded() == Ok::<StoreModel, StoreErrorModel>(s),
        s.board is Some && (s.board->0).schema > CURRENT_SCHEMA ==> s.upgraded() is Err,
        s.board is Some && (s.board->0).schema < CURRENT_SCHEMA && s.readable() is Ok ==> s.upgraded() == s.committed(
            s.readable()->Ok_0,
            s.claims,
        ),
{
}

/// A path is extended behind one slash; an absolute one stands for itself.
pub proof fn paths_join_behind_one_slash(dir: Text, name: Text)
    requires
        dir.len() > 0 && dir.last() != '/',
        name.len() > 0 && name[0] != '/',
    ensures
        joined(dir, name) == dir + "/"@ + name,
        joined(dir + "/"@, name) == dir + "/"@ + name,
        joined(dir, "/"@ + name) == "/"@ + name,
        joined(Seq::empty(), name) == name,
{
    reveal_strlit("/");
    assert((dir + "/"@).last() == '/');
    assert(("/"@ + name)[0] == '/');
}

/// A store needs an upgrade exactly when it has a board of another schema than the current one.
pub proof fn another_schema_needs_an_upgrade(s: StoreModel)
    ensures
        s.outdated() <==> s.board is Some && (s.board->0).schema != CURRENT_SCHEMA,
{
}

/// A mutation that cannot start says why and nothing else; one that is written started, and left a valid board at the version
/// it reports.
pub proof fn a_mutation_starts_before_it_writes<T, F: FnOnce(Board, Vec<Claim>) -> Result<(T, Board, Vec<Claim>), StoreError>>(
    f: F,
    s: StoreModel,
    expected: Option<u64>,
    out: T,
    version: u64,
    after: StoreModel,
    e: StoreError,
)
    ensures
        s.started(expected) matches Err(why) ==> (refused(f, s, expected, e) <==> e@ == why),
        wrote(f, s, expected, out, version, after) ==> s.started(expected) is Ok && after.board is Some && (
        after.board->0).version == version && after.dir == s.dir && after.board_pending,
{
}

} // verus!
