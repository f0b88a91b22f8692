//! The store's optional configuration. Every key is optional; a setting that also exists as a flag or environment variable
//! gives way to it.
use vstd::prelude::*;

use crate::name::{hyphenated, product, CODE_NAME};
use crate::seqs::{clone_strings, models, opt_model};
use crate::text::{concat2, Text};

verus! {

/// The worktree root when nothing overrides it: a directory of the product's name, volatile on purpose.
pub open spec fn default_root() -> Text {
    "/tmp/"@ + hyphenated(CODE_NAME@)
}

/// The worktree root when nothing overrides it.
pub fn default_worktree_root() -> (r: String)
    ensures
        r@ == default_root(),
{
    concat2("/tmp/", &product())
}

/// How many seconds the work loop idles between polls when the board has nothing eligible.
pub const DEFAULT_IDLE_TIME_SECS: u64 = 300;

/// How many seconds pass between landing sweeps when nothing says otherwise.
pub const DEFAULT_POLL_INTERVAL_SECS: u64 = 60;

/// The label that marks an issue for the delegate when nothing says otherwise.
pub const DEFAULT_MINESWEEPER_LABEL: &'static str = "autofix";

/// The label by which the delegate reports failure when nothing says otherwise.
pub const DEFAULT_FLAG_LABEL: &'static str = "minesweeperFailed";

/// The configuration as it was written down.
#[derive(Debug)]
pub struct Config {
    /// Where ticket worktrees are created.
    pub worktree_root: Option<String>,
    /// Gitignored files to copy into each new worktree.
    pub copy_to_worktrees: Vec<String>,
    /// How many tickets the work loop may drive concurrently. Absent or zero means one.
    pub max_workers: Option<usize>,
    /// How many seconds the work loop sleeps when nothing is eligible. Absent or zero means the default, so that a typo
    /// cannot spin a hot loop.
    pub idle_time: Option<u64>,
    /// Port of the board's web face.
    pub port: Option<u16>,
    /// The branch that defines "landed".
    pub main_branch: Option<String>,
    /// Seconds between landing sweeps. Zero switches them off.
    pub poll_interval: Option<u64>,
    /// Whether ready tickets entering `doing` are handed to the delegate.
    pub minesweeper: Option<bool>,
    /// The label that marks an issue for the delegate.
    pub minesweeper_label: Option<String>,
    /// The labels by which the delegate asks for a human.
    pub minesweeper_flag_labels: Vec<String>,
    /// The model names the forms offer.
    pub models: Vec<String>,
}

pub struct ConfigModel {
    pub worktree_root: Option<Text>,
    pub copy_to_worktrees: Seq<Text>,
    pub max_workers: Option<usize>,
    pub idle_time: Option<u64>,
    pub port: Option<u16>,
    pub main_branch: Option<Text>,
    pub poll_interval: Option<u64>,
    pub minesweeper: Option<bool>,
    pub minesweeper_label: Option<Text>,
    pub minesweeper_flag_labels: Seq<Text>,
    pub models: Seq<Text>,
}

impl View for Config {
    type V = ConfigModel;

    open spec fn view(&self) -> ConfigModel {
        ConfigModel {
            worktree_root: opt_model(self.worktree_root),
            copy_to_worktrees: models(self.copy_to_worktrees@),
            max_workers: self.max_workers,
            idle_time: self.idle_time,
            port: self.port,
            main_branch: opt_model(self.main_branch),
            poll_interval: self.poll_interval,
            minesweeper: self.minesweeper,
            minesweeper_label: opt_model(self.minesweeper_label),
            minesweeper_flag_labels: models(self.minesweeper_flag_labels@),
            models: models(self.models@),
        }
    }
}

impl ConfigModel {
    /// A configuration in which nothing was chosen.
    pub open spec fn unset() -> ConfigModel {
        ConfigModel {
            worktree_root: None,
            copy_to_worktrees: Seq::empty(),
            max_workers: None,
            idle_time: None,
            port: None,
            main_branch: None,
            poll_interval: None,
            minesweeper: None,
            minesweeper_label: None,
            minesweeper_flag_labels: Seq::empty(),
            models: Seq::empty(),
        }
    }
}

impl ConfigModel {
    /// The model names on offer: an empty list collapses to the common aliases.
    pub open spec fn vocabulary(self) -> Seq<Text> {
        if self.models.len() == 0 {
            seq!["opus"@, "sonnet"@, "haiku"@]
        } else {
            self.models
        }
    }

    /// How many tickets a work loop may drive at once: absent or zero collapses to one.
    pub open spec fn workers(self) -> usize {
        match self.max_workers {
            Some(n) => if n > 0 {
                n
            } else {
                1
            },
            None => 1,
        }
    }

    /// The idle sleep in seconds: absent or zero collapses to the default.
    pub open spec fn idle(self) -> u64 {
        match self.idle_time {
            Some(n) => if n > 0 {
                n
            } else {
                DEFAULT_IDLE_TIME_SECS
            },
            None => DEFAULT_IDLE_TIME_SECS,
        }
    }

    /// The label that marks an issue for the delegate.
    pub open spec fn label(self) -> Text {
        match self.minesweeper_label {
            Some(l) => l,
            None => DEFAULT_MINESWEEPER_LABEL@,
        }
    }

    /// The labels by which the delegate asks for a human.
    pub open spec fn flag_labels(self) -> Seq<Text> {
        if self.minesweeper_flag_labels.len() == 0 {
            seq![DEFAULT_FLAG_LABEL@]
        } else {
            self.minesweeper_flag_labels
        }
    }
}

impl Default for Config {
    fn default() -> (r: Config)
        ensures
            r@ == ConfigModel::unset(),
    {
        let r: Config = Config {
            worktree_root: None,
            copy_to_worktrees: Vec::new(),
            max_workers: None,
            idle_time: None,
            port: None,
            main_branch: None,
            poll_interval: None,
            minesweeper: None,
            minesweeper_label: None,
            minesweeper_flag_labels: Vec::new(),
            models: Vec::new(),
        };
        assert(r@.copy_to_worktrees =~= Seq::empty());
        assert(r@.minesweeper_flag_labels =~= Seq::empty());
        assert(r@.models =~= Seq::empty());
        r
    }
}

impl Config {
    /// The configuration of a store: what its file says, or nothing chosen when there is no file.
    pub fn load(file: Option<Config>) -> (r: Config)
        ensures
            r@ == match file {
                Some(c) => c@,
                None => ConfigModel::unset(),
            },
    {
        match file {
            Some(c) => c,
            None => Config::default(),
        }
    }

    /// The effective worktree root: the flag, else the configuration, else the default.
    pub fn worktree_root(&self, flag: Option<String>) -> (r: String)
        ensures
            r@ == match flag {
                Some(f) => f@,
                None => match self@.worktree_root {
                    Some(w) => w,
                    None => default_root(),
                },
            },
    {
        match flag {
            Some(f) => f,
            None => match &self.worktree_root {
                Some(w) => w.clone(),
                None => default_worktree_root(),
            },
        }
    }

    /// The effective worker count: absent or zero collapses to one.
    pub fn max_workers(&self) -> (r: usize)
        ensures
            r == self@.workers(),
    {
        match self.max_workers {
            Some(n) => if n > 0 {
                n
            } else {
                1
            },
            None => 1,
        }
    }

    /// The effective idle sleep in seconds: absent or zero collapses to the default.
    pub fn idle_time(&self) -> (r: u64)
        ensures
            r == self@.idle(),
    {
        match self.idle_time {
            Some(n) => if n > 0 {
                n
            } else {
                DEFAULT_IDLE_TIME_SECS
            },
            None => DEFAULT_IDLE_TIME_SECS,
        }
    }

    /// The explicitly chosen port, if any: the flag, else the configuration.
    pub fn port(&self, flag: Option<u16>) -> (r: Option<u16>)
        ensures
            r == match flag {
                Some(p) => Some(p),
                None => self@.port,
            },
    {
        match flag {
            Some(p) => Some(p),
            None => self.port,
        }
    }

    /// The effective integration branch: the configuration, else what was detected in the repository.
    pub fn main_branch(&self, detected: Option<String>) -> (r: Option<String>)
        ensures
            opt_model(r) == match self@.main_branch {
                Some(b) => Some(b),
                None => opt_model(detected),
            },
    {
        match &self.main_branch {
            Some(b) => Some(b.clone()),
            None => detected,
        }
    }

    /// The effective poll cadence in seconds: absent means the default, zero means never.
    pub fn poll_interval(&self) -> (r: Option<u64>)
        ensures
            r == match self@.poll_interval {
                Some(n) => if n == 0 {
                    None
                } else {
                    Some(n)
                },
                None => Some(DEFAULT_POLL_INTERVAL_SECS),
            },
    {
        match self.poll_interval {
            Some(n) => if n == 0 {
                None
            } else {
                Some(n)
            },
            None => Some(DEFAULT_POLL_INTERVAL_SECS),
        }
    }

    /// Whether delegation is switched on; it is off unless somebody chose it.
    pub fn minesweeper(&self) -> (r: bool)
        ensures
            r == (self@.minesweeper == Some(true)),
    {
        match self.minesweeper {
            Some(on) => on,
            None => false,
        }
    }

    /// The label that marks an issue for the delegate.
    pub fn minesweeper_label(&self) -> (r: String)
        ensures
            r@ == self@.label(),
    {
        match &self.minesweeper_label {
            Some(l) => l.clone(),
            None => DEFAULT_MINESWEEPER_LABEL.to_owned(),
        }
    }

    /// The labels by which the delegate asks for a human.
    pub fn minesweeper_flag_labels(&self) -> (r: Vec<String>)
        ensures
            models(r@) == self@.flag_labels(),
    {
        if self.minesweeper_flag_labels.len() == 0 {
            let mut labels: Vec<String> = Vec::new();
            labels.push(DEFAULT_FLAG_LABEL.to_owned());
            assert(models(labels@) =~= seq![DEFAULT_FLAG_LABEL@]);
            labels
        } else {
            clone_strings(&self.minesweeper_flag_labels)
        }
    }

    /// The model names the forms offer: the configured ones, or the aliases every worker knows.
    pub fn models(&self) -> (r: Vec<String>)
        ensures
            models(r@) == self@.vocabulary(),
    {
        if self.models.len() == 0 {
            let mut names: Vec<String> = Vec::new();
            names.push("opus".to_owned());
            names.push("sonnet".to_owned());
            names.push("haiku".to_owned());
            assert(models(names@) =~= seq!["opus"@, "sonnet"@, "haiku"@]);
            names
        } else {
            clone_strings(&self.models)
        }
    }
}

// ---- laws -----------------------------------------------------------------------------------------------------------

/// A setting that is absent, zero or empty collapses to its default; any other stands as it was chosen.
pub proof fn unset_settings_collapse_to_defaults(c: ConfigModel)
    ensures
        c.max_workers is None || c.max_workers == Some(0usize) ==> c.workers() == 1,
        c.max_workers matches Some(n) ==> n > 0 ==> c.workers() == n,
        c.idle_time is None || c.idle_time == Some(0u64) ==> c.idle() == DEFAULT_IDLE_TIME_SECS,
        c.idle_time matches Some(n) ==> n > 0 ==> c.idle() == n,
        c.minesweeper_label is None ==> c.label() == DEFAULT_MINESWEEPER_LABEL@,
        c.minesweeper_label matches Some(l) ==> c.label() == l,
        c.minesweeper_flag_labels.len() == 0 ==> c.flag_labels() == seq![DEFAULT_FLAG_LABEL@],
        c.minesweeper_flag_labels.len() > 0 ==> c.flag_labels() == c.minesweeper_flag_labels,
        c.models.len() == 0 ==> c.vocabulary() == seq!["opus"@, "sonnet"@, "haiku"@],
        c.models.len() > 0 ==> c.vocabulary() == c.models,
{
}

/// A configuration in which nothing was chosen holds nothing.
pub proof fn an_unset_configuration_is_blank()
    ensures
        ({
            let c = ConfigModel::unset();
            &&& c.worktree_root is None && c.max_workers is None && c.idle_time is None && c.port is None
            &&& c.main_branch is None && c.poll_interval is None && c.minesweeper is None && c.minesweeper_label is None
            &&& c.copy_to_worktrees.len() == 0 && c.minesweeper_flag_labels.len() == 0 && c.models.len() == 0
        }),
        default_root() == "/tmp/"@ + hyphenated(CODE_NAME@),
{
}

} // verus!
