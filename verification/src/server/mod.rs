//! What the board's web face decides and shows.
use vstd::prelude::*;

use crate::json::{as_u64, displayed, get, member, number, parse, reading, shown_member, Json, JsonModel};
use crate::seqs::{models, opt_model};
use crate::text::{concat2, concat3, concat4, concat5, decimal, to_decimal, Text};

pub mod assets;
pub mod docs;
pub mod routes;
pub mod search;
pub mod security;
pub mod sse;
pub mod views;

verus! {

broadcast use crate::seqs::group_models;

/// The port when nothing chooses one. Taken by another project, the server hunts for a free one.
pub const DEFAULT_PORT: u16 = 4747;

// ---- addresses ------------------------------------------------------------------------------------------------------

/// Where a board on that port is.
pub fn url(port: u16) -> (r: String)
    ensures
        r@ == "http://127.0.0.1:"@ + decimal(port as nat) + "/"@,
{
    concat3("http://127.0.0.1:", &to_decimal(port as u64), "/")
}

/// The hosts a board on that port answers to.
pub open spec fn hosts_of(port: u16) -> Seq<Text> {
    Seq::<Text>::empty().push("127.0.0.1:"@ + decimal(port as nat)).push("localhost:"@ + decimal(port as nat))
}

/// The hosts a board on that port answers to.
pub fn allowed_hosts(port: u16) -> (r: Vec<String>)
    ensures
        models(r@) == hosts_of(port),
{
    let n: String = to_decimal(port as u64);
    let mut out: Vec<String> = Vec::new();
    out.push(concat2("127.0.0.1:", &n));
    out.push(concat2("localhost:", &n));
    out
}

/// The origins that a board on that port takes mutations from.
pub open spec fn origins_of(port: u16) -> Seq<Text> {
    Seq::<Text>::empty().push("http://127.0.0.1:"@ + decimal(port as nat)).push(
        "http://localhost:"@ + decimal(port as nat),
    )
}

/// The origins that a board on that port takes mutations from.
pub fn allowed_origins(port: u16) -> (r: Vec<String>)
    ensures
        models(r@) == origins_of(port),
{
    let n: String = to_decimal(port as u64);
    let mut out: Vec<String> = Vec::new();
    out.push(concat2("http://127.0.0.1:", &n));
    out.push(concat2("http://localhost:", &n));
    out
}

/// The board's title: the name of the repository's directory.
pub fn project_title(repo_name: Option<String>) -> (r: String)
    ensures
        r@ == match repo_name {
            Some(n) => n@,
            None => "kanban"@,
        },
{
    match repo_name {
        Some(n) => n,
        None => "kanban".to_owned(),
    }
}

/// Who a drag into `doing` names: the name git is configured with, else the user's login, else `user`.
pub open spec fn owner_spec(git_name: Option<Text>, login: Option<Text>) -> Text {
    match git_name {
        Some(n) if n.len() > 0 => n,
        _ => match login {
            Some(u) if u.len() > 0 => u,
            _ => "user"@,
        },
    }
}

/// Who a drag into `doing` names as owner.
pub fn ui_owner(git_name: Option<String>, login: Option<String>) -> (r: String)
    ensures
        r@ == owner_spec(opt_model(git_name), opt_model(login)),
{
    match git_name {
        Some(n) => {
            if !n.as_str().is_empty() {
                return n;
            }
        },
        None => {},
    }
    match login {
        Some(u) => {
            if !u.as_str().is_empty() {
                return u;
            }
        },
        None => {},
    }
    "user".to_owned()
}

/// The address to open a browser on, unless that is not wanted.
pub fn open_browser(url: &str, no_open: bool) -> (r: Option<String>)
    ensures
        opt_model(r) == if no_open {
            None
        } else {
            Some(url@)
        },
{
    if no_open {
        None
    } else {
        Some(url.to_owned())
    }
}

// ---- the poller -----------------------------------------------------------------------------------------------------

/// How many seconds a disabled poller waits before it looks at the configuration again.
pub const DISABLED_RECHECK_SECS: u64 = 60;

/// How many seconds the poller sleeps, and whether it works when it wakes. `pinned` overrides the configuration; without an
/// interval polling is off, and the configuration is looked at again after a while.
pub fn poller_delay(pinned: Option<u64>, configured: Option<u64>) -> (r: (u64, bool))
    ensures
        r == match (pinned, configured) {
            (Some(n), _) => (n, true),
            (None, Some(n)) => (n, true),
            (None, None) => (DISABLED_RECHECK_SECS, false),
        },
{
    match (pinned, configured) {
        (Some(n), _) => (n, true),
        (None, Some(n)) => (n, true),
        (None, None) => (DISABLED_RECHECK_SECS, false),
    }
}

// ---- the socket -----------------------------------------------------------------------------------------------------

/// The process and port that a pid file names.
pub open spec fn serve_in(j: JsonModel) -> Option<(u32, u16)> {
    match (number(member(j, "pid"@)), number(member(j, "port"@))) {
        (Some(pid), Some(port)) => if pid <= u32::MAX && port <= u16::MAX {
            Some((pid as u32, port as u16))
        } else {
            None
        },
        _ => None,
    }
}

/// The process and port that a pid file names.
pub fn serve_from(j: &Json) -> (r: Option<(u32, u16)>)
    ensures
        r == serve_in(j@),
{
    match (as_u64(get(Some(j), "pid")), as_u64(get(Some(j), "port"))) {
        (Some(pid), Some(port)) => {
            if pid <= u32::MAX as u64 && port <= u16::MAX as u64 {
                Some((pid as u32, port as u16))
            } else {
                None
            }
        },
        _ => None,
    }
}

/// The process and port that a pid file names. Whether the process is alive is another question.
pub fn live_serve(raw: &str) -> (r: Option<(u32, u16)>)
    ensures
        r == match reading(raw@) {
            Ok(j) => serve_in(j),
            Err(_) => None,
        },
{
    match parse(raw) {
        Ok(j) => serve_from(&j),
        Err(_) => None,
    }
}

/// What is said of a port that could not be bound: with a pid file around, that a server seems to be running.
pub open spec fn hint(port: u16, shown: Option<(Text, Text)>, pid_file: Text) -> Text {
    match shown {
        Some(s) => "could not bind port "@ + decimal(port as nat) + " — a serve already seems to be running (pid "@ + s.0
            + ", port "@ + (s.1 + "; "@ + pid_file + " if it isn't)"@),
        None => "could not bind 127.0.0.1:"@ + decimal(port as nat),
    }
}

/// What is said of a port that could not be bound, given how the pid file's process and port display.
pub fn bind_failure(port: u16, shown: Option<(String, String)>, pid_file: &str) -> (r: String)
    ensures
        r@ == hint(
            port,
            match shown {
                Some(s) => Some((s.0@, s.1@)),
                None => None,
            },
            pid_file@,
        ),
{
    match shown {
        Some((pid, other)) => {
            let rest: String = concat4(&other, "; ", pid_file, " if it isn't)");
            let head: String = concat4(
                "could not bind port ",
                &to_decimal(port as u64),
                " — a serve already seems to be running (pid ",
                &pid,
            );
            concat3(&head, ", port ", &rest)
        },
        None => concat2("could not bind 127.0.0.1:", &to_decimal(port as u64)),
    }
}

/// What is said of a port that could not be bound, given what the pid file holds, where there is one.
pub fn bind_failure_hint(port: u16, raw: Option<&str>, pid_file: &str) -> (r: String)
    ensures
        ({
            let shown = match raw {
                Some(text) => match reading(text@) {
                    Ok(j) => Some((displayed(member(j, "pid"@)), displayed(member(j, "port"@)))),
                    Err(_) => None,
                },
                None => None,
            };
            r@ == hint(port, shown, pid_file@)
        }),
{
    let shown: Option<(String, String)> = match raw {
        Some(text) => match (shown_member(text, "pid"), shown_member(text, "port")) {
            (Some(pid), Some(other)) => Some((pid, other)),
            _ => None,
        },
        None => None,
    };
    bind_failure(port, shown, pid_file)
}

/// How binding a port ended.
#[derive(Debug)]
pub enum BindOutcome {
    Bound,
    /// Somebody else holds the port.
    InUse(String),
    Failed(String),
}

/// The next step of finding a socket.
#[derive(Debug, PartialEq, Eq)]
pub enum Bound {
    /// Bind this port; 0 lets the system pick.
    Bind(u16),
    /// Find out whether this store is being served already, by a process that is alive.
    AskServed,
    /// Serve on the socket just bound.
    Listener,
    /// This store is being served already.
    AlreadyServed { pid: u32, port: u16 },
    Fail(String),
}

pub enum BoundModel {
    Bind(u16),
    AskServed,
    Listener,
    AlreadyServed { pid: u32, port: u16 },
    Fail(Text),
}

impl View for Bound {
    type V = BoundModel;

    open spec fn view(&self) -> BoundModel {
        match self {
            Bound::Bind(p) => BoundModel::Bind(*p),
            Bound::AskServed => BoundModel::AskServed,
            Bound::Listener => BoundModel::Listener,
            Bound::AlreadyServed { pid, port } => BoundModel::AlreadyServed { pid: *pid, port: *port },
            Bound::Fail(e) => BoundModel::Fail(e@),
        }
    }
}

/// What is known so far: how the first binding ended, who serves this store, how the second binding ended.
#[derive(Debug)]
pub struct BindFacts {
    pub first: Option<BindOutcome>,
    pub served: Option<Option<(u32, u16)>>,
    pub second: Option<BindOutcome>,
}

impl Default for BindFacts {
    fn default() -> (r: BindFacts)
        ensures
            r.first is None && r.served is None && r.second is None,
    {
        BindFacts { first: None, served: None, second: None }
    }
}

/// A failure with what led up to it.
pub open spec fn failing(context: Text, cause: Text) -> BoundModel {
    BoundModel::Fail(context + ": "@ + cause)
}

/// The next step of finding a socket. An explicit port is honoured or fails, with the hint. Without one the default is
/// tried; when that is taken, either this store is being served already, or somebody else owns the port and the system
/// picks a free one.
pub open spec fn bind_spec(explicit: Option<u16>, default_port: u16, hint: Text, facts: BindFacts) -> BoundModel {
    match explicit {
        Some(port) => match facts.first {
            None => BoundModel::Bind(port),
            Some(BindOutcome::Bound) => BoundModel::Listener,
            Some(BindOutcome::InUse(e)) => failing(hint, e@),
            Some(BindOutcome::Failed(e)) => failing(hint, e@),
        },
        None => match facts.first {
            None => BoundModel::Bind(default_port),
            Some(BindOutcome::Bound) => BoundModel::Listener,
            Some(BindOutcome::Failed(e)) => failing("could not bind 127.0.0.1:"@ + decimal(default_port as nat), e@),
            Some(BindOutcome::InUse(_)) => match facts.served {
                None => BoundModel::AskServed,
                Some(Some(s)) => BoundModel::AlreadyServed { pid: s.0, port: s.1 },
                Some(None) => match facts.second {
                    None => BoundModel::Bind(0),
                    Some(BindOutcome::Bound) => BoundModel::Listener,
                    Some(BindOutcome::InUse(e)) => failing("could not bind any loopback port"@, e@),
                    Some(BindOutcome::Failed(e)) => failing("could not bind any loopback port"@, e@),
                },
            },
        },
    }
}

fn fail(context: &str, cause: &str) -> (r: Bound)
    ensures
        r@ == failing(context@, cause@),
{
    Bound::Fail(concat3(context, ": ", cause))
}

/// Choose and bind the socket: the next step, given what is known. `hint` is what to say of an explicit port that could
/// not be bound.
pub fn bind_listener(explicit: Option<u16>, default_port: u16, hint: &str, facts: &BindFacts) -> (r: Bound)
    ensures
        r@ == bind_spec(explicit, default_port, hint@, *facts),
{
    match explicit {
        Some(port) => match &facts.first {
            None => Bound::Bind(port),
            Some(BindOutcome::Bound) => Bound::Listener,
            Some(BindOutcome::InUse(e)) => fail(hint, e),
            Some(BindOutcome::Failed(e)) => fail(hint, e),
        },
        None => match &facts.first {
            None => Bound::Bind(default_port),
            Some(BindOutcome::Bound) => Bound::Listener,
            Some(BindOutcome::Failed(e)) => {
                fail(&concat2("could not bind 127.0.0.1:", &to_decimal(default_port as u64)), e)
            },
            Some(BindOutcome::InUse(_)) => match facts.served {
                None => Bound::AskServed,
                Some(Some((pid, port))) => Bound::AlreadyServed { pid, port },
                Some(None) => match &facts.second {
                    None => Bound::Bind(0),
                    Some(BindOutcome::Bound) => Bound::Listener,
                    Some(BindOutcome::InUse(e)) => fail("could not bind any loopback port", e),
                    Some(BindOutcome::Failed(e)) => fail("could not bind any loopback port", e),
                },
            },
        },
    }
}

/// What the user reads when this store is being served already.
pub fn already_served(pid: u32, port: u16) -> (r: String)
    ensures
        r@ == "This board is already being served on "@ + ("http://127.0.0.1:"@ + decimal(port as nat) + "/"@) + " (pid "@
            + decimal(pid as nat) + ") — not starting a duplicate."@,
{
    concat5(
        "This board is already being served on ",
        &url(port),
        " (pid ",
        &to_decimal(pid as u64),
        ") — not starting a duplicate.",
    )
}

// ---- laws -----------------------------------------------------------------------------------------------------------

/// An explicit choice is never silently overridden: no other port is ever bound for it.
pub proof fn an_explicit_port_is_honoured_or_fails(port: u16, default_port: u16, hint: Text, facts: BindFacts)
    ensures
        match bind_spec(Some(port), default_port, hint, facts) {
            BoundModel::Bind(p) => p == port,
            BoundModel::Listener => true,
            BoundModel::Fail(_) => true,
            _ => false,
        },
{
}

/// A taken default port is no failure: the store is found to be served, or a free port is asked for.
pub proof fn a_taken_default_port_is_no_failure(default_port: u16, hint: Text, e: String, served: Option<(u32, u16)>)
    ensures
        ({
            let facts = BindFacts { first: Some(BindOutcome::InUse(e)), served: Some(served), second: None };
            match bind_spec(None, default_port, hint, facts) {
                BoundModel::AlreadyServed { pid, port } => served == Some((pid, port)),
                BoundModel::Bind(p) => served is None && p == 0,
                _ => false,
            }
        }),
{
}

/// A board on a port answers to that port of the loopback address and of localhost, and takes mutations from pages it served
/// there itself.
pub proof fn a_board_answers_to_itself(port: u16, host: Text)
    ensures
        hosts_of(port).contains(host) <==> host == "127.0.0.1:"@ + decimal(port as nat) || host == "localhost:"@ + decimal(
            port as nat,
        ),
        origins_of(port).contains("http://"@ + host) <==> hosts_of(port).contains(host),
{
    let hosts = hosts_of(port);
    let origins = origins_of(port);
    let d = decimal(port as nat);
    assert(hosts[0] == "127.0.0.1:"@ + d && hosts[1] == "localhost:"@ + d);
    assert(origins[0] == "http://127.0.0.1:"@ + d && origins[1] == "http://localhost:"@ + d);
    reveal_strlit("http://");
    reveal_strlit("127.0.0.1:");
    reveal_strlit("localhost:");
    reveal_strlit("http://127.0.0.1:");
    reveal_strlit("http://localhost:");
    assert("http://127.0.0.1:"@ =~= "http://"@ + "127.0.0.1:"@);
    assert("http://localhost:"@ =~= "http://"@ + "localhost:"@);
    assert(origins[0] =~= "http://"@ + hosts[0]);
    assert(origins[1] =~= "http://"@ + hosts[1]);
    let o = "http://"@ + host;
    assert(o.subrange(7, o.len() as int) =~= host);
    assert(origins[0].subrange(7, origins[0].len() as int) =~= hosts[0]);
    assert(origins[1].subrange(7, origins[1].len() as int) =~= hosts[1]);
    if hosts.contains(host) {
        let i = choose|i: int| 0 <= i < hosts.len() && hosts[i] == host;
        assert(hosts[i] == host && origins[i] == o);
    }
    if origins.contains(o) {
        let i = choose|i: int| 0 <= i < origins.len() && origins[i] == o;
        assert(origins[i] == o);
        assert(hosts[i] == host);
    }
}

/// Who a drag names: the name git knows, else the login, else `user`; an empty name counts for nothing.
pub proof fn the_owner_has_a_name(git_name: Option<Text>, login: Option<Text>)
    ensures
        git_name is Some && (git_name->0).len() > 0 ==> owner_spec(git_name, login) == git_name->0,
        !(git_name is Some && (git_name->0).len() > 0) && login is Some && (login->0).len() > 0 ==> owner_spec(git_name, login)
            == login->0,
        !(git_name is Some && (git_name->0).len() > 0) && !(login is Some && (login->0).len() > 0) ==> owner_spec(git_name, login)
            == "user"@,
{
}

/// A pid file names a server when it gives a process and a port that can be ones.
pub proof fn a_pid_file_names_a_server(j: JsonModel)
    ensures
        ({
            let pid = number(member(j, "pid"@));
            let port = number(member(j, "port"@));
            &&& serve_in(j) is Some <==> pid is Some && port is Some && pid->0 <= u32::MAX && port->0 <= u16::MAX
            &&& serve_in(j) matches Some(s) ==> s.0 == pid->0 && s.1 == port->0
        }),
{
}

/// How a socket is found, step by step: the port asked for, or the default one; where the default is taken, whether this
/// store is served already, and if it is not, any free port.
pub proof fn a_socket_is_found_step_by_step(explicit: Option<u16>, default_port: u16, hint: Text, facts: BindFacts)
    ensures
        ({
            let step = bind_spec(explicit, default_port, hint, facts);
            &&& facts.first is None ==> step == BoundModel::Bind(
                if explicit is Some {
                    explicit->0
                } else {
                    default_port
                },
            )
            &&& facts.first == Some(BindOutcome::Bound) ==> step == BoundModel::Listener
            &&& facts.first is Some && facts.first != Some(BindOutcome::Bound) && explicit is Some ==> step is Fail
            &&& facts.first is Some && facts.first->0 is Failed ==> step is Fail
            &&& explicit is None && facts.first is Some && facts.first->0 is InUse && facts.served is None ==> step
                == BoundModel::AskServed
            &&& explicit is None && facts.first is Some && facts.first->0 is InUse && facts.served is Some
                && facts.served->0 is Some ==> step == (BoundModel::AlreadyServed {
                pid: (facts.served->0->0).0,
                port: (facts.served->0->0).1,
            })
            &&& explicit is None && facts.first is Some && facts.first->0 is InUse && facts.served is Some
                && facts.served->0 is None ==> {
                &&& facts.second is None ==> step == BoundModel::Bind(0)
                &&& facts.second == Some(BindOutcome::Bound) ==> step == BoundModel::Listener
                &&& facts.second is Some && facts.second != Some(BindOutcome::Bound) ==> step is Fail
            }
        }),
{
}

} // verus!
