use vstd::prelude::*;

use crate::text::{push_str, str_eq, trim, trimmed};

verus! {

/// The address the daemon listens on when none is given.
pub fn default_listen_addr() -> (r: String)
    ensures
        r@ == "127.0.0.1:4732"@,
{
    String::from_str("127.0.0.1:4732")
}

/// The command line help.
pub fn usage() -> (r: String)
    ensures
        r@ == "USAGE:\n  fridex-daemon [--listen <addr>] [--data-dir <path>] [--token <token> | --insecure-no-auth]\n\nOPTIONS:\n  --listen <addr>        Bind address (default: 127.0.0.1:4732)\n  --data-dir <path>      Data dir holding workspaces.json/settings.json\n  --token <token>        Shared token required by clients\n  --insecure-no-auth      Disable auth (dev only)\n  -h, --help             Show this help\n"@,
{
    String::from_str("USAGE:\n  fridex-daemon [--listen <addr>] [--data-dir <path>] [--token <token> | --insecure-no-auth]\n\nOPTIONS:\n  --listen <addr>        Bind address (default: 127.0.0.1:4732)\n  --data-dir <path>      Data dir holding workspaces.json/settings.json\n  --token <token>        Shared token required by clients\n  --insecure-no-auth      Disable auth (dev only)\n  -h, --help             Show this help\n")
}

/// The daemon's settings from its command line.
pub struct DaemonConfig {
    /// The address to bind, as written.
    pub listen: String,
    /// The shared token; `None` turns authentication off.
    pub token: Option<String>,
    /// The data directory; `None` means the default one.
    pub data_dir: Option<String>,
}

/// What the command line asks for.
pub enum ArgsOutcome {
    Run(DaemonConfig),
    Help,
}

/// The settings gathered so far while reading the command line.
pub struct ArgsState {
    pub listen: Seq<char>,
    pub token: Option<Seq<char>>,
    pub insecure: bool,
    pub data_dir: Option<Seq<char>>,
}

pub open spec fn missing_token_message() -> Seq<char> {
    "Missing --token (or set CODEX_MONITOR_DAEMON_TOKEN). Use --insecure-no-auth for local dev only."@
}

/// Reads `args[i..]` on top of `st`: `Ok(None)` asks for the help text.
pub open spec fn args_spec(args: Seq<Seq<char>>, i: int, st: ArgsState) -> Result<Option<ArgsState>, Seq<char>>
    decreases args.len() - i,
{
    if i < 0 || i >= args.len() {
        Ok(Some(st))
    } else {
        let a = args[i];
        if a == "-h"@ || a == "--help"@ {
            Ok(None)
        } else if a == "--listen"@ {
            if i + 1 >= args.len() {
                Err("--listen requires a value"@)
            } else {
                args_spec(args, i + 2, ArgsState { listen: args[i + 1], ..st })
            }
        } else if a == "--token"@ {
            if i + 1 >= args.len() {
                Err("--token requires a value"@)
            } else if trimmed(args[i + 1]).len() == 0 {
                Err("--token requires a non-empty value"@)
            } else {
                args_spec(args, i + 2, ArgsState { token: Some(trimmed(args[i + 1])), ..st })
            }
        } else if a == "--data-dir"@ {
            if i + 1 >= args.len() {
                Err("--data-dir requires a value"@)
            } else if trimmed(args[i + 1]).len() == 0 {
                Err("--data-dir requires a non-empty value"@)
            } else {
                args_spec(args, i + 2, ArgsState { data_dir: Some(trimmed(args[i + 1])), ..st })
            }
        } else if a == "--insecure-no-auth"@ {
            args_spec(args, i + 1, ArgsState { insecure: true, token: None, ..st })
        } else {
            Err("Unknown argument: "@ + a)
        }
    }
}

/// The token taken from the environment: kept where it is not blank.
pub open spec fn env_token_spec(env_token: Option<Seq<char>>) -> Option<Seq<char>> {
    match env_token {
        Some(t) => if trimmed(t).len() > 0 { Some(trimmed(t)) } else { None },
        None => None,
    }
}

/// What the whole command line means.
pub open spec fn parse_args_spec(args: Seq<Seq<char>>, env_token: Option<Seq<char>>) -> Result<Option<ArgsState>, Seq<char>> {
    let start = ArgsState { listen: "127.0.0.1:4732"@, token: env_token_spec(env_token), insecure: false, data_dir: None };
    match args_spec(args, 0, start) {
        Ok(Some(st)) => if st.token is None && !st.insecure {
            Err(missing_token_message())
        } else {
            Ok(Some(st))
        },
        other => other,
    }
}

/// The texts of a list of strings.
pub open spec fn views(args: Seq<String>) -> Seq<Seq<char>> {
    args.map_values(|s: String| s@)
}

pub open spec fn opt_view(o: Option<String>) -> Option<Seq<char>> {
    match o {
        Some(s) => Some(s@),
        None => None,
    }
}

/// Reads the daemon's arguments (without the program name); `env_token` is
/// the token from the environment, if set. Authentication must be either
/// given a token or turned off explicitly.
pub fn parse_args(args: &Vec<String>, env_token: Option<String>) -> (r: Result<ArgsOutcome, String>)
    ensures
        match parse_args_spec(views(args@), opt_view(env_token)) {
            Ok(None) => r matches Ok(ArgsOutcome::Help),
            Ok(Some(st)) => r matches Ok(ArgsOutcome::Run(c)) && c.listen@ == st.listen && opt_view(c.token)
                == st.token && opt_view(c.data_dir) == st.data_dir,
            Err(m) => r matches Err(e) && e@ == m,
        },
{
    let ghost view = views(args@);
    let mut listen = default_listen_addr();
    let mut token: Option<String> = match env_token {
        Some(t) => {
            let v = trim(t.as_str());
            if v.unicode_len() > 0 {
                Some(v)
            } else {
                None
            }
        },
        None => None,
    };
    let mut insecure = false;
    let mut data_dir: Option<String> = None;
    let ghost start = ArgsState { listen: listen@, token: opt_view(token), insecure, data_dir: None };
    assert(start.token == env_token_spec(opt_view(env_token)));
    let mut i: usize = 0;
    while i < args.len()
        invariant
            i <= args@.len(),
            view == views(args@),
            start == (ArgsState { listen: "127.0.0.1:4732"@, token: env_token_spec(opt_view(env_token)), insecure: false, data_dir: None }),
            args_spec(view, 0, start) == args_spec(
                view,
                i as int,
                ArgsState { listen: listen@, token: opt_view(token), insecure, data_dir: opt_view(data_dir) },
            ),
        decreases args@.len() - i,
    {
        let a = args[i].as_str();
        assert(view[i as int] == a@);
        if str_eq(a, "-h") || str_eq(a, "--help") {
            return Ok(ArgsOutcome::Help);
        } else if str_eq(a, "--listen") {
            if i + 1 >= args.len() {
                return Err(String::from_str("--listen requires a value"));
            }
            listen = args[i + 1].clone();
            i = i + 2;
        } else if str_eq(a, "--token") {
            if i + 1 >= args.len() {
                return Err(String::from_str("--token requires a value"));
            }
            let v = trim(args[i + 1].as_str());
            if v.unicode_len() == 0 {
                return Err(String::from_str("--token requires a non-empty value"));
            }
            token = Some(v);
            i = i + 2;
        } else if str_eq(a, "--data-dir") {
            if i + 1 >= args.len() {
                return Err(String::from_str("--data-dir requires a value"));
            }
            let v = trim(args[i + 1].as_str());
            if v.unicode_len() == 0 {
                return Err(String::from_str("--data-dir requires a non-empty value"));
            }
            data_dir = Some(v);
            i = i + 2;
        } else if str_eq(a, "--insecure-no-auth") {
            insecure = true;
            token = None;
            i = i + 1;
        } else {
            let mut m = String::from_str("Unknown argument: ");
            push_str(&mut m, a);
            return Err(m);
        }
    }
    if token.is_none() && !insecure {
        return Err(String::from_str(
            "Missing --token (or set CODEX_MONITOR_DAEMON_TOKEN). Use --insecure-no-auth for local dev only.",
        ));
    }
    Ok(ArgsOutcome::Run(DaemonConfig { listen, token, data_dir }))
}

/// The parameters of an `auth` request, as far as the token is concerned.
pub enum AuthParams {
    /// The parameters are a bare string.
    Text(String),
    /// The parameters are an object; `token` is its `token` member where that is a string.
    Object { token: Option<String> },
    /// Anything else.
    Other,
}

/// The token an `auth` request carries: the bare string, or the object's
/// `token` member.
pub fn parse_auth_token(params: AuthParams) -> (r: Option<String>)
    ensures
        match params {
            AuthParams::Text(s) => r == Some(s),
            AuthParams::Object { token } => r == token,
            AuthParams::Other => r is None,
        },
{
    match params {
        AuthParams::Text(s) => Some(s),
        AuthParams::Object { token } => token,
        AuthParams::Other => None,
    }
}

/// The body of a reply to a client.
pub enum ReplyBody<V> {
    Result(V),
    Error(String),
}

/// A reply to the request with id `id`: `{id, result}` or `{id, error: {message}}`.
pub struct Reply<V> {
    pub id: u64,
    pub body: ReplyBody<V>,
}

/// The error reply to a request; a request without an id gets none.
pub fn build_error_response<V>(id: Option<u64>, message: &str) -> (r: Option<Reply<V>>)
    ensures
        match id {
            Some(k) => (r matches Some(rep) && rep.id == k && (rep.body matches ReplyBody::Error(m) && m@ == message@)),
            None => r is None,
        },
{
    match id {
        Some(k) => Some(Reply { id: k, body: ReplyBody::Error(String::from_str(message)) }),
        None => None,
    }
}

/// The success reply to a request; a request without an id gets none.
pub fn build_result_response<V>(id: Option<u64>, result: V) -> (r: Option<Reply<V>>)
    ensures
        match id {
            Some(k) => r == Some(Reply { id: k, body: ReplyBody::Result(result) }),
            None => r is None,
        },
{
    match id {
        Some(k) => Some(Reply { id: k, body: ReplyBody::Result(result) }),
        None => None,
    }
}

/// What the connection does with one request.
#[derive(Clone, Debug, PartialEq, Eq)]
pub enum ConnAction {
    /// Authenticated: run the method.
    Dispatch,
    /// Refuse the request with this error message.
    Deny(String),
    /// The token was right: reply `{ok: true}` and start forwarding events.
    Accept,
}

/// The expected or provided token, with an absent one read as empty.
pub open spec fn token_text(t: Option<String>) -> Seq<char> {
    match t {
        Some(s) => s@,
        None => Seq::empty(),
    }
}

/// The authentication state of one client connection.
pub struct Connection {
    authenticated: bool,
}

impl Connection {
    pub closed spec fn authenticated(&self) -> bool {
        self.authenticated
    }

    /// A new connection; it starts authenticated when the daemon has no token.
    pub fn new(token: &Option<String>) -> (r: Self)
        ensures
            r.authenticated() == (token is None),
    {
        Connection { authenticated: token.is_none() }
    }

    /// Whether the connection has authenticated and receives events.
    pub fn is_authenticated(&self) -> (r: bool)
        ensures
            r == self.authenticated(),
    {
        self.authenticated
    }

    /// Handles one request. Before authentication only `auth` is heard:
    /// every other method is refused as `unauthorized` and leaves the
    /// connection free to authenticate later; `auth` succeeds exactly when
    /// the provided token equals the daemon's.
    pub fn on_request(&mut self, token: &Option<String>, method: &str, provided: Option<String>) -> (r: ConnAction)
        ensures
            old(self).authenticated() ==> r == ConnAction::Dispatch && final(self).authenticated(),
            !old(self).authenticated() && method@ != "auth"@ ==> (r matches ConnAction::Deny(m) && m@
                == "unauthorized"@) && !final(self).authenticated(),
            !old(self).authenticated() && method@ == "auth"@ && token_text(*token) == token_text(provided) ==> r
                == ConnAction::Accept && final(self).authenticated(),
            !old(self).authenticated() && method@ == "auth"@ && token_text(*token) != token_text(provided) ==> (r matches ConnAction::Deny(m)
                && m@ == "invalid token"@) && !final(self).authenticated(),
    {
        if self.authenticated {
            return ConnAction::Dispatch;
        }
        if !str_eq(method, "auth") {
            return ConnAction::Deny(String::from_str("unauthorized"));
        }
        let expected = match token {
            Some(t) => t.clone(),
            None => String::new(),
        };
        let given = match provided {
            Some(t) => t,
            None => String::new(),
        };
        if expected == given {
            self.authenticated = true;
            ConnAction::Accept
        } else {
            ConnAction::Deny(String::from_str("invalid token"))
        }
    }
}

/// What receiving from the event broadcast gave.
#[derive(Clone, Copy, Debug, PartialEq, Eq, Structural)]
pub enum Received {
    /// An event.
    Event,
    /// The receiver fell behind and events were dropped.
    Lagged,
    /// The broadcast ended.
    Closed,
}

/// What the forwarding task does next.
#[derive(Clone, Copy, Debug, PartialEq, Eq, Structural)]
pub enum ForwardStep {
    Deliver,
    Skip,
    Stop,
}

/// Forwarding tolerates lag: an event is delivered, a lag is skipped over,
/// and only the end of the broadcast stops the task.
pub fn forward_step(received: Received) -> (r: ForwardStep)
    ensures
        received == Received::Event ==> r == ForwardStep::Deliver,
        received == Received::Lagged ==> r == ForwardStep::Skip,
        received == Received::Closed ==> r == ForwardStep::Stop,
{
    match received {
        Received::Event => ForwardStep::Deliver,
        Received::Lagged => ForwardStep::Skip,
        Received::Closed => ForwardStep::Stop,
    }
}

/// The positions of the events delivered from `s[i..]`: every event up to
/// the end of the broadcast, in order, lags skipped.
pub open spec fn delivered(s: Seq<Received>, i: int) -> Seq<int>
    decreases s.len() - i,
{
    if i < 0 || i >= s.len() {
        Seq::empty()
    } else if s[i] == Received::Closed {
        Seq::empty()
    } else if s[i] == Received::Event {
        seq![i] + delivered(s, i + 1)
    } else {
        delivered(s, i + 1)
    }
}

/// Runs the forwarding loop over what a subscriber receives, in order, and
/// returns the positions of the events it delivers.
pub fn run_forwarding(received: &Vec<Received>) -> (r: Vec<usize>)
    ensures
        r@.map_values(|k: usize| k as int) == delivered(received@, 0),
{
    let mut out: Vec<usize> = Vec::new();
    let mut i: usize = 0;
    while i < received.len()
        invariant
            i <= received@.len(),
            delivered(received@, 0) == out@.map_values(|k: usize| k as int) + delivered(received@, i as int),
        decreases received@.len() - i,
    {
        match forward_step(received[i]) {
            ForwardStep::Deliver => {
                let ghost before = out@;
                out.push(i);
                assert(out@.map_values(|k: usize| k as int) =~= before.map_values(|k: usize| k as int) + seq![i as int]);
            },
            ForwardStep::Skip => {},
            ForwardStep::Stop => {
                assert(delivered(received@, i as int) == Seq::<int>::empty());
                assert(out@.map_values(|k: usize| k as int) + Seq::<int>::empty() =~= out@.map_values(|k: usize| k as int));
                return out;
            },
        }
        i = i + 1;
    }
    assert(out@.map_values(|k: usize| k as int) + Seq::<int>::empty() =~= out@.map_values(|k: usize| k as int));
    out
}

/// Delivery keeps emission order and survives lag: the events delivered
/// after a lag are exactly those delivered from just past it.
pub proof fn lemma_lag_is_not_fatal(s: Seq<Received>, i: int)
    requires
        0 <= i < s.len(),
        s[i] == Received::Lagged,
    ensures
        delivered(s, i) == delivered(s, i + 1),
{
}

/// The kinds of event that the daemon broadcasts.
#[derive(Clone, Copy, Debug, PartialEq, Eq, Structural)]
pub enum EventKind {
    AppServer,
    TerminalOutput,
    TerminalExit,
    Acp,
}

/// The `method` of the notification that carries an event.
pub fn event_method(kind: EventKind) -> (r: String)
    ensures
        kind == EventKind::AppServer ==> r@ == "app-server-event"@,
        kind == EventKind::TerminalOutput ==> r@ == "terminal-output"@,
        kind == EventKind::TerminalExit ==> r@ == "terminal-exit"@,
        kind == EventKind::Acp ==> r@ == "acp-event"@,
{
    match kind {
        EventKind::AppServer => String::from_str("app-server-event"),
        EventKind::TerminalOutput => String::from_str("terminal-output"),
        EventKind::TerminalExit => String::from_str("terminal-exit"),
        EventKind::Acp => String::from_str("acp-event"),
    }
}

/// The methods the daemon serves itself.
#[derive(Clone, Copy, Debug, PartialEq, Eq, Structural)]
pub enum DaemonMethod {
    Ping,
    AcpStartSession,
    AcpSend,
    AcpSendStream,
    AcpStopSession,
}

/// Looks a method name up in the dispatch table.
pub fn daemon_method(name: &str) -> (r: Option<DaemonMethod>)
    ensures
        r == (if name@ == "ping"@ {
            Some(DaemonMethod::Ping)
        } else if name@ == "acp_start_session"@ {
            Some(DaemonMethod::AcpStartSession)
        } else if name@ == "acp_send"@ {
            Some(DaemonMethod::AcpSend)
        } else if name@ == "acp_send_stream"@ {
            Some(DaemonMethod::AcpSendStream)
        } else if name@ == "acp_stop_session"@ {
            Some(DaemonMethod::AcpStopSession)
        } else {
            None::<DaemonMethod>
        }),
{
    if str_eq(name, "ping") {
        Some(DaemonMethod::Ping)
    } else if str_eq(name, "acp_start_session") {
        Some(DaemonMethod::AcpStartSession)
    } else if str_eq(name, "acp_send") {
        Some(DaemonMethod::AcpSend)
    } else if str_eq(name, "acp_send_stream") {
        Some(DaemonMethod::AcpSendStream)
    } else if str_eq(name, "acp_stop_session") {
        Some(DaemonMethod::AcpStopSession)
    } else {
        None
    }
}

/// The error for a method the dispatch table does not know.
pub fn unknown_method_error(name: &str) -> (r: String)
    ensures
        r@ == "unknown method: "@ + name@,
{
    let mut m = String::from_str("unknown method: ");
    push_str(&mut m, name);
    m
}

} // verus!
