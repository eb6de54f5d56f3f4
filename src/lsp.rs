use vstd::prelude::*;

use crate::registry::Registry;
use crate::servers::{plan_spec, server_plan, Platform, ServerPlan};
use crate::text::{push_char, push_str};

verus! {

/// Failures of the language server manager.
#[derive(Clone, Copy, Debug, PartialEq, Eq, Structural)]
pub enum LspError {
    /// No client runs for this workspace and language.
    ClientNotStarted,
    /// No language server is known for this language on this platform.
    Unsupported,
}

impl LspError {
    /// A human readable description of the error.
    pub fn message(&self) -> (r: String)
        ensures
            *self == LspError::ClientNotStarted ==> r@ == "LSP client not started"@,
            *self == LspError::Unsupported ==> r@ == "unsupported language/platform for LSP"@,
    {
        match self {
            LspError::ClientNotStarted => String::from_str("LSP client not started"),
            LspError::Unsupported => String::from_str("unsupported language/platform for LSP"),
        }
    }
}

/// The registry key of the client for a workspace and a language.
pub open spec fn key_spec(workspace_id: Seq<char>, language_id: Seq<char>) -> Seq<char> {
    workspace_id + seq![':'] + language_id
}

/// Builds `workspace:language`, the key that a client is kept under.
pub fn client_key(workspace_id: &str, language_id: &str) -> (r: String)
    ensures
        r@ == key_spec(workspace_id@, language_id@),
{
    let mut out = String::new();
    push_str(&mut out, workspace_id);
    push_char(&mut out, ':');
    push_str(&mut out, language_id);
    assert(out@ =~= key_spec(workspace_id@, language_id@));
    out
}

/// What `start` has to do for a workspace and a language.
pub enum StartPlan {
    /// A client already runs: nothing to do.
    AlreadyRunning,
    /// Provision and launch this server, then register the client.
    Launch(ServerPlan),
}

/// One message that the writer puts on the wire.
pub struct Outbound<P> {
    /// The request id; `None` for a notification.
    pub id: Option<i64>,
    pub method: String,
    /// The parameters; `None` stands for an empty object.
    pub params: Option<P>,
}

/// A command queued for a client's writer.
pub enum LspCommand<P> {
    Request { id: i64, method: String, params: P },
    Notify { method: String, params: P },
    /// Send the `shutdown` request under this id and the `exit`
    /// notification, then stop writing.
    Shutdown { id: i64 },
}

/// The frames that the writer emits for a command, and whether it keeps
/// running afterwards: a request or a notification becomes one frame;
/// `Shutdown` becomes a `shutdown` request and an `exit` notification, and
/// ends the writer.
pub fn writer_step<P>(command: LspCommand<P>) -> (r: (Vec<Outbound<P>>, bool))
    ensures
        match command {
            LspCommand::Request { id, method, params } => r.1 && r.0@.len() == 1 && r.0@[0].id == Some(id)
                && r.0@[0].method@ == method@ && r.0@[0].params == Some(params),
            LspCommand::Notify { method, params } => r.1 && r.0@.len() == 1 && r.0@[0].id is None
                && r.0@[0].method@ == method@ && r.0@[0].params == Some(params),
            LspCommand::Shutdown { id } => !r.1 && r.0@.len() == 2 && r.0@[0].id == Some(id) && r.0@[0].method@
                == "shutdown"@ && r.0@[0].params is None && r.0@[1].id is None && r.0@[1].method@ == "exit"@
                && r.0@[1].params is None,
        },
{
    let mut out: Vec<Outbound<P>> = Vec::new();
    match command {
        LspCommand::Request { id, method, params } => {
            out.push(Outbound { id: Some(id), method, params: Some(params) });
            (out, true)
        },
        LspCommand::Notify { method, params } => {
            out.push(Outbound { id: None, method, params: Some(params) });
            (out, true)
        },
        LspCommand::Shutdown { id } => {
            out.push(Outbound { id: Some(id), method: String::from_str("shutdown"), params: None });
            out.push(Outbound { id: None, method: String::from_str("exit"), params: None });
            (out, false)
        },
    }
}

/// What a request returns for a reply: its `error` member as a failure where
/// there is one, else its `result` member, or `null` where that is absent.
pub fn reply_outcome<V>(error: Option<V>, result: Option<V>, null: V) -> (r: Result<V, V>)
    ensures
        match error {
            Some(e) => r == Err::<V, V>(e),
            None => r == Ok::<V, V>(
                match result {
                    Some(v) => v,
                    None => null,
                },
            ),
        },
{
    match error {
        Some(e) => Err(e),
        None => match result {
            Some(v) => Ok(v),
            None => Ok(null),
        },
    }
}

/// The language server clients, one per workspace and language.
pub struct LspManager<C> {
    clients: Registry<C>,
}

impl<C> LspManager<C> {
    /// The clients by key (see `key_spec`).
    pub closed spec fn view(&self) -> Map<Seq<char>, C> {
        self.clients@
    }

    pub closed spec fn wf(&self) -> bool {
        self.clients.wf()
    }

    /// A manager with no clients.
    pub fn new() -> (r: Self)
        ensures
            r.wf(),
            r@ == Map::<Seq<char>, C>::empty(),
    {
        LspManager { clients: Registry::new() }
    }

    /// Whether a client runs for this workspace and language.
    pub fn is_started(&self, workspace_id: &str, language_id: &str) -> (r: bool)
        requires
            self.wf(),
        ensures
            r == self@.contains_key(key_spec(workspace_id@, language_id@)),
    {
        let key = client_key(workspace_id, language_id);
        self.clients.contains(key.as_str())
    }

    /// Decides what starting a client takes: nothing where one runs already,
    /// else the server to launch; a language with no server on this platform
    /// fails. The registry is left as it is either way.
    pub fn plan_start(&self, workspace_id: &str, language_id: &str, platform: Platform) -> (r: Result<StartPlan, LspError>)
        requires
            self.wf(),
        ensures
            self@.contains_key(key_spec(workspace_id@, language_id@)) ==> r matches Ok(StartPlan::AlreadyRunning),
            !self@.contains_key(key_spec(workspace_id@, language_id@)) ==> match plan_spec(language_id@, platform) {
                Some(p) => r matches Ok(StartPlan::Launch(plan)) && plan.view() == p,
                None => r == Err::<StartPlan, LspError>(LspError::Unsupported),
            },
    {
        if self.is_started(workspace_id, language_id) {
            return Ok(StartPlan::AlreadyRunning);
        }
        match server_plan(language_id, platform) {
            Some(plan) => Ok(StartPlan::Launch(plan)),
            None => Err(LspError::Unsupported),
        }
    }

    /// Registers the client just launched for this workspace and language.
    pub fn register(&mut self, workspace_id: &str, language_id: &str, client: C)
        requires
            old(self).wf(),
            !old(self)@.contains_key(key_spec(workspace_id@, language_id@)),
        ensures
            final(self).wf(),
            final(self)@ == old(self)@.insert(key_spec(workspace_id@, language_id@), client),
    {
        let key = client_key(workspace_id, language_id);
        self.clients.insert(key, client);
    }

    /// Removes the client of this workspace and language and hands it back,
    /// so that the caller can send it the shutdown sequence. Stopping a
    /// client that does not run changes nothing and is no error.
    pub fn stop(&mut self, workspace_id: &str, language_id: &str) -> (r: Option<C>)
        requires
            old(self).wf(),
        ensures
            final(self).wf(),
            final(self)@ == old(self)@.remove(key_spec(workspace_id@, language_id@)),
            r == (if old(self)@.contains_key(key_spec(workspace_id@, language_id@)) {
                Some(old(self)@[key_spec(workspace_id@, language_id@)])
            } else {
                None::<C>
            }),
    {
        let key = client_key(workspace_id, language_id);
        self.clients.remove(key.as_str())
    }

    /// The client to send a request or a notification through.
    pub fn client(&self, workspace_id: &str, language_id: &str) -> (r: Result<&C, LspError>)
        requires
            self.wf(),
        ensures
            match r {
                Ok(c) => self@.contains_key(key_spec(workspace_id@, language_id@)) && *c == self@[key_spec(
                    workspace_id@,
                    language_id@,
                )],
                Err(e) => e == LspError::ClientNotStarted && !self@.contains_key(key_spec(workspace_id@, language_id@)),
            },
    {
        let key = client_key(workspace_id, language_id);
        match self.clients.get(key.as_str()) {
            Some(c) => Ok(c),
            None => Err(LspError::ClientNotStarted),
        }
    }
}

/// Stopping a client that was never started leaves the manager as it was
/// and hands nothing back.
pub proof fn lemma_stop_unstarted_is_noop<C>(clients: Map<Seq<char>, C>, workspace_id: Seq<char>, language_id: Seq<char>)
    requires
        !clients.contains_key(key_spec(workspace_id, language_id)),
    ensures
        clients.remove(key_spec(workspace_id, language_id)) == clients,
{
    assert(clients.remove(key_spec(workspace_id, language_id)) =~= clients);
}

} // verus!
