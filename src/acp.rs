use vstd::prelude::*;

use crate::registry::Registry;
use crate::text::{decimal, push_char, push_decimal, push_str};

verus! {

/// Failures of the agent host.
#[derive(Clone, Copy, Debug, PartialEq, Eq, Structural)]
pub enum AcpError {
    /// No session runs under this id.
    SessionNotFound,
    /// The session counter is used up.
    SessionIdsExhausted,
}

impl AcpError {
    /// A human readable description of the error.
    pub fn message(&self) -> (r: String)
        ensures
            *self == AcpError::SessionNotFound ==> r@ == "ACP session not found"@,
            *self == AcpError::SessionIdsExhausted ==> r@ == "ACP session ids exhausted"@,
    {
        match self {
            AcpError::SessionNotFound => String::from_str("ACP session not found"),
            AcpError::SessionIdsExhausted => String::from_str("ACP session ids exhausted"),
        }
    }
}

/// The id of a JSON-RPC message, numeric or textual.
#[derive(Clone, Debug, PartialEq, Eq)]
pub enum RequestId {
    Number(i64),
    Text(String),
}

/// The text an id is compared by: a number in decimal, a string as it is.
/// So the number 7 and the string "7" name the same request.
pub open spec fn id_text(id: RequestId) -> Seq<char> {
    match id {
        RequestId::Number(n) => if n < 0 {
            seq!['-'] + decimal((-n) as nat)
        } else {
            decimal(n as nat)
        },
        RequestId::Text(s) => s@,
    }
}

/// Writes the comparison text of an id.
pub fn request_id_text(id: &RequestId) -> (r: String)
    ensures
        r@ == id_text(*id),
{
    match id {
        RequestId::Number(n) => {
            let mut out = String::new();
            if *n < 0 {
                push_char(&mut out, '-');
                let m: u64 = if *n == i64::MIN {
                    9223372036854775808u64
                } else {
                    (-*n) as u64
                };
                push_decimal(&mut out, m);
            } else {
                push_decimal(&mut out, *n as u64);
            }
            out
        },
        RequestId::Text(s) => s.clone(),
    }
}

/// Whether a frame with id `frame` ends the exchange of a request with id
/// `request`: it does when its id names the same request, and a request
/// without an id takes the first frame whatever it is.
pub open spec fn ends_exchange(request: Option<RequestId>, frame: Option<RequestId>) -> bool {
    match request {
        None => true,
        Some(r) => match frame {
            Some(f) => id_text(f) == id_text(r),
            None => false,
        },
    }
}

/// What to do with one frame read during an exchange.
#[derive(Clone, Copy, Debug, PartialEq, Eq, Structural)]
pub enum ExchangeStep {
    /// The frame is the reply: return it and stop reading.
    Finish,
    /// An intermediate frame: hand it to the event callback, keep reading.
    Forward,
    /// An intermediate frame that nobody asked to see: drop it, keep reading.
    Discard,
}

/// Decides what happens to a frame read while waiting for the reply to
/// `request`; `streaming` says whether intermediate frames go to a callback.
pub fn exchange_step(request: &Option<RequestId>, frame: &Option<RequestId>, streaming: bool) -> (r: ExchangeStep)
    ensures
        ends_exchange(*request, *frame) ==> r == ExchangeStep::Finish,
        !ends_exchange(*request, *frame) && streaming ==> r == ExchangeStep::Forward,
        !ends_exchange(*request, *frame) && !streaming ==> r == ExchangeStep::Discard,
{
    let done = match request {
        None => true,
        Some(r) => match frame {
            Some(f) => {
                let a = request_id_text(f);
                let b = request_id_text(r);
                a == b
            },
            None => false,
        },
    };
    if done {
        ExchangeStep::Finish
    } else if streaming {
        ExchangeStep::Forward
    } else {
        ExchangeStep::Discard
    }
}

/// Runs the exchange loop over the ids of the frames a session emits, in
/// order: returns the position of the reply, if one comes, and the
/// positions of the frames handed to the callback, which in streaming mode
/// are all those before the reply and otherwise none.
pub fn run_exchange(request: &Option<RequestId>, frames: &Vec<Option<RequestId>>, streaming: bool) -> (r: (Option<usize>, Vec<usize>))
    ensures
        match r.0 {
            Some(k) => k < frames@.len() && ends_exchange(*request, frames@[k as int]) && forall|j: int|
                0 <= j < k ==> !ends_exchange(*request, #[trigger] frames@[j]),
            None => forall|j: int| 0 <= j < frames@.len() ==> !ends_exchange(*request, #[trigger] frames@[j]),
        },
        streaming ==> r.1@ == Seq::new(
            (match r.0 {
                Some(k) => k as nat,
                None => frames@.len(),
            }),
            |j: int| j as usize,
        ),
        !streaming ==> r.1@.len() == 0,
{
    let mut forwarded: Vec<usize> = Vec::new();
    let mut i: usize = 0;
    while i < frames.len()
        invariant
            i <= frames@.len(),
            forall|j: int| 0 <= j < i ==> !ends_exchange(*request, #[trigger] frames@[j]),
            streaming ==> forwarded@ == Seq::new(i as nat, |j: int| j as usize),
            !streaming ==> forwarded@.len() == 0,
        decreases frames@.len() - i,
    {
        match exchange_step(request, &frames[i], streaming) {
            ExchangeStep::Finish => {
                return (Some(i), forwarded);
            },
            ExchangeStep::Forward => {
                forwarded.push(i);
                assert(forwarded@ =~= Seq::new((i + 1) as nat, |j: int| j as usize));
            },
            ExchangeStep::Discard => {},
        }
        i = i + 1;
    }
    (None, forwarded)
}

/// Two sessions started one after the other get different ids: the second
/// id was not registered after the first start, which registered the first.
pub proof fn lemma_session_ids_differ<S>(
    before: Map<Seq<char>, S>,
    first: Seq<char>,
    a: S,
    second: Seq<char>,
)
    requires
        !before.insert(first, a).contains_key(second),
    ensures
        first != second,
{
    assert(before.insert(first, a).contains_key(first));
}

/// The id of a session started at `millis` as the `counter`-th of its host.
pub open spec fn session_id_spec(millis: nat, counter: nat) -> Seq<char> {
    "acp-"@ + decimal(millis) + seq!['-'] + decimal(counter)
}

/// Builds `acp-<millis>-<counter>`.
pub fn build_session_id(millis: u64, counter: u64) -> (r: String)
    ensures
        r@ == session_id_spec(millis as nat, counter as nat),
{
    let mut out = String::from_str("acp-");
    push_decimal(&mut out, millis);
    push_char(&mut out, '-');
    push_decimal(&mut out, counter);
    out
}

/// The agent sessions that run, by id, and the counter that numbers them.
pub struct AcpHost<S> {
    sessions: Registry<S>,
    counter: u64,
}

impl<S> AcpHost<S> {
    pub closed spec fn view(&self) -> Map<Seq<char>, S> {
        self.sessions@
    }

    /// The number the next session gets.
    pub closed spec fn next_counter(&self) -> nat {
        self.counter as nat
    }

    pub closed spec fn wf(&self) -> bool {
        self.sessions.wf() && self.counter >= 1
    }

    /// A host without sessions whose first session is numbered 1.
    pub fn new() -> (r: Self)
        ensures
            r.wf(),
            r@ == Map::<Seq<char>, S>::empty(),
            r.next_counter() == 1,
    {
        AcpHost { sessions: Registry::new(), counter: 1 }
    }

    /// Registers a session spawned at `millis` under a fresh id and returns
    /// the id. The counter only grows, so ids are not reused.
    pub fn start_session(&mut self, millis: u64, session: S) -> (r: Result<String, AcpError>)
        requires
            old(self).wf(),
        ensures
            final(self).wf(),
            final(self).next_counter() >= old(self).next_counter(),
            match r {
                Ok(id) => {
                    &&& !old(self)@.contains_key(id@)
                    &&& final(self)@ == old(self)@.insert(id@, session)
                    &&& exists|c: nat| old(self).next_counter() <= c < final(self).next_counter() && id@ == session_id_spec(millis as nat, c)
                },
                Err(e) => {
                    &&& e == AcpError::SessionIdsExhausted
                    &&& final(self)@ == old(self)@
                    &&& forall|c: nat| old(self).next_counter() <= c < u64::MAX ==> old(self)@.contains_key(
                        #[trigger] session_id_spec(millis as nat, c),
                    )
                },
            },
    {
        let ghost start = self.counter as nat;
        loop
            invariant
                self.wf(),
                self@ == old(self)@,
                self.counter >= start,
                start == old(self).next_counter(),
                forall|c: nat| start <= c < self.counter ==> old(self)@.contains_key(#[trigger] session_id_spec(millis as nat, c)),
            decreases u64::MAX - self.counter,
        {
            if self.counter == u64::MAX {
                return Err(AcpError::SessionIdsExhausted);
            }
            let c = self.counter;
            let id = build_session_id(millis, c);
            self.counter = self.counter + 1;
            if !self.sessions.contains(id.as_str()) {
                let out = id.clone();
                self.sessions.insert(id, session);
                assert(out@ == session_id_spec(millis as nat, c as nat));
                return Ok(out);
            }
        }
    }

    /// The session registered under `session_id`.
    pub fn session(&self, session_id: &str) -> (r: Result<&S, AcpError>)
        requires
            self.wf(),
        ensures
            match r {
                Ok(s) => self@.contains_key(session_id@) && *s == self@[session_id@],
                Err(e) => e == AcpError::SessionNotFound && !self@.contains_key(session_id@),
            },
    {
        match self.sessions.get(session_id) {
            Some(s) => Ok(s),
            None => Err(AcpError::SessionNotFound),
        }
    }

    /// Whether a session runs under `session_id`.
    pub fn has_session(&self, session_id: &str) -> (r: bool)
        requires
            self.wf(),
        ensures
            r == self@.contains_key(session_id@),
    {
        self.sessions.contains(session_id)
    }

    /// Removes the session so that the caller can kill it; an unknown id
    /// changes nothing and is no error.
    pub fn stop_session(&mut self, session_id: &str) -> (r: Option<S>)
        requires
            old(self).wf(),
        ensures
            final(self).wf(),
            final(self).next_counter() == old(self).next_counter(),
            final(self)@ == old(self)@.remove(session_id@),
            r == (if old(self)@.contains_key(session_id@) {
                Some(old(self)@[session_id@])
            } else {
                None::<S>
            }),
    {
        self.sessions.remove(session_id)
    }

    /// Lends the session out for one exchange; it is to be handed back with
    /// `restore_session`, whether the exchange succeeded or not.
    pub fn take_session(&mut self, session_id: &str) -> (r: Result<S, AcpError>)
        requires
            old(self).wf(),
        ensures
            final(self).wf(),
            final(self).next_counter() == old(self).next_counter(),
            final(self)@ == old(self)@.remove(session_id@),
            match r {
                Ok(s) => old(self)@.contains_key(session_id@) && s == old(self)@[session_id@],
                Err(e) => e == AcpError::SessionNotFound && !old(self)@.contains_key(session_id@),
            },
    {
        match self.sessions.remove(session_id) {
            Some(s) => Ok(s),
            None => Err(AcpError::SessionNotFound),
        }
    }

    /// Puts a lent session back under its id.
    pub fn restore_session(&mut self, session_id: String, session: S)
        requires
            old(self).wf(),
            !old(self)@.contains_key(session_id@),
        ensures
            final(self).wf(),
            final(self).next_counter() == old(self).next_counter(),
            final(self)@ == old(self)@.insert(session_id@, session),
    {
        self.sessions.insert(session_id, session);
    }
}

} // verus!
