//! The forwarding engine's decision logic.
//!
//! The engine's transport work (listening, connecting, reading and writing
//! sockets) happens outside this crate; what stands here is everything the
//! engine decides: how a message read is framed and bounded, and how an
//! endpoint is chosen, evicted after a failed connection, and how service
//! stops once every endpoint is gone.

use crate::policy::{swap_removed, Policy};
use vstd::prelude::*;

verus! {

/// The largest message the relay will accumulate before failing the read.
pub const MAX_REQUEST_SIZE: usize = 1024 * 1000;

/// The buffer capacity a message read starts from.
pub const INITIAL_CAPACITY: usize = 1024;

/// The fixed response written to a client when every endpoint has been
/// proven unreachable, just before the balancer stops serving.
pub const HTTP_SERVICE_UNAVAILABLE: &'static str =
  "HTTP/1.1 503 Service Unavailable Content-Type: text/plain

  503 Service Unavailable
  The server is temporarily unable to service your request due to maintenance downtime or capacity problems. Please try again later.\r\n";

/// True when the message's last two bytes are a carriage-return/line-feed
/// pair: the framing heuristic's completion test.
pub open spec fn ends_with_crlf(s: Seq<u8>) -> bool {
    s.len() >= 2 && s[s.len() - 2] == 13 && s[s.len() - 1] == 10
}

/// The capacity the doubling rule settles on for `used` accumulated bytes,
/// or `None` when a required doubling would reach `MAX_REQUEST_SIZE`.
pub open spec fn grown_capacity(cap: int, used: int) -> Option<int>
    decreases (if 0 < cap && cap <= used {
        used - cap + 1
    } else {
        0
    }),
{
    if cap <= 0 {
        Some(cap)
    } else if used < cap {
        Some(cap)
    } else if 2 * cap >= MAX_REQUEST_SIZE as int {
        None
    } else {
        grown_capacity(2 * cap, used)
    }
}

/// The outcome of feeding one transport read to a `Framer`.
#[derive(Clone, Copy, PartialEq, Eq, Structural, Debug)]
pub enum FrameStatus {
    /// The accumulated message now ends with CRLF; reading stops here.
    Complete,
    /// The message is not complete yet; read again.
    NeedMore,
    /// The read returned no bytes before the message completed.
    PrematureEof,
    /// Growing the buffer again would reach the maximum message size.
    Oversize,
}

/// Accumulates one message according to the framing rule: reads are
/// appended until one leaves a CRLF pair at the tail, the buffer's capacity
/// doubles whenever the accumulated length reaches it, and the read fails
/// once a doubling would reach `MAX_REQUEST_SIZE`.
pub struct Framer {
    buf: Vec<u8>,
    cap: usize,
}

impl Framer {
    /// All bytes accumulated so far.
    pub closed spec fn bytes(&self) -> Seq<u8> {
        self.buf@
    }

    /// The capacity the doubling rule has granted so far.
    pub closed spec fn capacity(&self) -> int {
        self.cap as int
    }

    pub open spec fn wf(&self) -> bool {
        INITIAL_CAPACITY <= self.capacity() < MAX_REQUEST_SIZE
    }

    /// An empty message with the initial capacity.
    pub fn new() -> (r: Self)
        ensures
            r.wf(),
            r.bytes() == Seq::<u8>::empty(),
            r.capacity() == INITIAL_CAPACITY,
    {
        Framer { buf: Vec::new(), cap: INITIAL_CAPACITY }
    }

    /// Hands the accumulated message over.
    pub fn into_bytes(self) -> (r: Vec<u8>)
        ensures
            r@ == self.bytes(),
    {
        self.buf
    }

    /// Applies one transport read of `chunk` to the message: an empty read
    /// is a premature end of stream; otherwise the bytes are appended, a
    /// CRLF tail completes the message, and the capacity rule decides
    /// between reading on and failing as oversize.
    #[verifier::loop_isolation(false)]
    pub fn push_chunk(&mut self, chunk: &[u8]) -> (r: FrameStatus)
        requires
            old(self).wf(),
        ensures
            final(self).wf(),
            chunk@.len() == 0 ==> r is PrematureEof && final(self).bytes() == old(self).bytes()
                && final(self).capacity() == old(self).capacity(),
            chunk@.len() > 0 ==> final(self).bytes() == old(self).bytes() + chunk@,
            chunk@.len() > 0 && ends_with_crlf(old(self).bytes() + chunk@) ==> r is Complete
                && final(self).capacity() == old(self).capacity(),
            chunk@.len() > 0 && !ends_with_crlf(old(self).bytes() + chunk@) ==> match grown_capacity(
                old(self).capacity(),
                old(self).bytes().len() + chunk@.len() as int,
            ) {
                Some(c) => r is NeedMore && final(self).capacity() == c,
                None => r is Oversize,
            },
    {
        if chunk.len() == 0 {
            return FrameStatus::PrematureEof;
        }
        let ghost target = old(self).bytes() + chunk@;
        let mut k: usize = 0;
        while k < chunk.len()
            invariant
                k <= chunk.len(),
                self.buf@ == old(self).buf@ + chunk@.take(k as int),
                self.cap == old(self).cap,
            decreases chunk.len() - k,
        {
            self.buf.push(chunk[k]);
            proof {
                assert(old(self).buf@ + chunk@.take(k as int) + seq![chunk@[k as int]]
                    =~= old(self).buf@ + chunk@.take(k + 1));
            }
            k = k + 1;
        }
        proof {
            assert(chunk@.take(chunk@.len() as int) =~= chunk@);
        }
        let n = self.buf.len();
        if n >= 2 && self.buf[n - 2] == 13 && self.buf[n - 1] == 10 {
            return FrameStatus::Complete;
        }
        let ghost used = self.buf@.len() as int;
        let ghost cap0 = self.cap as int;
        while self.buf.len() >= self.cap
            invariant
                self.buf@ == target,
                used == self.buf@.len() as int,
                INITIAL_CAPACITY <= self.cap < MAX_REQUEST_SIZE,
                grown_capacity(cap0, used) == grown_capacity(self.cap as int, used),
            decreases (if self.cap as int <= used {
                used + 1 - self.cap as int
            } else {
                0
            }),
        {
            if self.cap * 2 >= MAX_REQUEST_SIZE {
                assert(grown_capacity(cap0, used) is None);
                return FrameStatus::Oversize;
            }
            self.cap = self.cap * 2;
        }
        assert(grown_capacity(cap0, used) == Some(self.cap as int));
        FrameStatus::NeedMore
    }
}

/// Over-size law: the capacity rule fails a read only once the
/// accumulated length has grown to at least half the maximum message
/// size, so every message that completes before `MAX_REQUEST_SIZE / 2`
/// bytes is never rejected as oversize.
pub proof fn lemma_oversize_bound(cap: int, used: int)
    requires
        0 < cap,
    ensures
        grown_capacity(cap, used) is None ==> 2 * used >= MAX_REQUEST_SIZE,
    decreases (if cap <= used {
        used - cap + 1
    } else {
        0
    }),
{
    if used < cap {
    } else if 2 * cap >= MAX_REQUEST_SIZE as int {
        assert(2 * used >= 2 * cap);
    } else {
        lemma_oversize_bound(2 * cap, used);
    }
}

/// Where a relay stands in its single request/response exchange.
#[derive(Clone, Copy, PartialEq, Eq, Structural, Debug)]
pub enum RelayPhase {
    /// Reading the client's request.
    ReadingRequest,
    /// The request has been handed over; reading the backend's response.
    ReadingResponse,
    /// The response has been handed back; the exchange is over.
    Done,
    /// A read failed; the exchange is abandoned.
    Failed,
}

/// What the relay task must do next while the request is being read.
pub enum ClientCmd {
    /// Read more bytes from the client.
    ReadClient,
    /// Write exactly these bytes to the backend, then read its response.
    ForwardRequest(Vec<u8>),
    /// Abandon the exchange; the request read failed in this way.
    Abort(FrameStatus),
}

/// What the relay task must do next while the response is being read.
pub enum BackendCmd {
    /// Read more bytes from the backend.
    ReadBackend,
    /// Write exactly these bytes back to the client; the exchange is over.
    ReturnResponse(Vec<u8>),
    /// Abandon the exchange; the response read failed in this way.
    Abort(FrameStatus),
}

/// One request/response exchange: the client's request is framed and then
/// forwarded verbatim to the backend, the backend's response is framed and
/// then returned verbatim to the client. Each message starts from a fresh
/// buffer.
pub struct Relay {
    phase: RelayPhase,
    framer: Framer,
    request: Ghost<Seq<u8>>,
}

impl Relay {
    /// The exchange's current phase.
    pub closed spec fn phase(&self) -> RelayPhase {
        self.phase
    }

    /// The bytes of the message currently being read.
    pub closed spec fn buffered(&self) -> Seq<u8> {
        self.framer.bytes()
    }

    /// The capacity the doubling rule has granted to the current message.
    pub closed spec fn granted_capacity(&self) -> int {
        self.framer.capacity()
    }

    /// The request that was forwarded to the backend; meaningful once the
    /// request read completed.
    pub closed spec fn request(&self) -> Seq<u8> {
        self.request@
    }

    pub closed spec fn wf(&self) -> bool {
        self.framer.wf()
    }

    /// A fresh exchange, ready to read the client's request.
    pub fn new() -> (r: Self)
        ensures
            r.wf(),
            r.phase() is ReadingRequest,
            r.buffered() == Seq::<u8>::empty(),
    {
        Relay { phase: RelayPhase::ReadingRequest, framer: Framer::new(), request: Ghost(Seq::empty()) }
    }

    /// Applies one read from the client: when the request completes it is
    /// handed over whole — exactly the bytes read, nothing else — and the
    /// relay turns to the backend's response.
    pub fn on_client_chunk(&mut self, chunk: &[u8]) -> (r: ClientCmd)
        requires
            old(self).wf(),
            old(self).phase() is ReadingRequest,
        ensures
            final(self).wf(),
            chunk@.len() == 0 ==> (r matches ClientCmd::Abort(s) && s is PrematureEof)
                && final(self).phase() is Failed,
            chunk@.len() > 0 && ends_with_crlf(old(self).buffered() + chunk@) ==> {
                &&& (r matches ClientCmd::ForwardRequest(b) && b@ == old(self).buffered() + chunk@)
                &&& final(self).phase() is ReadingResponse
                &&& final(self).request() == old(self).buffered() + chunk@
                &&& final(self).buffered() == Seq::<u8>::empty()
            },
            chunk@.len() > 0 && !ends_with_crlf(old(self).buffered() + chunk@) ==> match grown_capacity(
                old(self).granted_capacity(),
                old(self).buffered().len() + chunk@.len() as int,
            ) {
                Some(_) => {
                    &&& r is ReadClient
                    &&& final(self).phase() is ReadingRequest
                    &&& final(self).buffered() == old(self).buffered() + chunk@
                },
                None => (r matches ClientCmd::Abort(s) && s is Oversize)
                    && final(self).phase() is Failed,
            },
    {
        match self.framer.push_chunk(chunk) {
            FrameStatus::Complete => {
                let mut fresh = Framer::new();
                core::mem::swap(&mut self.framer, &mut fresh);
                let bytes = fresh.into_bytes();
                self.request = Ghost(bytes@);
                self.phase = RelayPhase::ReadingResponse;
                ClientCmd::ForwardRequest(bytes)
            },
            FrameStatus::NeedMore => ClientCmd::ReadClient,
            FrameStatus::PrematureEof => {
                self.phase = RelayPhase::Failed;
                ClientCmd::Abort(FrameStatus::PrematureEof)
            },
            FrameStatus::Oversize => {
                self.phase = RelayPhase::Failed;
                ClientCmd::Abort(FrameStatus::Oversize)
            },
        }
    }

    /// Applies one read from the backend: when the response completes it is
    /// handed back whole — exactly the bytes read, nothing else — and the
    /// exchange is over. The forwarded request is left on record untouched.
    pub fn on_backend_chunk(&mut self, chunk: &[u8]) -> (r: BackendCmd)
        requires
            old(self).wf(),
            old(self).phase() is ReadingResponse,
        ensures
            final(self).wf(),
            final(self).request() == old(self).request(),
            chunk@.len() == 0 ==> (r matches BackendCmd::Abort(s) && s is PrematureEof)
                && final(self).phase() is Failed,
            chunk@.len() > 0 && ends_with_crlf(old(self).buffered() + chunk@) ==> {
                &&& (r matches BackendCmd::ReturnResponse(b) && b@ == old(self).buffered() + chunk@)
                &&& final(self).phase() is Done
            },
            chunk@.len() > 0 && !ends_with_crlf(old(self).buffered() + chunk@) ==> match grown_capacity(
                old(self).granted_capacity(),
                old(self).buffered().len() + chunk@.len() as int,
            ) {
                Some(_) => {
                    &&& r is ReadBackend
                    &&& final(self).phase() is ReadingResponse
                    &&& final(self).buffered() == old(self).buffered() + chunk@
                },
                None => (r matches BackendCmd::Abort(s) && s is Oversize)
                    && final(self).phase() is Failed,
            },
    {
        match self.framer.push_chunk(chunk) {
            FrameStatus::Complete => {
                let mut fresh = Framer::new();
                core::mem::swap(&mut self.framer, &mut fresh);
                let bytes = fresh.into_bytes();
                self.phase = RelayPhase::Done;
                BackendCmd::ReturnResponse(bytes)
            },
            FrameStatus::NeedMore => BackendCmd::ReadBackend,
            FrameStatus::PrematureEof => {
                self.phase = RelayPhase::Failed;
                BackendCmd::Abort(FrameStatus::PrematureEof)
            },
            FrameStatus::Oversize => {
                self.phase = RelayPhase::Failed;
                BackendCmd::Abort(FrameStatus::Oversize)
            },
        }
    }
}

/// What the accept loop must do next for the client at hand.
pub enum EngineAction {
    /// Attempt a transport connection to this endpoint.
    Connect(String),
    /// Write `HTTP_SERVICE_UNAVAILABLE` to the client, close it, and stop
    /// serving altogether.
    SendUnavailableAndStop,
}

/// The serving state the accept loop owns: the selection policy, and
/// whether service has stopped after exhaustion. Selection, eviction and
/// the decision to stop all happen here; the loop around it only moves
/// bytes.
pub struct Engine<P: Policy> {
    policy: P,
    stopped: bool,
}

impl<P: Policy> Engine<P> {
    /// The endpoints still selectable.
    pub closed spec fn endpoints(&self) -> Seq<Seq<char>> {
        self.policy.endpoints()
    }

    /// True once exhaustion has been answered with the fixed response; a
    /// stopped engine accepts no further client.
    pub closed spec fn stopped(&self) -> bool {
        self.stopped
    }

    pub closed spec fn wf(&self) -> bool {
        self.policy.wf()
    }

    pub fn new(policy: P) -> (r: Self)
        requires
            policy.wf(),
        ensures
            r.wf(),
            !r.stopped(),
            r.endpoints() == policy.endpoints(),
    {
        Engine { policy, stopped: false }
    }

    /// Decides what to do with a newly accepted client: an endpoint to try,
    /// or — exactly when no endpoint remains — the unavailability response,
    /// after which the engine is stopped for good.
    pub fn on_accept(&mut self, client_addr: &str) -> (r: EngineAction)
        requires
            old(self).wf(),
            !old(self).stopped(),
        ensures
            final(self).wf(),
            final(self).endpoints() == old(self).endpoints(),
            final(self).stopped() <==> r is SendUnavailableAndStop,
            r is SendUnavailableAndStop <==> old(self).endpoints().len() == 0,
            (r matches EngineAction::Connect(e) ==> old(self).endpoints().contains(e@)),
    {
        match self.policy.select(client_addr) {
            Some(endpoint) => EngineAction::Connect(endpoint),
            None => {
                self.stopped = true;
                EngineAction::SendUnavailableAndStop
            },
        }
    }

    /// Evicts an endpoint whose connection attempt failed and selects
    /// afresh for the same client; exhaustion is answered exactly when the
    /// eviction emptied the set.
    pub fn on_connect_failed(&mut self, client_addr: &str, endpoint: &str) -> (r: EngineAction)
        requires
            old(self).wf(),
            !old(self).stopped(),
        ensures
            final(self).wf(),
            old(self).endpoints().contains(endpoint@) ==> final(self).endpoints() == swap_removed(
                old(self).endpoints(),
                endpoint@,
            ),
            !old(self).endpoints().contains(endpoint@) ==> final(self).endpoints() == old(
                self,
            ).endpoints(),
            final(self).stopped() <==> r is SendUnavailableAndStop,
            r is SendUnavailableAndStop <==> final(self).endpoints().len() == 0,
            (r matches EngineAction::Connect(e) ==> final(self).endpoints().contains(e@)),
    {
        self.policy.remove(endpoint);
        self.on_accept(client_addr)
    }
}

} // verus!
