//! Per-transfer session state machine: lock-step block transfer with
//! retransmission on timeout, duplicate discarding, and terminal
//! completion or failure.
//!
//! The machine is pure: it consumes events (an incoming packet, or the
//! retransmission deadline elapsing) and yields the action the
//! surrounding loop must perform.  The loop owns the socket and the
//! timer; the machine owns every decision.
use vstd::prelude::*;

use crate::decode::AccessType;
use crate::decode::Packet;
use crate::decode::PacketV;

verus! {

/// The full size of a block; a shorter block is the final one of a
/// transfer.
pub const BLOCK_SIZE: usize = 512;

/// How many retransmissions a session attempts before giving up.
pub const MAX_RETRIES: u32 = 5;

/// A session-local transfer identifier, used only for diagnostics;
/// the protocol identifies a session by its socket address.
#[derive(Clone, Copy, Debug, PartialEq, Eq, Structural)]
pub struct Tid(pub u16);

/// Relies on `rand::random`: a fresh pseudo-random value; nothing is
/// promised of it.
#[verifier::external_body]
fn random_u16() -> u16 {
    rand::random()
}

impl Tid {
    pub fn new(val: u16) -> (r: Tid)
        ensures
            r.0 == val,
    {
        Tid(val)
    }

    /// A transfer identifier drawn from the process-wide random
    /// source.
    pub fn random() -> Tid {
        Tid(random_u16())
    }
}

/// Why a session ended without completing.
#[derive(Clone, Debug, PartialEq)]
pub enum SessionError {
    /// The retry budget was exhausted without the expected reply.
    Timeout,
    /// The peer reported an application error.
    PeerError { code: u16, message: String },
}

/// Ghost image of a `SessionError`.
#[verifier::ext_equal]
pub enum SessionErrorV {
    Timeout,
    PeerError { code: u16, message: Seq<char> },
}

impl View for SessionError {
    type V = SessionErrorV;

    open spec fn view(&self) -> SessionErrorV {
        match self {
            SessionError::Timeout => SessionErrorV::Timeout,
            SessionError::PeerError { code, message } => SessionErrorV::PeerError {
                code: *code,
                message: message@,
            },
        }
    }
}

/// Where a session stands in its transfer.
#[derive(Clone, Debug, PartialEq)]
pub enum SessionState {
    /// Write direction, after the request: the acknowledgement that
    /// accepts the request has not gone out yet.
    AwaitingFirstAck,
    /// Read direction: this block must be sent next.
    SendingBlock(u16),
    /// Read direction: this block was sent and its ack is awaited.
    AwaitingAck(u16),
    /// Write direction: this block has arrived and been written, and
    /// its ack must go out.
    ReceivingBlock(u16),
    /// Write direction: this block is awaited from the peer.
    AwaitingData(u16),
    /// The transfer finished; terminal.
    Complete,
    /// The transfer ended without completing; terminal.
    Failed(SessionError),
}

/// Ghost image of a `SessionState`.
#[verifier::ext_equal]
pub enum SessionStateV {
    AwaitingFirstAck,
    SendingBlock(u16),
    AwaitingAck(u16),
    ReceivingBlock(u16),
    AwaitingData(u16),
    Complete,
    Failed(SessionErrorV),
}

impl View for SessionState {
    type V = SessionStateV;

    open spec fn view(&self) -> SessionStateV {
        match self {
            SessionState::AwaitingFirstAck => SessionStateV::AwaitingFirstAck,
            SessionState::SendingBlock(n) => SessionStateV::SendingBlock(*n),
            SessionState::AwaitingAck(n) => SessionStateV::AwaitingAck(*n),
            SessionState::ReceivingBlock(n) => SessionStateV::ReceivingBlock(*n),
            SessionState::AwaitingData(n) => SessionStateV::AwaitingData(*n),
            SessionState::Complete => SessionStateV::Complete,
            SessionState::Failed(e) => SessionStateV::Failed(e@),
        }
    }
}

/// What drives a session step.
#[derive(Clone, Debug, PartialEq)]
pub enum Event {
    /// A datagram arrived on the session's socket and parsed to this
    /// packet.
    Incoming(Packet),
    /// The retransmission deadline elapsed with no reply.
    Timeout,
}

/// Ghost image of an `Event`.
#[verifier::ext_equal]
pub enum EventV {
    Incoming(PacketV),
    Timeout,
}

impl View for Event {
    type V = EventV;

    open spec fn view(&self) -> EventV {
        match self {
            Event::Incoming(p) => EventV::Incoming(p@),
            Event::Timeout => EventV::Timeout,
        }
    }
}

/// What a step asks the surrounding loop to do.
#[derive(Clone, Debug, PartialEq)]
pub enum Action {
    /// Nothing: the event was absorbed or discarded.
    Idle,
    /// Send this packet to the peer.
    Send(Packet),
}

/// Ghost image of an `Action`.
#[verifier::ext_equal]
pub enum ActionV {
    Idle,
    Send(PacketV),
}

impl View for Action {
    type V = ActionV;

    open spec fn view(&self) -> ActionV {
        match self {
            Action::Idle => ActionV::Idle,
            Action::Send(p) => ActionV::Send(p@),
        }
    }
}

/// Ghost image of a `Session`.
#[verifier::ext_equal]
pub struct SessionV {
    pub tid: u16,
    pub direction: AccessType,
    pub state: SessionStateV,
    /// The file content a read-direction session serves.
    pub data: Seq<u8>,
    /// The bytes a write-direction session has collected.
    pub received: Seq<u8>,
    /// How many leading bytes of `data` are acknowledged, or of
    /// `received` are acknowledged to the peer.
    pub offset: int,
    pub retries: u32,
}

/// True of states in which the session is finished for good.
pub open spec fn is_terminal(st: SessionStateV) -> bool {
    st is Complete || st is Failed
}

/// The block counter wraps modulo 65536.
pub open spec fn next_block(n: u16) -> u16 {
    if n == 65535 {
        0
    } else {
        (n + 1) as u16
    }
}

/// The previous value of the wrapping block counter.
pub open spec fn prev_block(n: u16) -> u16 {
    if n == 0 {
        65535
    } else {
        (n - 1) as u16
    }
}

/// How many bytes the block now being served holds: a full block, or
/// whatever is left at the end of the file.
pub open spec fn chunk_len(s: SessionV) -> int {
    if s.data.len() - s.offset < BLOCK_SIZE as int {
        s.data.len() - s.offset
    } else {
        BLOCK_SIZE as int
    }
}

/// The bytes of the block now being served.
pub open spec fn chunk_of(s: SessionV) -> Seq<u8> {
    s.data.subrange(s.offset, s.offset + chunk_len(s))
}

/// Internal consistency of a session: each state belongs to one
/// direction, and the settled offset never passes the end of the data.
pub open spec fn session_wf(s: SessionV) -> bool {
    match s.state {
        SessionStateV::AwaitingFirstAck => s.direction == AccessType::Write && s.offset
            == s.received.len(),
        SessionStateV::SendingBlock(n) => s.direction == AccessType::Read && 0 <= s.offset
            <= s.data.len(),
        SessionStateV::AwaitingAck(n) => s.direction == AccessType::Read && 0 <= s.offset
            <= s.data.len(),
        SessionStateV::ReceivingBlock(n) => s.direction == AccessType::Write && 0 <= s.offset
            <= s.received.len(),
        SessionStateV::AwaitingData(n) => s.direction == AccessType::Write && s.offset
            == s.received.len(),
        SessionStateV::Complete => true,
        SessionStateV::Failed(e) => true,
    }
}

/// The transition a matching acknowledgement causes: the block's bytes
/// are settled, a short block completes the transfer, anything else
/// moves to the next block.  A mismatched number is discarded.
pub open spec fn step_ack(s: SessionV, n: u16) -> (SessionV, ActionV) {
    match s.state {
        SessionStateV::AwaitingAck(m) => if n == m {
            let s2 = SessionV { offset: s.offset + chunk_len(s), retries: 0, ..s };
            if chunk_len(s) < BLOCK_SIZE as int {
                (SessionV { state: SessionStateV::Complete, ..s2 }, ActionV::Idle)
            } else {
                (
                    SessionV { state: SessionStateV::SendingBlock(next_block(m)), ..s2 },
                    ActionV::Idle,
                )
            }
        } else {
            (s, ActionV::Idle)
        },
        _ => (s, ActionV::Idle),
    }
}

/// The transition a matching data block causes: its payload is
/// written, and its acknowledgement becomes due.  A mismatched number
/// is discarded.
pub open spec fn step_data(s: SessionV, n: u16, payload: Seq<u8>) -> (SessionV, ActionV) {
    match s.state {
        SessionStateV::AwaitingData(m) => if n == m {
            (
                SessionV {
                    state: SessionStateV::ReceivingBlock(m),
                    received: s.received + payload,
                    retries: 0,
                    ..s
                },
                ActionV::Idle,
            )
        } else {
            (s, ActionV::Idle)
        },
        _ => (s, ActionV::Idle),
    }
}

/// The transition an elapsed deadline causes: within the retry budget
/// the last-sent packet goes out again; beyond it the session fails
/// with a timeout and sends nothing further.
pub open spec fn step_timeout(s: SessionV) -> (SessionV, ActionV) {
    match s.state {
        SessionStateV::AwaitingAck(m) => if s.retries < MAX_RETRIES {
            (
                SessionV { retries: (s.retries + 1) as u32, ..s },
                ActionV::Send(PacketV::Data { block_num: m, payload: chunk_of(s) }),
            )
        } else {
            (
                SessionV { state: SessionStateV::Failed(SessionErrorV::Timeout), ..s },
                ActionV::Idle,
            )
        },
        SessionStateV::AwaitingData(m) => if s.retries < MAX_RETRIES {
            (
                SessionV { retries: (s.retries + 1) as u32, ..s },
                ActionV::Send(PacketV::Ack { block_num: prev_block(m) }),
            )
        } else {
            (
                SessionV { state: SessionStateV::Failed(SessionErrorV::Timeout), ..s },
                ActionV::Idle,
            )
        },
        _ => (s, ActionV::Idle),
    }
}

/// The whole transition relation for one event.  Terminal states
/// absorb everything silently; a peer error packet fails the session
/// from any live state; a request packet mid-session is discarded.
pub open spec fn step_spec(s: SessionV, ev: EventV) -> (SessionV, ActionV) {
    if is_terminal(s.state) {
        (s, ActionV::Idle)
    } else {
        match ev {
            EventV::Incoming(p) => match p {
                PacketV::ErrorPacket { code, message } => (
                    SessionV {
                        state: SessionStateV::Failed(SessionErrorV::PeerError { code, message }),
                        ..s
                    },
                    ActionV::Idle,
                ),
                PacketV::Ack { block_num } => step_ack(s, block_num),
                PacketV::Data { block_num, payload } => step_data(s, block_num, payload),
                _ => (s, ActionV::Idle),
            },
            EventV::Timeout => step_timeout(s),
        }
    }
}

/// The transition that drives a pending send: a due block goes out and
/// its ack is then awaited; the accepting ack of a write session goes
/// out and the first block is then awaited; the ack of a received
/// block goes out, completing the transfer when the block was short.
pub open spec fn transmit_spec(s: SessionV) -> (SessionV, ActionV) {
    match s.state {
        SessionStateV::SendingBlock(n) => (
            SessionV { state: SessionStateV::AwaitingAck(n), ..s },
            ActionV::Send(PacketV::Data { block_num: n, payload: chunk_of(s) }),
        ),
        SessionStateV::AwaitingFirstAck => (
            SessionV { state: SessionStateV::AwaitingData(1), ..s },
            ActionV::Send(PacketV::Ack { block_num: 0 }),
        ),
        SessionStateV::ReceivingBlock(n) => {
            let s2 = SessionV { offset: s.received.len() as int, ..s };
            if s.received.len() - s.offset < BLOCK_SIZE as int {
                (
                    SessionV { state: SessionStateV::Complete, ..s2 },
                    ActionV::Send(PacketV::Ack { block_num: n }),
                )
            } else {
                (
                    SessionV { state: SessionStateV::AwaitingData(next_block(n)), ..s2 },
                    ActionV::Send(PacketV::Ack { block_num: n }),
                )
            }
        },
        _ => (s, ActionV::Idle),
    }
}

/// The state a session reaches after consuming a sequence of events
/// in order.
pub open spec fn run_spec(s: SessionV, evs: Seq<EventV>) -> SessionV
    decreases evs.len(),
{
    if evs.len() == 0 {
        s
    } else {
        run_spec(step_spec(s, evs[0]).0, evs.drop_first())
    }
}

/// Terminal states absorb every event and every transmit attempt:
/// nothing changes and nothing is sent.
pub proof fn lemma_terminal_silent(s: SessionV, ev: EventV)
    requires
        is_terminal(s.state),
    ensures
        step_spec(s, ev) == (s, ActionV::Idle),
        transmit_spec(s) == (s, ActionV::Idle),
{
}

/// A terminal session stays where it is through any run of events.
pub proof fn lemma_terminal_run(s: SessionV, evs: Seq<EventV>)
    requires
        is_terminal(s.state),
    ensures
        run_spec(s, evs) == s,
    decreases evs.len(),
{
    if evs.len() > 0 {
        lemma_terminal_silent(s, evs[0]);
        lemma_terminal_run(s, evs.drop_first());
    }
}

/// A session awaiting a reply that sees only elapsed deadlines, more
/// of them than its remaining retry budget, fails with a timeout; and
/// every transition past that point sends nothing further.
pub proof fn lemma_retry_exhaustion(s: SessionV, evs: Seq<EventV>)
    requires
        s.state is AwaitingAck || s.state is AwaitingData,
        s.retries <= MAX_RETRIES,
        forall|i: int| 0 <= i < evs.len() ==> evs[i] == EventV::Timeout,
        evs.len() > MAX_RETRIES - s.retries,
    ensures
        run_spec(s, evs).state == SessionStateV::Failed(SessionErrorV::Timeout),
    decreases evs.len(),
{
    let s2 = step_spec(s, evs[0]).0;
    if s.retries < MAX_RETRIES {
        assert(s2.retries == s.retries + 1 && s2.state == s.state);
        lemma_retry_exhaustion(s2, evs.drop_first());
    } else {
        assert(s2.state == SessionStateV::Failed(SessionErrorV::Timeout));
        lemma_terminal_run(s2, evs.drop_first());
    }
}

/// One transfer in progress: the machine's state together with the
/// data it serves or collects.
pub struct Session {
    tid: Tid,
    direction: AccessType,
    state: SessionState,
    data: Vec<u8>,
    received: Vec<u8>,
    offset: usize,
    retries: u32,
}

impl View for Session {
    type V = SessionV;

    closed spec fn view(&self) -> SessionV {
        SessionV {
            tid: self.tid.0,
            direction: self.direction,
            state: self.state@,
            data: self.data@,
            received: self.received@,
            offset: self.offset as int,
            retries: self.retries,
        }
    }
}

impl Session {
    /// A read-direction session serving the given file content: the
    /// first block is due to be sent.
    pub fn new_read(tid: Tid, data: Vec<u8>) -> (s: Session)
        ensures
            s@ == (SessionV {
                tid: tid.0,
                direction: AccessType::Read,
                state: SessionStateV::SendingBlock(1),
                data: data@,
                received: Seq::empty(),
                offset: 0,
                retries: 0,
            }),
            session_wf(s@),
    {
        Session {
            tid,
            direction: AccessType::Read,
            state: SessionState::SendingBlock(1),
            data,
            received: Vec::new(),
            offset: 0,
            retries: 0,
        }
    }

    /// A write-direction session, just after its request was accepted:
    /// the accepting acknowledgement is due to be sent.
    pub fn new_write(tid: Tid) -> (s: Session)
        ensures
            s@ == (SessionV {
                tid: tid.0,
                direction: AccessType::Write,
                state: SessionStateV::AwaitingFirstAck,
                data: Seq::empty(),
                received: Seq::empty(),
                offset: 0,
                retries: 0,
            }),
            session_wf(s@),
    {
        Session {
            tid,
            direction: AccessType::Write,
            state: SessionState::AwaitingFirstAck,
            data: Vec::new(),
            received: Vec::new(),
            offset: 0,
            retries: 0,
        }
    }

    /// The transfer identifier, for diagnostics.
    pub fn tid(&self) -> (r: Tid)
        ensures
            r.0 == self@.tid,
    {
        self.tid
    }

    /// Which direction the transfer runs in.
    pub fn direction(&self) -> (r: AccessType)
        ensures
            r == self@.direction,
    {
        self.direction
    }

    /// Where the session stands.
    pub fn state(&self) -> (r: &SessionState)
        ensures
            r@ == self@.state,
    {
        &self.state
    }

    /// The bytes a write-direction session has collected so far.
    pub fn received(&self) -> (r: &Vec<u8>)
        ensures
            r@ == self@.received,
    {
        &self.received
    }

    /// Checks the internal consistency that stepping relies on; true
    /// of every session built and driven through this interface.
    pub fn well_formed(&self) -> (b: bool)
        ensures
            b == session_wf(self@),
    {
        match &self.state {
            SessionState::AwaitingFirstAck => matches!(self.direction, AccessType::Write)
                && self.offset == self.received.len(),
            SessionState::SendingBlock(n) => matches!(self.direction, AccessType::Read)
                && self.offset <= self.data.len(),
            SessionState::AwaitingAck(n) => matches!(self.direction, AccessType::Read)
                && self.offset <= self.data.len(),
            SessionState::ReceivingBlock(n) => matches!(self.direction, AccessType::Write)
                && self.offset <= self.received.len(),
            SessionState::AwaitingData(n) => matches!(self.direction, AccessType::Write)
                && self.offset == self.received.len(),
            SessionState::Complete => true,
            SessionState::Failed(e) => true,
        }
    }

    /// The bytes of the block now being served.
    fn current_chunk(&self) -> (r: Vec<u8>)
        requires
            0 <= self@.offset <= self@.data.len(),
        ensures
            r@ == chunk_of(self@),
    {
        let remaining = self.data.len() - self.offset;
        let clen = if remaining < BLOCK_SIZE {
            remaining
        } else {
            BLOCK_SIZE
        };
        crate::decode::bytes_range(self.data.as_slice(), self.offset, self.offset + clen)
    }

    /// Feeds one event to the machine and yields the action it asks
    /// for, exactly as the transition relation prescribes.
    pub fn step(&mut self, ev: Event) -> (a: Action)
        requires
            session_wf(old(self)@),
        ensures
            session_wf(final(self)@),
            final(self)@ == step_spec(old(self)@, ev@).0,
            a@ == step_spec(old(self)@, ev@).1,
    {
        let terminal = matches!(self.state, SessionState::Complete | SessionState::Failed(_));
        if terminal {
            return Action::Idle;
        }
        match ev {
            Event::Timeout => {
                match &self.state {
                    SessionState::AwaitingAck(m) => {
                        let m = *m;
                        if self.retries < MAX_RETRIES {
                            self.retries = self.retries + 1;
                            let payload = self.current_chunk();
                            Action::Send(Packet::Data { block_num: m, payload })
                        } else {
                            self.state = SessionState::Failed(SessionError::Timeout);
                            Action::Idle
                        }
                    },
                    SessionState::AwaitingData(m) => {
                        let m = *m;
                        if self.retries < MAX_RETRIES {
                            self.retries = self.retries + 1;
                            let prev = if m == 0 {
                                65535
                            } else {
                                m - 1
                            };
                            Action::Send(Packet::Ack { block_num: prev })
                        } else {
                            self.state = SessionState::Failed(SessionError::Timeout);
                            Action::Idle
                        }
                    },
                    _ => Action::Idle,
                }
            },
            Event::Incoming(p) => match p {
                Packet::ErrorPacket { code, message } => {
                    self.state = SessionState::Failed(SessionError::PeerError { code, message });
                    Action::Idle
                },
                Packet::Ack { block_num } => {
                    match &self.state {
                        SessionState::AwaitingAck(m) => {
                            let m = *m;
                            if block_num == m {
                                let remaining = self.data.len() - self.offset;
                                let clen = if remaining < BLOCK_SIZE {
                                    remaining
                                } else {
                                    BLOCK_SIZE
                                };
                                self.offset = self.offset + clen;
                                self.retries = 0;
                                if clen < BLOCK_SIZE {
                                    self.state = SessionState::Complete;
                                } else {
                                    let nxt = if m == 65535 {
                                        0
                                    } else {
                                        m + 1
                                    };
                                    self.state = SessionState::SendingBlock(nxt);
                                }
                            }
                            Action::Idle
                        },
                        _ => Action::Idle,
                    }
                },
                Packet::Data { block_num, payload } => {
                    match &self.state {
                        SessionState::AwaitingData(m) => {
                            let m = *m;
                            if block_num == m {
                                let mut payload = payload;
                                self.received.append(&mut payload);
                                self.retries = 0;
                                self.state = SessionState::ReceivingBlock(m);
                            }
                            Action::Idle
                        },
                        _ => Action::Idle,
                    }
                },
                _ => Action::Idle,
            },
        }
    }

    /// Performs the send the current state makes due, if any, and
    /// moves to the state that awaits its answer, exactly as the
    /// transmit relation prescribes.
    pub fn transmit(&mut self) -> (a: Action)
        requires
            session_wf(old(self)@),
        ensures
            session_wf(final(self)@),
            final(self)@ == transmit_spec(old(self)@).0,
            a@ == transmit_spec(old(self)@).1,
    {
        match &self.state {
            SessionState::SendingBlock(n) => {
                let n = *n;
                let payload = self.current_chunk();
                self.state = SessionState::AwaitingAck(n);
                Action::Send(Packet::Data { block_num: n, payload })
            },
            SessionState::AwaitingFirstAck => {
                self.state = SessionState::AwaitingData(1);
                Action::Send(Packet::Ack { block_num: 0 })
            },
            SessionState::ReceivingBlock(n) => {
                let n = *n;
                let last = self.received.len() - self.offset;
                self.offset = self.received.len();
                if last < BLOCK_SIZE {
                    self.state = SessionState::Complete;
                } else {
                    let nxt = if n == 65535 {
                        0
                    } else {
                        n + 1
                    };
                    self.state = SessionState::AwaitingData(nxt);
                }
                Action::Send(Packet::Ack { block_num: n })
            },
            _ => Action::Idle,
        }
    }
}

} // verus!
