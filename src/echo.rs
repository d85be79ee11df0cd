//! The server side: one echo session per accepted connection.
use vstd::prelude::*;
use crate::text::{chunk_text, is_trim_of, utf8_lossy};

verus! {

/// The most bytes one receive asks for.
pub const CHUNK_CAPACITY: usize = 1024;

/// What one receive on a connection produced.
pub enum ReadOutcome {
    /// The bytes that arrived; none means the peer closed its side.
    Received(Vec<u8>),
    /// The receive failed.
    Failed,
}

impl View for ReadOutcome {
    type V = Option<Seq<u8>>;

    open spec fn view(&self) -> Option<Seq<u8>> {
        match self {
            ReadOutcome::Received(b) => Some(b@),
            ReadOutcome::Failed => None,
        }
    }
}

/// The bytes of a receive that carry data: a non-empty chunk.
pub open spec fn data_of(read: Option<Seq<u8>>) -> Option<Seq<u8>> {
    match read {
        Some(b) => if b.len() > 0 {
            Some(b)
        } else {
            None
        },
        None => None,
    }
}

#[derive(Clone, Copy, Debug, PartialEq, Eq, Structural)]
pub enum EchoState {
    /// Waiting for the next receive.
    AwaitingData,
    /// A chunk arrived and is being written back.
    Processing,
    /// The session is over.
    Closed,
}

/// What the caller does after a receive.
pub enum EchoAction {
    /// Write `bytes` back on the connection; `text` is their printable form.
    Reply { bytes: Vec<u8>, text: String },
    /// The peer closed its side: report it and stop.
    PeerClosed,
    /// The receive failed: report it and stop.
    ReadFailed,
}

/// The state after a receive.
pub open spec fn echo_after_read(read: Option<Seq<u8>>) -> EchoState {
    if data_of(read) is Some {
        EchoState::Processing
    } else {
        EchoState::Closed
    }
}

/// The state after writing a reply: a failed write does not end the session.
pub open spec fn echo_after_write(write_ok: bool) -> EchoState {
    EchoState::AwaitingData
}

/// The state of one connection on the server.
pub struct EchoSession {
    state: EchoState,
}

impl View for EchoSession {
    type V = EchoState;

    closed spec fn view(&self) -> EchoState {
        self.state
    }
}

impl EchoSession {
    /// A session on a freshly accepted connection.
    pub fn new() -> (r: EchoSession)
        ensures
            r@ == EchoState::AwaitingData,
    {
        EchoSession { state: EchoState::AwaitingData }
    }

    pub fn state(&self) -> (r: EchoState)
        ensures
            r == self@,
    {
        self.state
    }

    /// Takes what a receive produced and says what to do with it: a
    /// non-empty chunk is handed back verbatim, an empty one or a failure ends
    /// the session.
    pub fn on_read(&mut self, outcome: ReadOutcome) -> (a: EchoAction)
        requires
            old(self)@ == EchoState::AwaitingData,
        ensures
            final(self)@ == echo_after_read(outcome@),
            a is Reply <==> data_of(outcome@) is Some,
            a is Reply ==> data_of(outcome@) == Some(a->bytes@),
            a is Reply ==> is_trim_of(a->text@, utf8_lossy(a->bytes@)),
            a is PeerClosed <==> outcome@ == Some(Seq::<u8>::empty()),
            a is ReadFailed <==> outcome@ is None,
    {
        match outcome {
            ReadOutcome::Received(bytes) => {
                if bytes.len() == 0 {
                    self.state = EchoState::Closed;
                    proof {
                        assert(bytes@ =~= Seq::<u8>::empty());
                    }
                    EchoAction::PeerClosed
                } else {
                    self.state = EchoState::Processing;
                    let text = chunk_text(bytes.as_slice());
                    EchoAction::Reply { bytes, text }
                }
            },
            ReadOutcome::Failed => {
                self.state = EchoState::Closed;
                EchoAction::ReadFailed
            },
        }
    }

    /// Takes the outcome of writing a reply back. Either way the session
    /// waits for the next chunk.
    pub fn on_write(&mut self, write_ok: bool)
        requires
            old(self)@ == EchoState::Processing,
        ensures
            final(self)@ == echo_after_write(write_ok),
    {
        self.state = EchoState::AwaitingData;
    }
}

/// One receive-act-reply cycle from state `s`: the receive produced `read`
/// and, where a reply was due, its write succeeded or not as `write_ok` says.
/// Gives the state after the cycle and the reply written, if any.
pub open spec fn echo_cycle(s: EchoState, read: Option<Seq<u8>>, write_ok: bool) -> (EchoState, Option<Seq<u8>>) {
    if s != EchoState::AwaitingData {
        (s, None)
    } else if data_of(read) is Some {
        (echo_after_write(write_ok), data_of(read))
    } else {
        (echo_after_read(read), None)
    }
}

/// A session driven from `s` through `cycles`, each a receive and the outcome
/// of the write that may follow it: the state it ends in and the replies it
/// wrote, in order.
pub open spec fn echo_run(s: EchoState, cycles: Seq<(Option<Seq<u8>>, bool)>) -> (EchoState, Seq<Seq<u8>>)
    decreases cycles.len(),
{
    if cycles.len() == 0 {
        (s, seq![])
    } else {
        let (t, reply) = echo_cycle(s, cycles[0].0, cycles[0].1);
        let (u, rest) = echo_run(t, cycles.drop_first());
        match reply {
            Some(b) => (u, seq![b] + rest),
            None => (u, rest),
        }
    }
}

/// Two sessions driven by one interleaving of events, each event tagged with
/// the connection it happened on (`true` for the first).
pub open spec fn echo_run_pair(
    a: EchoState,
    b: EchoState,
    events: Seq<(bool, Option<Seq<u8>>, bool)>,
) -> ((EchoState, Seq<Seq<u8>>), (EchoState, Seq<Seq<u8>>))
    decreases events.len(),
{
    if events.len() == 0 {
        ((a, seq![]), (b, seq![]))
    } else {
        let e = events[0];
        if e.0 {
            let (a2, reply) = echo_cycle(a, e.1, e.2);
            let ((a3, ra), rb) = echo_run_pair(a2, b, events.drop_first());
            match reply {
                Some(r) => ((a3, seq![r] + ra), rb),
                None => ((a3, ra), rb),
            }
        } else {
            let (b2, reply) = echo_cycle(b, e.1, e.2);
            let (ra, (b3, rb)) = echo_run_pair(a, b2, events.drop_first());
            match reply {
                Some(r) => (ra, (b3, seq![r] + rb)),
                None => (ra, (b3, rb)),
            }
        }
    }
}

/// The events of one connection out of an interleaving.
pub open spec fn events_of(events: Seq<(bool, Option<Seq<u8>>, bool)>, side: bool) -> Seq<(Option<Seq<u8>>, bool)>
    decreases events.len(),
{
    if events.len() == 0 {
        seq![]
    } else if events[0].0 == side {
        seq![(events[0].1, events[0].2)] + events_of(events.drop_first(), side)
    } else {
        events_of(events.drop_first(), side)
    }
}

/// Receives that each delivered a chunk, paired with write outcomes.
pub open spec fn chunk_cycles(chunks: Seq<Seq<u8>>, write_oks: Seq<bool>) -> Seq<(Option<Seq<u8>>, bool)> {
    Seq::new(chunks.len(), |i: int| (Some(chunks[i]), write_oks[i]))
}

/// Echo fidelity: a chunk of 1 to `CHUNK_CAPACITY` bytes is written back
/// exactly, and the session then waits for more, whether the write
/// succeeded or not.
pub proof fn lemma_echo_fidelity(b: Seq<u8>, write_ok: bool)
    requires
        1 <= b.len() <= CHUNK_CAPACITY,
    ensures
        echo_cycle(EchoState::AwaitingData, Some(b), write_ok) == (EchoState::AwaitingData, Some(b)),
{
}

/// A session whose first receive is empty closes, and writes nothing then or
/// ever after.
pub proof fn lemma_empty_read_closes(cycles: Seq<(Option<Seq<u8>>, bool)>, write_ok: bool)
    ensures
        echo_run(EchoState::AwaitingData, seq![(Some(Seq::<u8>::empty()), write_ok)] + cycles)
            == (EchoState::Closed, Seq::<Seq<u8>>::empty()),
{
    let all = seq![(Some(Seq::<u8>::empty()), write_ok)] + cycles;
    assert(all.drop_first() =~= cycles);
    lemma_closed_stays_silent(cycles);
}

/// A closed session stays closed and writes nothing.
pub proof fn lemma_closed_stays_silent(cycles: Seq<(Option<Seq<u8>>, bool)>)
    ensures
        echo_run(EchoState::Closed, cycles) == (EchoState::Closed, Seq::<Seq<u8>>::empty()),
    decreases cycles.len(),
{
    if cycles.len() > 0 {
        lemma_closed_stays_silent(cycles.drop_first());
    }
}

/// Two chunks sent one after the other on one connection get one reply each,
/// equal to them and in their order.
pub proof fn lemma_two_chunks_in_order(b1: Seq<u8>, b2: Seq<u8>, ok1: bool, ok2: bool)
    requires
        b1.len() > 0,
        b2.len() > 0,
    ensures
        echo_run(EchoState::AwaitingData, seq![(Some(b1), ok1), (Some(b2), ok2)])
            == (EchoState::AwaitingData, seq![b1, b2]),
{
    let chunks = seq![b1, b2];
    let oks = seq![ok1, ok2];
    assert(chunk_cycles(chunks, oks) =~= seq![(Some(b1), ok1), (Some(b2), ok2)]);
    lemma_chunks_echoed_independently(chunks, oks);
}

/// Every chunk that arrives is echoed on its own and at once: a run of
/// non-empty chunks writes back exactly those chunks, one reply per chunk,
/// in order, and the session is still open.
pub proof fn lemma_chunks_echoed_independently(chunks: Seq<Seq<u8>>, write_oks: Seq<bool>)
    requires
        write_oks.len() == chunks.len(),
        forall|i: int| 0 <= i < chunks.len() ==> (#[trigger] chunks[i]).len() > 0,
    ensures
        echo_run(EchoState::AwaitingData, chunk_cycles(chunks, write_oks))
            == (EchoState::AwaitingData, chunks),
    decreases chunks.len(),
{
    let cycles = chunk_cycles(chunks, write_oks);
    if chunks.len() > 0 {
        let rest = chunks.drop_first();
        let rest_oks = write_oks.drop_first();
        assert(cycles.drop_first() =~= chunk_cycles(rest, rest_oks));
        assert forall|i: int| 0 <= i < rest.len() implies (#[trigger] rest[i]).len() > 0 by {
            assert(rest[i] == chunks[i + 1]);
        }
        lemma_chunks_echoed_independently(rest, rest_oks);
        assert(cycles[0] == (Some(chunks[0]), write_oks[0]));
        assert(seq![chunks[0]] + rest =~= chunks);
    } else {
        assert(chunks =~= Seq::<Seq<u8>>::empty());
    }
}

/// A message longer than one receive can hold arrives in two chunks or more.
pub proof fn lemma_oversized_message_splits(chunks: Seq<Seq<u8>>)
    requires
        forall|i: int| 0 <= i < chunks.len() ==> (#[trigger] chunks[i]).len() <= CHUNK_CAPACITY,
        chunks.flatten().len() > CHUNK_CAPACITY,
    ensures
        chunks.len() >= 2,
{
    if chunks.len() == 0 {
        assert(chunks.flatten() =~= Seq::<u8>::empty());
    } else if chunks.len() == 1 {
        assert(chunks.drop_first().flatten() =~= Seq::<u8>::empty());
        assert(chunks.flatten() =~= chunks[0]);
    }
}

/// Connections do not mix: however the events of two sessions interleave,
/// each session writes what it would have written alone on its own events.
pub proof fn lemma_sessions_isolated(a: EchoState, b: EchoState, events: Seq<(bool, Option<Seq<u8>>, bool)>)
    ensures
        echo_run_pair(a, b, events) == (echo_run(a, events_of(events, true)), echo_run(b, events_of(events, false))),
    decreases events.len(),
{
    if events.len() > 0 {
        let e = events[0];
        let rest = events.drop_first();
        let c = (e.1, e.2);
        if e.0 {
            lemma_sessions_isolated(echo_cycle(a, e.1, e.2).0, b, rest);
            let own = events_of(events, true);
            assert(own == seq![c] + events_of(rest, true));
            assert(own.drop_first() =~= events_of(rest, true));
            assert(events_of(events, false) == events_of(rest, false));
        } else {
            lemma_sessions_isolated(a, echo_cycle(b, e.1, e.2).0, rest);
            let own = events_of(events, false);
            assert(own == seq![c] + events_of(rest, false));
            assert(own.drop_first() =~= events_of(rest, false));
            assert(events_of(events, true) == events_of(rest, true));
        }
    }
}

} // verus!
