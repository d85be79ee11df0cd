//! The client side: two flows over the two halves of one connection.
//!
//! The outbound flow carries console lines to the server; the inbound flow
//! shows what the server sends. Each decides its own end, and the client is
//! done only when both are.
use vstd::prelude::*;
use vstd::utf8::encode_utf8;
use crate::echo::{data_of, ReadOutcome};
use crate::text::{chunk_text, is_disconnect_command, is_disconnect_line, is_trim_of, utf8_lossy};

verus! {

/// Where one client flow stands: still running, or at its end.
#[derive(Clone, Copy, Debug, PartialEq, Eq, Structural)]
pub enum FlowState {
    Running,
    Finished,
}

/// The whole client is done once both of its flows are.
pub open spec fn client_finished(outbound: FlowState, inbound: FlowState) -> bool {
    outbound == FlowState::Finished && inbound == FlowState::Finished
}

/// What the outbound flow does with a console line.
pub enum OutboundAction {
    /// Send these bytes to the server. A failed send is reported and the
    /// flow goes on to the next line.
    Send(Vec<u8>),
    /// The operator asked to disconnect: report it and stop this flow.
    Disconnect,
}

/// The outbound flow's state after a line.
pub open spec fn outbound_after_line(line: Seq<char>) -> FlowState {
    if is_disconnect_line(line) {
        FlowState::Finished
    } else {
        FlowState::Running
    }
}

/// Console to network.
pub struct OutboundFlow {
    state: FlowState,
}

impl View for OutboundFlow {
    type V = FlowState;

    closed spec fn view(&self) -> FlowState {
        self.state
    }
}

impl OutboundFlow {
    pub fn new() -> (r: OutboundFlow)
        ensures
            r@ == FlowState::Running,
    {
        OutboundFlow { state: FlowState::Running }
    }

    pub fn state(&self) -> (r: FlowState)
        ensures
            r == self@,
    {
        self.state
    }

    /// Takes one line as the operator entered it, terminator included. The
    /// disconnect command ends the flow and sends nothing; any other line is
    /// sent as it is.
    pub fn on_line(&mut self, line: &str) -> (a: OutboundAction)
        requires
            old(self)@ == FlowState::Running,
        ensures
            final(self)@ == outbound_after_line(line@),
            a is Disconnect <==> is_disconnect_line(line@),
            a is Send ==> a->0@ == encode_utf8(line@),
    {
        if is_disconnect_command(line) {
            self.state = FlowState::Finished;
            OutboundAction::Disconnect
        } else {
            OutboundAction::Send(line.as_bytes_vec())
        }
    }
}

/// What the inbound flow does after a receive.
pub enum InboundAction {
    /// Show this text, the printable form of the chunk that arrived.
    Show(String),
    /// The server closed the connection: report it and stop this flow.
    ServerClosed,
    /// The receive failed: report it and stop this flow.
    ReadFailed,
}

/// The inbound flow's state after a receive.
pub open spec fn inbound_after_read(read: Option<Seq<u8>>) -> FlowState {
    if data_of(read) is Some {
        FlowState::Running
    } else {
        FlowState::Finished
    }
}

/// Network to console.
pub struct InboundFlow {
    state: FlowState,
}

impl View for InboundFlow {
    type V = FlowState;

    closed spec fn view(&self) -> FlowState {
        self.state
    }
}

impl InboundFlow {
    pub fn new() -> (r: InboundFlow)
        ensures
            r@ == FlowState::Running,
    {
        InboundFlow { state: FlowState::Running }
    }

    pub fn state(&self) -> (r: FlowState)
        ensures
            r == self@,
    {
        self.state
    }

    /// Takes what a receive produced: a non-empty chunk is shown and the
    /// flow goes on; an empty one or a failure ends the flow.
    pub fn on_read(&mut self, outcome: ReadOutcome) -> (a: InboundAction)
        requires
            old(self)@ == FlowState::Running,
        ensures
            final(self)@ == inbound_after_read(outcome@),
            a is Show <==> data_of(outcome@) is Some,
            a is Show ==> is_trim_of(a->0@, utf8_lossy(data_of(outcome@)->0)),
            a is ServerClosed <==> outcome@ == Some(Seq::<u8>::empty()),
            a is ReadFailed <==> outcome@ is None,
    {
        match outcome {
            ReadOutcome::Received(bytes) => {
                if bytes.len() == 0 {
                    self.state = FlowState::Finished;
                    proof {
                        assert(bytes@ =~= Seq::<u8>::empty());
                    }
                    InboundAction::ServerClosed
                } else {
                    InboundAction::Show(chunk_text(bytes.as_slice()))
                }
            },
            ReadOutcome::Failed => {
                self.state = FlowState::Finished;
                InboundAction::ReadFailed
            },
        }
    }
}

/// The disconnect command ends the outbound flow alone: the client is not
/// done while its inbound flow still runs.
pub proof fn lemma_disconnect_leaves_inbound_open(line: Seq<char>, inbound: FlowState)
    requires
        is_disconnect_line(line),
        inbound == FlowState::Running,
    ensures
        outbound_after_line(line) == FlowState::Finished,
        !client_finished(outbound_after_line(line), inbound),
{
}

} // verus!
