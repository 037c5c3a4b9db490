use vstd::prelude::*;
use crate::frame::{frame_datagrams, translate_frame, CHANNEL_COUNT};

verus! {

/// One event on a WebSocket connection, as the transport reports it.
pub enum Incoming {
    /// A binary frame and its payload.
    Binary(Vec<u8>),
    /// A frame of any other kind (text, ping, pong).
    NonBinary,
    /// The stream ended, or a read failed.
    Ended,
}

/// What an event is, with the payload as a sequence.
pub enum IncomingView {
    Binary(Seq<u8>),
    NonBinary,
    Ended,
}

impl View for Incoming {
    type V = IncomingView;

    open spec fn view(&self) -> IncomingView {
        match self {
            Incoming::Binary(p) => IncomingView::Binary(p@),
            Incoming::NonBinary => IncomingView::NonBinary,
            Incoming::Ended => IncomingView::Ended,
        }
    }
}

/// The phase of a connection handler.
#[derive(Debug, Clone, Copy, PartialEq, Eq, Structural)]
pub enum ConnectionState {
    Reading,
    Closed,
}

/// What the handler asks its runner to do after an event.
pub enum Step {
    /// Send these datagrams, in order, then read the next frame.
    Forward(Vec<Vec<u8>>),
    /// The frame was not binary and was dropped; read the next frame.
    Dropped,
    /// The connection is over; stop reading.
    Closed,
}

/// The handler of one WebSocket connection.
pub struct Connection {
    pub state: ConnectionState,
}

/// The state after event `m` in state `s`.
pub open spec fn next_state(s: ConnectionState, m: IncomingView) -> ConnectionState {
    match (s, m) {
        (ConnectionState::Reading, IncomingView::Binary(_)) => ConnectionState::Reading,
        (ConnectionState::Reading, IncomingView::NonBinary) => ConnectionState::Reading,
        _ => ConnectionState::Closed,
    }
}

/// The datagrams that event `m` in state `s` sends.
pub open spec fn emitted(s: ConnectionState, universe: Seq<char>, m: IncomingView) -> Seq<Seq<u8>> {
    match (s, m) {
        (ConnectionState::Reading, IncomingView::Binary(p)) => frame_datagrams(universe, p),
        _ => Seq::empty(),
    }
}

/// The state after the events `ms`, from state `s`.
pub open spec fn state_after(s: ConnectionState, ms: Seq<IncomingView>) -> ConnectionState
    decreases ms.len(),
{
    if ms.len() == 0 {
        s
    } else {
        state_after(next_state(s, ms[0]), ms.drop_first())
    }
}

/// All datagrams that the events `ms` send, in order, from state `s`.
pub open spec fn run(s: ConnectionState, universe: Seq<char>, ms: Seq<IncomingView>) -> Seq<Seq<u8>>
    decreases ms.len(),
{
    if ms.len() == 0 {
        Seq::empty()
    } else {
        emitted(s, universe, ms[0]) + run(next_state(s, ms[0]), universe, ms.drop_first())
    }
}

impl Connection {
    /// A handler for a connection whose handshake has just succeeded.
    pub fn new() -> (r: Connection)
        ensures
            r.state == ConnectionState::Reading,
    {
        Connection { state: ConnectionState::Reading }
    }

    /// Handles one event: a binary frame becomes its 512 datagrams, any other
    /// frame is dropped, and the end of the stream closes the handler.
    pub fn on_incoming(&mut self, universe: &str, msg: &Incoming) -> (r: Step)
        ensures
            final(self).state == next_state(old(self).state, msg@),
            r is Forward <==> (old(self).state == ConnectionState::Reading && msg@ is Binary),
            r is Dropped <==> (old(self).state == ConnectionState::Reading && msg@ is NonBinary),
            r is Closed <==> final(self).state == ConnectionState::Closed,
            r matches Step::Forward(d) ==> d@.len() == CHANNEL_COUNT && forall|i: int|
                0 <= i < d@.len() ==> #[trigger] d@[i]@ == emitted(old(self).state, universe@, msg@)[i],
    {
        match self.state {
            ConnectionState::Closed => Step::Closed,
            ConnectionState::Reading => match msg {
                Incoming::Binary(p) => Step::Forward(translate_frame(universe, p.as_slice())),
                Incoming::NonBinary => Step::Dropped,
                Incoming::Ended => {
                    self.state = ConnectionState::Closed;
                    Step::Closed
                },
            },
        }
    }
}

} // verus!
