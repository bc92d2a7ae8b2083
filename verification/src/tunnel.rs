//! The tunnel side: the handshake that registers a new connection, and
//! the pump that drains its queue onto the transport.

use tokio::sync::mpsc::{UnboundedReceiver, UnboundedSender};
use vstd::prelude::*;
use crate::identifier::{big_endian_value, identifier_bytes};
use crate::message::{FrameView, MessageView, WireFrame, WsMessage, OPCODE_BINARY};
use crate::registry::{State, Tx};

verus! {

/// `tokio::sync::mpsc::UnboundedReceiver`, held as it is.
#[verifier::external_type_specification]
#[verifier::external_body]
#[verifier::reject_recursive_types(T)]
pub struct ExUnboundedReceiver<T>(UnboundedReceiver<T>);

/// The receiving half of one connection's queue.
pub type Rx = UnboundedReceiver<WsMessage>;

/// The messages that the queue behind a receiving half held when its two
/// halves were made, in the order in which the half yields them. Whatever
/// is sent later comes after them.
pub uninterp spec fn made_with(rx: UnboundedReceiver<WsMessage>) -> Seq<MessageView>;

/// Whether the two were made as the sending and the receiving half of one
/// queue.
pub uninterp spec fn halves_of_one_queue(
    tx: UnboundedSender<WsMessage>,
    rx: UnboundedReceiver<WsMessage>,
) -> bool;

/// `tokio::sync::mpsc::unbounded_channel`, and `UnboundedSender::send` of
/// `first` on the sending half before either half is handed out. The
/// channel is new and its receiving half open, so the send is taken: the
/// two halves come back as those of one queue, which holds `first` and
/// nothing else.
#[verifier::external_body]
fn open_queue(first: WsMessage) -> (halves: (Tx, Rx))
    ensures
        halves_of_one_queue(halves.0, halves.1),
        made_with(halves.1) == seq![first@],
{
    let (tx, rx) = tokio::sync::mpsc::unbounded_channel();
    let _ = tx.send(first);
    (tx, rx)
}

/// `rand::random`, for a 64-bit value drawn from the thread's generator.
/// Nothing is stated of the value drawn.
#[verifier::external_body]
fn mint_identifier() -> (id: u64) {
    rand::random()
}

/// Whether `message` is the handshake for `id`: binary, and its eight
/// bytes are the identifier in big-endian order.
pub open spec fn is_handshake(message: MessageView, id: u64) -> bool {
    &&& message matches MessageView::Binary(bytes)
    &&& bytes.len() == 8
    &&& big_endian_value(bytes) == id
}

/// The message that tells a peer its own identifier.
pub fn handshake_message(id: u64) -> (message: WsMessage)
    ensures
        is_handshake(message@, id),
{
    WsMessage::Binary(identifier_bytes(id))
}

/// Whether `tx` and `rx` are the two halves of the queue of a new tunnel
/// connection of `id`: made as the halves of one queue, which held the
/// handshake for `id` and nothing else when they were made.
pub open spec fn opens_tunnel(tx: Tx, rx: Rx, id: u64) -> bool {
    &&& halves_of_one_queue(tx, rx)
    &&& made_with(rx).len() == 1
    &&& is_handshake(made_with(rx)[0], id)
}

/// Sets up the tunnel connection of `client_id`: makes its queue with the
/// handshake on it, and only then registers the sending half, in place of
/// one that was registered, so no other message can come first. The
/// receiving half goes to the connection's pump.
pub fn handle_ws(state: &mut State, client_id: u64) -> (rx: Rx)
    ensures
        final(state)@.dom() == old(state)@.dom().insert(client_id),
        opens_tunnel(final(state)@[client_id], rx, client_id),
        forall|id: u64|
            id != client_id && old(state)@.contains_key(id) ==> final(state)@[id] == old(
                state,
            )@[id],
{
    let (tx, rx) = open_queue(handshake_message(client_id));
    state.register(client_id, tx);
    rx
}

/// Accepts a new tunnel connection under a freshly drawn identifier. The
/// identifier is not checked against those in use: a connection that was
/// registered under it is overwritten.
pub fn accept_tunnel(state: &mut State) -> (accepted: (u64, Rx))
    ensures
        final(state)@.dom() == old(state)@.dom().insert(accepted.0),
        opens_tunnel(final(state)@[accepted.0], accepted.1, accepted.0),
        forall|id: u64|
            id != accepted.0 && old(state)@.contains_key(id) ==> final(state)@[id] == old(
                state,
            )@[id],
{
    let id: u64 = mint_identifier();
    let rx = handle_ws(state, id);
    (id, rx)
}

/// Where a connection's pump stands.
#[derive(Clone, Copy, Debug, PartialEq, Eq)]
pub enum PumpPhase {
    /// Waiting for the queue to yield a message.
    Receiving,
    /// Waiting for the transport to finish writing a frame.
    Writing,
    /// Done: the connection is to be closed and unregistered.
    Finished,
}

/// What happened while the pump waited.
#[derive(Clone, Debug, PartialEq, Eq)]
pub enum PumpEvent {
    /// The queue yielded a message.
    Message(WsMessage),
    /// The queue is closed and empty.
    QueueClosed,
    /// The transport wrote the frame.
    FrameWritten,
    /// The transport failed to write the frame.
    WriteFailed,
}

/// Mathematical value of a [`PumpEvent`].
pub enum EventView {
    Message(MessageView),
    QueueClosed,
    FrameWritten,
    WriteFailed,
}

impl View for PumpEvent {
    type V = EventView;

    open spec fn view(&self) -> EventView {
        match self {
            PumpEvent::Message(message) => EventView::Message(message@),
            PumpEvent::QueueClosed => EventView::QueueClosed,
            PumpEvent::FrameWritten => EventView::FrameWritten,
            PumpEvent::WriteFailed => EventView::WriteFailed,
        }
    }
}

/// What the pump asks for next.
#[derive(Clone, Debug, PartialEq, Eq)]
pub enum PumpAction {
    /// Wait for the queue.
    Receive,
    /// Write this frame to the transport.
    Write(WireFrame),
    /// Stop: unregister the identifier and close the transport if it is
    /// still open.
    Finish,
}

/// Mathematical value of a [`PumpAction`].
pub enum ActionView {
    Receive,
    Write(FrameView),
    Finish,
}

impl View for PumpAction {
    type V = ActionView;

    open spec fn view(&self) -> ActionView {
        match self {
            PumpAction::Receive => ActionView::Receive,
            PumpAction::Write(frame) => ActionView::Write(frame@),
            PumpAction::Finish => ActionView::Finish,
        }
    }
}

/// The pump's rule. A message is written as its frame; a written frame
/// sends the pump back to the queue; a closed queue or a failed write
/// ends it, and so does an event that the phase does not wait for. A
/// finished pump stays finished.
pub open spec fn pump_next(phase: PumpPhase, event: EventView) -> (PumpPhase, ActionView) {
    match (phase, event) {
        (PumpPhase::Receiving, EventView::Message(message)) => (
            PumpPhase::Writing,
            ActionView::Write(message.frame()),
        ),
        (PumpPhase::Writing, EventView::FrameWritten) => (
            PumpPhase::Receiving,
            ActionView::Receive,
        ),
        _ => (PumpPhase::Finished, ActionView::Finish),
    }
}

/// One step of a connection's pump: from the phase it is in and what
/// happened to the phase it enters and what it asks for.
pub fn pump_step(phase: PumpPhase, event: PumpEvent) -> (next: (PumpPhase, PumpAction))
    ensures
        next.0 == pump_next(phase, event@).0,
        next.1@ == pump_next(phase, event@).1,
{
    match phase {
        PumpPhase::Receiving => match event {
            PumpEvent::Message(message) => (
                PumpPhase::Writing,
                PumpAction::Write(message.to_frame()),
            ),
            _ => (PumpPhase::Finished, PumpAction::Finish),
        },
        PumpPhase::Writing => match event {
            PumpEvent::FrameWritten => (PumpPhase::Receiving, PumpAction::Receive),
            _ => (PumpPhase::Finished, PumpAction::Finish),
        },
        PumpPhase::Finished => (PumpPhase::Finished, PumpAction::Finish),
    }
}

/// The frames that a pump writes, in order, when it starts in `phase`
/// and `events` happen one after the other.
pub open spec fn pump_writes(phase: PumpPhase, events: Seq<EventView>) -> Seq<FrameView>
    decreases events.len(),
{
    if events.len() == 0 {
        Seq::empty()
    } else {
        let (next, action) = pump_next(phase, events[0]);
        let rest = pump_writes(next, events.drop_first());
        match action {
            ActionView::Write(frame) => seq![frame] + rest,
            _ => rest,
        }
    }
}

/// The events of a run in which the queue yields `messages` one by one
/// and the transport writes every frame.
pub open spec fn smooth_run(messages: Seq<MessageView>) -> Seq<EventView>
    decreases messages.len(),
{
    if messages.len() == 0 {
        Seq::empty()
    } else {
        seq![EventView::Message(messages[0]), EventView::FrameWritten] + smooth_run(
            messages.drop_first(),
        )
    }
}

/// What a connection's queue yields goes to the wire in the order in
/// which it was yielded, one frame for each message.
pub proof fn pump_keeps_order(messages: Seq<MessageView>)
    ensures
        pump_writes(PumpPhase::Receiving, smooth_run(messages)) == messages.map_values(
            |m: MessageView| m.frame(),
        ),
    decreases messages.len(),
{
    let frames = messages.map_values(|m: MessageView| m.frame());
    if messages.len() == 0 {
        assert(frames == Seq::<FrameView>::empty());
    } else {
        let rest = smooth_run(messages.drop_first());
        let run = smooth_run(messages);
        pump_keeps_order(messages.drop_first());
        assert(run.drop_first() == seq![EventView::FrameWritten] + rest);
        assert(run.drop_first().drop_first() == rest);
        assert(pump_writes(PumpPhase::Writing, run.drop_first()) == pump_writes(
            PumpPhase::Receiving,
            rest,
        ));
        assert(frames == seq![messages[0].frame()] + messages.drop_first().map_values(
            |m: MessageView| m.frame(),
        ));
    }
}

/// The pump of a new tunnel connection, fed what its queue yields, writes
/// the handshake first, whatever follows: the first frame is binary and
/// its eight bytes are the identifier in big-endian order.
pub proof fn new_tunnel_writes_handshake_first(tx: Tx, rx: Rx, id: u64, later: Seq<EventView>)
    requires
        opens_tunnel(tx, rx, id),
    ensures
        ({
            let events = seq![EventView::Message(made_with(rx)[0])] + later;
            let frames = pump_writes(PumpPhase::Receiving, events);
            &&& frames.len() > 0
            &&& frames[0] == made_with(rx)[0].frame()
            &&& frames[0].opcode == OPCODE_BINARY
            &&& frames[0].payload.len() == 8
            &&& big_endian_value(frames[0].payload) == id
        }),
{
}

/// A pump that has finished writes nothing more, whatever happens.
pub proof fn finished_pump_is_silent(events: Seq<EventView>)
    ensures
        pump_writes(PumpPhase::Finished, events) == Seq::<FrameView>::empty(),
    decreases events.len(),
{
    if events.len() > 0 {
        finished_pump_is_silent(events.drop_first());
    }
}

} // verus!
