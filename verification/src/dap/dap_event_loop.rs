//! The loop that forwards bytes between the debug adapter and its client: what each
//! thing that happens in it comes to.
use vstd::prelude::*;

verus! {

/// The token of the channel on which outgoing data is announced.
pub const CHANNEL_TOKEN: usize = 1;

/// The token of the connection to the client.
pub const TCP_TOKEN: usize = 2;

/// How many bytes are read from the client at a time.
pub const READ_SIZE: usize = 4096;

/// What is ready.
#[derive(Clone, Copy, Debug, PartialEq, Eq, Structural)]
pub enum Ready {
    Channel,
    Tcp,
    Unknown(usize),
}

/// What a token says is ready.
pub open spec fn spec_ready(token: usize) -> Ready {
    if token == 1 {
        Ready::Channel
    } else if token == 2 {
        Ready::Tcp
    } else {
        Ready::Unknown(token)
    }
}

/// What a token says is ready.
pub fn ready(token: usize) -> (r: Ready)
    ensures
        r == spec_ready(token),
{
    if token == CHANNEL_TOKEN {
        Ready::Channel
    } else if token == TCP_TOKEN {
        Ready::Tcp
    } else {
        Ready::Unknown(token)
    }
}

/// What to do when the channel is ready.
#[derive(Clone, Copy, Debug, PartialEq, Eq, Structural)]
pub enum ChannelStep {
    /// Nothing was announced.
    Wait,
    /// Receive outgoing data and forward it to the client.
    Forward,
    /// Something else was announced.
    UnknownId(u32),
}

/// What to do when `announced` was announced on the channel, where `outgoing_id`
/// announces outgoing data.
pub fn on_channel(announced: Option<u32>, outgoing_id: u32) -> (r: ChannelStep)
    ensures
        r == match announced {
            None => ChannelStep::Wait,
            Some(id) => if id == outgoing_id {
                ChannelStep::Forward
            } else {
                ChannelStep::UnknownId(id)
            },
        },
{
    match announced {
        None => ChannelStep::Wait,
        Some(id) => {
            if id == outgoing_id {
                ChannelStep::Forward
            } else {
                ChannelStep::UnknownId(id)
            }
        },
    }
}

/// Kinds of failures to read or write, as far as the loop tells them apart.
#[derive(Clone, Copy, Debug, PartialEq, Eq, Structural)]
pub enum IoErrorKind {
    WouldBlock,
    Interrupted,
    Other,
}

/// Whether nothing can be read now.
pub fn would_block(kind: IoErrorKind) -> (r: bool)
    ensures
        r == (kind == IoErrorKind::WouldBlock),
{
    kind == IoErrorKind::WouldBlock
}

/// Whether the read was interrupted and is to be tried again.
pub fn interrupted(kind: IoErrorKind) -> (r: bool)
    ensures
        r == (kind == IoErrorKind::Interrupted),
{
    kind == IoErrorKind::Interrupted
}

/// What to do after a read from the client.
#[derive(Clone, Copy, Debug, PartialEq, Eq, Structural)]
pub enum ReadStep {
    /// The client closed the connection: the loop ends.
    Close,
    /// Forward this many bytes, then wait for the next event.
    Forward(usize),
    /// Wait for the next event.
    Wait,
    /// Read again.
    Retry,
    /// Tell of the failure, then wait for the next event.
    Fail,
}

/// What to do after a read that gave `outcome`.
pub open spec fn read_step(outcome: Result<usize, IoErrorKind>) -> ReadStep {
    match outcome {
        Ok(n) => if n == 0 {
            ReadStep::Close
        } else {
            ReadStep::Forward(n)
        },
        Err(IoErrorKind::WouldBlock) => ReadStep::Wait,
        Err(IoErrorKind::Interrupted) => ReadStep::Retry,
        Err(IoErrorKind::Other) => ReadStep::Fail,
    }
}

/// What to do after a read that gave `outcome`.
pub fn on_read(outcome: Result<usize, IoErrorKind>) -> (r: ReadStep)
    ensures
        r == read_step(outcome),
{
    match outcome {
        Ok(n) => {
            if n == 0 {
                ReadStep::Close
            } else {
                ReadStep::Forward(n)
            }
        },
        Err(kind) => {
            if would_block(kind) {
                ReadStep::Wait
            } else if interrupted(kind) {
                ReadStep::Retry
            } else {
                ReadStep::Fail
            }
        },
    }
}

/// What to do with what was received from the debug adapter.
#[derive(Debug, PartialEq, Eq)]
pub enum OutgoingStep {
    /// Write these bytes to the client.
    Write(Vec<u8>),
    /// The debug adapter closed its channel: the loop ends.
    Close,
}

/// What to do with what was received from the debug adapter: a chunk, or nothing where
/// its channel is closed.
pub fn on_outgoing(received: Option<Vec<u8>>) -> (r: OutgoingStep)
    ensures
        match received {
            Some(bytes) => r == OutgoingStep::Write(bytes),
            None => r is Close,
        },
{
    match received {
        Some(bytes) => OutgoingStep::Write(bytes),
        None => OutgoingStep::Close,
    }
}

/// The number of bytes of a chunk that a reader with `room` bytes gets. A closed
/// channel gives none.
pub open spec fn taken(chunk: Option<Seq<u8>>, room: nat) -> nat {
    match chunk {
        Some(bytes) => if bytes.len() <= room {
            bytes.len()
        } else {
            room
        },
        None => 0,
    }
}

/// Puts what was received into the first bytes of a reader's buffer. Bytes for
/// which there is no room are dropped. Returns the number of bytes put.
pub fn read_chunk(chunk: Option<&Vec<u8>>, buf: &mut Vec<u8>) -> (n: usize)
    ensures
        n == taken(
            match chunk {
                Some(bytes) => Some(bytes@),
                None => None,
            },
            old(buf)@.len(),
        ),
        final(buf)@.len() == old(buf)@.len(),
        forall|i: int| 0 <= i < n ==> #[trigger] final(buf)@[i] == chunk->0@[i],
        forall|i: int| n <= i < old(buf)@.len() ==> #[trigger] final(buf)@[i] == old(buf)@[i],
{
    let bytes: &Vec<u8> = match chunk {
        Some(bytes) => bytes,
        None => {
            return 0;
        },
    };
    let room: usize = buf.len();
    let n: usize = if bytes.len() <= room {
        bytes.len()
    } else {
        room
    };
    let mut i: usize = 0;
    while i < n
        invariant
            i <= n,
            n <= bytes@.len(),
            n <= room,
            room == buf@.len(),
            room == old(buf)@.len(),
            forall|k: int| 0 <= k < i ==> #[trigger] buf@[k] == bytes@[k],
            forall|k: int| i <= k < room ==> #[trigger] buf@[k] == old(buf)@[k],
        decreases n - i,
    {
        buf.set(i, bytes[i]);
        i = i + 1;
    }
    n
}

/// The number of bytes that a writer took: all of them, or none if they could not
/// be sent on.
pub fn written(sent: bool, len: usize) -> (n: usize)
    ensures
        n == if sent {
            len
        } else {
            0
        },
{
    if sent {
        len
    } else {
        0
    }
}

/// Something that happens in the loop.
#[derive(Debug, PartialEq, Eq)]
pub enum LoopEvent {
    /// Waiting for something to be ready failed.
    PollFailed(IoErrorKind),
    /// Something is ready. If it is the channel, it announces something or nothing.
    Ready { token: usize, announced: Option<u32> },
    /// A chunk of the debug adapter was received, or its channel is closed.
    Received(Option<Vec<u8>>),
    /// The bytes were written to the client, or they could not be.
    Written(Result<(), IoErrorKind>),
    /// Bytes of the client were read, none if it closed the connection.
    Read(Result<Vec<u8>, IoErrorKind>),
    /// The bytes were sent to the debug adapter, if `sent` says so.
    Forwarded { sent: bool },
}

/// Something that happens in the loop, over sequences of bytes.
#[verifier::ext_equal]
pub enum EventModel {
    PollFailed(IoErrorKind),
    Ready { token: usize, announced: Option<u32> },
    Received(Option<Seq<u8>>),
    Written(Result<(), IoErrorKind>),
    Read(Result<Seq<u8>, IoErrorKind>),
    Forwarded { sent: bool },
}

impl View for LoopEvent {
    type V = EventModel;

    open spec fn view(&self) -> EventModel {
        match *self {
            LoopEvent::PollFailed(kind) => EventModel::PollFailed(kind),
            LoopEvent::Ready { token, announced } => EventModel::Ready { token, announced },
            LoopEvent::Received(Some(bytes)) => EventModel::Received(Some(bytes@)),
            LoopEvent::Received(None) => EventModel::Received(None),
            LoopEvent::Written(outcome) => EventModel::Written(outcome),
            LoopEvent::Read(Ok(bytes)) => EventModel::Read(Ok(bytes@)),
            LoopEvent::Read(Err(kind)) => EventModel::Read(Err(kind)),
            LoopEvent::Forwarded { sent } => EventModel::Forwarded { sent },
        }
    }
}

/// What the loop does next.
#[derive(Debug, PartialEq, Eq)]
pub enum LoopStep {
    /// Wait until something is ready.
    Wait,
    /// Receive a chunk of the debug adapter.
    Receive,
    /// Write these bytes to the client.
    Write(Vec<u8>),
    /// Read from the client, without waiting.
    Read,
    /// Send these bytes to the debug adapter.
    Forward(Vec<u8>),
    /// Tell that something failed, then wait until something is ready.
    Tell(LoopFault),
    /// The loop ends, with an error if something failed.
    End(Result<(), IoErrorKind>),
}

/// What the loop does next, over sequences of bytes.
#[verifier::ext_equal]
pub enum StepModel {
    Wait,
    Receive,
    Write(Seq<u8>),
    Read,
    Forward(Seq<u8>),
    Tell(LoopFault),
    End(Result<(), IoErrorKind>),
}

impl View for LoopStep {
    type V = StepModel;

    open spec fn view(&self) -> StepModel {
        match *self {
            LoopStep::Wait => StepModel::Wait,
            LoopStep::Receive => StepModel::Receive,
            LoopStep::Write(bytes) => StepModel::Write(bytes@),
            LoopStep::Read => StepModel::Read,
            LoopStep::Forward(bytes) => StepModel::Forward(bytes@),
            LoopStep::Tell(fault) => StepModel::Tell(fault),
            LoopStep::End(outcome) => StepModel::End(outcome),
        }
    }
}

/// What is told of.
#[derive(Clone, Copy, Debug, PartialEq, Eq, Structural)]
pub enum LoopFault {
    UnknownId(u32),
    UnknownToken(usize),
    ReadFailed,
    ForwardFailed,
}

/// What an event of the loop comes to, where `outgoing_id` announces outgoing data.
pub open spec fn loop_step(event: EventModel, outgoing_id: u32) -> StepModel {
    match event {
        EventModel::PollFailed(kind) => StepModel::End(Err(kind)),
        EventModel::Ready { token, announced } => match spec_ready(token) {
            Ready::Channel => match announced {
                None => StepModel::Wait,
                Some(id) => if id == outgoing_id {
                    StepModel::Receive
                } else {
                    StepModel::Tell(LoopFault::UnknownId(id))
                },
            },
            Ready::Tcp => StepModel::Read,
            Ready::Unknown(token) => StepModel::Tell(LoopFault::UnknownToken(token)),
        },
        EventModel::Received(Some(bytes)) => StepModel::Write(bytes),
        EventModel::Received(None) => StepModel::End(Ok(())),
        EventModel::Written(Ok(_)) => StepModel::Wait,
        EventModel::Written(Err(kind)) => StepModel::End(Err(kind)),
        EventModel::Read(Ok(bytes)) => if bytes.len() == 0 {
            StepModel::End(Ok(()))
        } else {
            StepModel::Forward(bytes)
        },
        EventModel::Read(Err(IoErrorKind::WouldBlock)) => StepModel::Wait,
        EventModel::Read(Err(IoErrorKind::Interrupted)) => StepModel::Read,
        EventModel::Read(Err(IoErrorKind::Other)) => StepModel::Tell(LoopFault::ReadFailed),
        EventModel::Forwarded { sent } => if sent {
            StepModel::Wait
        } else {
            StepModel::Tell(LoopFault::ForwardFailed)
        },
    }
}

/// The event can happen after the step: it is what the step waits for.
pub open spec fn answers(step: StepModel, event: EventModel) -> bool {
    match step {
        StepModel::Wait => event is Ready || event is PollFailed,
        StepModel::Tell(_) => event is Ready || event is PollFailed,
        StepModel::Receive => event is Received,
        StepModel::Write(_) => event is Written,
        StepModel::Read => event is Read,
        StepModel::Forward(_) => event is Forwarded,
        StepModel::End(_) => false,
    }
}

/// The loop that forwards bytes between the debug adapter and its client.
#[derive(Clone, Copy, Debug, PartialEq, Eq, Structural)]
pub struct DapEventLoop {
    /// By which outgoing data is announced on the channel.
    pub dap_outgoing_id: u32,
}

impl DapEventLoop {
    /// What an event of the loop comes to. The loop starts by waiting.
    pub fn event_loop(&self, event: LoopEvent) -> (r: LoopStep)
        ensures
            r@ == loop_step(event@, self.dap_outgoing_id),
    {
        match event {
            LoopEvent::PollFailed(kind) => LoopStep::End(Err(kind)),
            LoopEvent::Ready { token, announced } => match ready(token) {
                Ready::Channel => match on_channel(announced, self.dap_outgoing_id) {
                    ChannelStep::Wait => LoopStep::Wait,
                    ChannelStep::Forward => LoopStep::Receive,
                    ChannelStep::UnknownId(id) => LoopStep::Tell(LoopFault::UnknownId(id)),
                },
                Ready::Tcp => LoopStep::Read,
                Ready::Unknown(token) => LoopStep::Tell(LoopFault::UnknownToken(token)),
            },
            LoopEvent::Received(received) => match on_outgoing(received) {
                OutgoingStep::Write(bytes) => LoopStep::Write(bytes),
                OutgoingStep::Close => LoopStep::End(Ok(())),
            },
            LoopEvent::Written(Ok(_)) => LoopStep::Wait,
            LoopEvent::Written(Err(kind)) => LoopStep::End(Err(kind)),
            LoopEvent::Read(read) => {
                let outcome: Result<usize, IoErrorKind> = match &read {
                    Ok(bytes) => Ok(bytes.len()),
                    Err(kind) => Err(*kind),
                };
                match (on_read(outcome), read) {
                    (ReadStep::Close, _) => LoopStep::End(Ok(())),
                    (ReadStep::Forward(_), Ok(bytes)) => LoopStep::Forward(bytes),
                    (ReadStep::Retry, _) => LoopStep::Read,
                    (ReadStep::Wait, _) => LoopStep::Wait,
                    _ => LoopStep::Tell(LoopFault::ReadFailed),
                }
            },
            LoopEvent::Forwarded { sent } => {
                if sent {
                    LoopStep::Wait
                } else {
                    LoopStep::Tell(LoopFault::ForwardFailed)
                }
            },
        }
    }
}

/// What the loop does next after `events`. It starts by waiting.
pub open spec fn step_after(events: Seq<EventModel>, outgoing_id: u32) -> StepModel {
    if events.len() == 0 {
        StepModel::Wait
    } else {
        loop_step(events.last(), outgoing_id)
    }
}

/// The events are those of a run of the loop: each is what the step before it waits
/// for.
pub open spec fn is_run(events: Seq<EventModel>, outgoing_id: u32) -> bool {
    forall|i: int|
        0 <= i < events.len() ==> answers(
            step_after(events.take(i), outgoing_id),
            #[trigger] events[i],
        )
}

/// What a run of the loop tells to do: one step for each event.
pub open spec fn steps(events: Seq<EventModel>, outgoing_id: u32) -> Seq<StepModel> {
    events.map_values(|e: EventModel| loop_step(e, outgoing_id))
}

/// The bytes that were received from the debug adapter, chunk after chunk.
pub open spec fn received_bytes(events: Seq<EventModel>) -> Seq<u8>
    decreases events.len(),
{
    if events.len() == 0 {
        Seq::empty()
    } else {
        received_bytes(events.drop_last()) + match events.last() {
            EventModel::Received(Some(bytes)) => bytes,
            _ => Seq::empty(),
        }
    }
}

/// The bytes that are written to the client, step after step.
pub open spec fn written_bytes(steps: Seq<StepModel>) -> Seq<u8>
    decreases steps.len(),
{
    if steps.len() == 0 {
        Seq::empty()
    } else {
        written_bytes(steps.drop_last()) + match steps.last() {
            StepModel::Write(bytes) => bytes,
            _ => Seq::empty(),
        }
    }
}

/// The chunks that were read from the client.
pub open spec fn chunks_read(events: Seq<EventModel>) -> Seq<Seq<u8>>
    decreases events.len(),
{
    if events.len() == 0 {
        Seq::empty()
    } else {
        match events.last() {
            EventModel::Read(Ok(bytes)) => if bytes.len() > 0 {
                chunks_read(events.drop_last()).push(bytes)
            } else {
                chunks_read(events.drop_last())
            },
            _ => chunks_read(events.drop_last()),
        }
    }
}

/// The chunks that are sent to the debug adapter.
pub open spec fn chunks_forwarded(steps: Seq<StepModel>) -> Seq<Seq<u8>>
    decreases steps.len(),
{
    if steps.len() == 0 {
        Seq::empty()
    } else {
        match steps.last() {
            StepModel::Forward(bytes) => chunks_forwarded(steps.drop_last()).push(bytes),
            _ => chunks_forwarded(steps.drop_last()),
        }
    }
}

/// Whatever happens in the loop, every chunk of the debug adapter is written to the
/// client, once and in order, and every chunk that is read from the client is sent to
/// the debug adapter as it is, once and in order.
pub proof fn law_chunks_are_forwarded_once(events: Seq<EventModel>, outgoing_id: u32)
    ensures
        written_bytes(steps(events, outgoing_id)) == received_bytes(events),
        chunks_forwarded(steps(events, outgoing_id)) == chunks_read(events),
    decreases events.len(),
{
    if events.len() > 0 {
        let less = events.drop_last();
        law_chunks_are_forwarded_once(less, outgoing_id);
        assert(steps(events, outgoing_id).drop_last() =~= steps(less, outgoing_id));
    }
}

/// A run of the loop ends without an error exactly when the client closed the
/// connection or the debug adapter closed its channel. It ends with an error exactly
/// when waiting or writing failed, and with that error. Nothing happens after the end.
pub proof fn law_what_ends_the_loop(events: Seq<EventModel>, outgoing_id: u32)
    requires
        is_run(events, outgoing_id),
    ensures
        step_after(events, outgoing_id) == StepModel::End(Ok(())) <==> events.len() > 0 && (
        events.last() == EventModel::Received(None) || events.last() == EventModel::Read(
            Ok(Seq::empty()),
        )),
        forall|kind: IoErrorKind|
            #[trigger] is_end(step_after(events, outgoing_id), kind) <==> events.len() > 0 && (
            events.last() == EventModel::PollFailed(kind) || events.last() == EventModel::Written(
                Err(kind),
            )),
        forall|i: int|
            0 < i < events.len() ==> !(step_after(#[trigger] events.take(i), outgoing_id) is End),
{
    assert forall|i: int| 0 < i < events.len() implies !(step_after(
        #[trigger] events.take(i),
        outgoing_id,
    ) is End) by {
        assert(answers(step_after(events.take(i), outgoing_id), events[i]));
    }
    if events.len() > 0 {
        if let EventModel::Read(Ok(bytes)) = events.last() {
            if bytes.len() == 0 {
                assert(bytes =~= Seq::empty());
            }
        }
    }
}

/// The loop ends with this error.
pub open spec fn is_end(step: StepModel, kind: IoErrorKind) -> bool {
    step == StepModel::End(Err(kind))
}

/// What the loop does next. It waits after it has written or forwarded something, and
/// where nothing was announced or nothing can be read yet. An announcement is followed by
/// a receive, bytes at the client's end by a read, and an interrupted read by another one.
pub proof fn law_what_the_loop_does(id: u32, other: u32, token: usize)
    requires
        other != id,
        token != 1,
        token != 2,
    ensures
        loop_step(EventModel::Ready { token: 1, announced: None }, id) == StepModel::Wait,
        loop_step(EventModel::Ready { token: 1, announced: Some(id) }, id) == StepModel::Receive,
        loop_step(EventModel::Ready { token: 1, announced: Some(other) }, id) == StepModel::Tell(
            LoopFault::UnknownId(other),
        ),
        forall|announced: Option<u32>| #[trigger]
            loop_step(EventModel::Ready { token: 2, announced }, id) == StepModel::Read,
        forall|announced: Option<u32>| #[trigger]
            loop_step(EventModel::Ready { token, announced }, id) == StepModel::Tell(
                LoopFault::UnknownToken(token),
            ),
        loop_step(EventModel::Written(Ok(())), id) == StepModel::Wait,
        loop_step(EventModel::Read(Err(IoErrorKind::WouldBlock)), id) == StepModel::Wait,
        loop_step(EventModel::Read(Err(IoErrorKind::Interrupted)), id) == StepModel::Read,
        loop_step(EventModel::Read(Err(IoErrorKind::Other)), id) == StepModel::Tell(
            LoopFault::ReadFailed,
        ),
        loop_step(EventModel::Forwarded { sent: true }, id) == StepModel::Wait,
        loop_step(EventModel::Forwarded { sent: false }, id) == StepModel::Tell(
            LoopFault::ForwardFailed,
        ),
{
}

/// A read of some bytes is forwarded, and one of none closes.
pub proof fn law_reads_are_forwarded(n: usize)
    ensures
        n > 0 ==> read_step(Ok(n)) == ReadStep::Forward(n),
        read_step(Ok(0)) == ReadStep::Close,
        read_step(Err(IoErrorKind::WouldBlock)) == ReadStep::Wait,
        read_step(Err(IoErrorKind::Interrupted)) == ReadStep::Retry,
        read_step(Err(IoErrorKind::Other)) == ReadStep::Fail,
{
}

/// As much of a chunk is taken as there is and as there is room for.
pub proof fn law_how_much_is_taken(chunk: Seq<u8>, room: nat)
    ensures
        taken(Some(chunk), room) <= chunk.len(),
        taken(Some(chunk), room) <= room,
        taken(Some(chunk), room) == chunk.len() || taken(Some(chunk), room) == room,
        taken(None, room) == 0,
{
}

} // verus!
