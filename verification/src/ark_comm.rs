//! The comm of the kernel itself, by which raw comms are tested.
use vstd::prelude::*;

verus! {

#[derive(Clone, Copy, Debug, PartialEq, Eq, Structural)]
pub struct TestParams {
    pub i: i32,
}

#[derive(Clone, Copy, Debug, PartialEq, Eq, Structural)]
pub enum ArkBackendEvent {
    TestNotification(TestParams),
}

#[derive(Clone, Copy, Debug, PartialEq, Eq, Structural)]
pub enum ArkFrontendEvent {
    TestNotification(TestParams),
}

#[derive(Clone, Copy, Debug, PartialEq, Eq, Structural)]
pub enum ArkBackendRequest {
    TestRequest(TestParams),
}

#[derive(Clone, Copy, Debug, PartialEq, Eq, Structural)]
pub enum ArkBackendReply {
    TestReply(TestParams),
}

/// What comes in on the comm.
#[derive(Clone, Copy, Debug, PartialEq, Eq, Structural)]
pub enum Received {
    /// Nothing more: the other side is gone.
    Disconnected,
    /// An event. None if it is none that the comm knows.
    Event(Option<ArkBackendEvent>),
    /// A request. None if it is none that the comm knows.
    Request(Option<ArkBackendRequest>),
    Close,
}

/// What is done about it.
#[derive(Clone, Copy, Debug, PartialEq, Eq, Structural)]
pub enum Done {
    Send(ArkFrontendEvent),
    Reply(ArkBackendReply),
    /// The request is refused.
    Refuse,
    /// The event is passed over.
    Skip,
    /// The comm ends.
    Stop,
}

/// The number of a message.
pub open spec fn negatable(received: Received) -> bool {
    match received {
        Received::Event(Some(ArkBackendEvent::TestNotification(p))) => p.i != i32::MIN,
        Received::Request(Some(ArkBackendRequest::TestRequest(p))) => p.i != i32::MIN,
        _ => true,
    }
}

/// The comm of the kernel itself.
#[derive(Debug)]
pub struct ArkComm {
    pub closed: bool,
}

/// What is done with what was received. Nothing more is done once the comm is closed.
pub open spec fn done(closed: bool, received: Received) -> Done {
    if closed {
        Done::Stop
    } else {
        match received {
            Received::Disconnected => Done::Stop,
            Received::Close => Done::Stop,
            Received::Event(None) => Done::Skip,
            Received::Request(None) => Done::Refuse,
            Received::Event(Some(ArkBackendEvent::TestNotification(p))) => Done::Send(
                ArkFrontendEvent::TestNotification(TestParams { i: (-p.i) as i32 }),
            ),
            Received::Request(Some(ArkBackendRequest::TestRequest(p))) => Done::Reply(
                ArkBackendReply::TestReply(TestParams { i: (-p.i) as i32 }),
            ),
        }
    }
}

impl ArkComm {
    /// A comm that was just opened.
    pub fn handle_comm_open() -> (r: Self)
        ensures
            !r.closed,
    {
        Self { closed: false }
    }

    /// The event that an event is answered with: the number is negated.
    pub fn handle_event(event: ArkBackendEvent) -> (r: ArkFrontendEvent)
        requires
            negatable(Received::Event(Some(event))),
        ensures
            match (event, r) {
                (
                    ArkBackendEvent::TestNotification(p),
                    ArkFrontendEvent::TestNotification(q),
                ) => q.i == -p.i,
            },
    {
        match event {
            ArkBackendEvent::TestNotification(p) => ArkFrontendEvent::TestNotification(
                TestParams { i: -p.i },
            ),
        }
    }

    /// The reply to a request: the number is negated.
    pub fn handle_rpc(request: ArkBackendRequest) -> (r: ArkBackendReply)
        requires
            negatable(Received::Request(Some(request))),
        ensures
            match (request, r) {
                (ArkBackendRequest::TestRequest(p), ArkBackendReply::TestReply(q)) => q.i == -p.i,
            },
    {
        match request {
            ArkBackendRequest::TestRequest(p) => ArkBackendReply::TestReply(
                TestParams { i: -p.i },
            ),
        }
    }

    /// What is done about what comes in. Nothing is done any more once the comm is
    /// closed.
    pub fn process_messages(&self, received: Received) -> (r: Done)
        requires
            negatable(received),
        ensures
            r == done(self.closed, received),
    {
        if self.closed {
            return Done::Stop;
        }
        match received {
            Received::Disconnected => Done::Stop,
            Received::Close => Done::Stop,
            Received::Event(Some(event)) => Done::Send(Self::handle_event(event)),
            Received::Event(None) => Done::Skip,
            Received::Request(Some(request)) => Done::Reply(Self::handle_rpc(request)),
            Received::Request(None) => Done::Refuse,
        }
    }

    /// An event was sent, or could not be. The comm is closed if it could not.
    pub fn send_event(&mut self, sent: bool)
        ensures
            final(self).closed == (old(self).closed || !sent),
    {
        if !sent {
            self.closed = true;
        }
    }
}

/// A number that is sent twice comes back as it was.
pub proof fn law_negated_twice(p: TestParams)
    requires
        p.i != i32::MIN,
    ensures
        ({
            let q = TestParams { i: (-p.i) as i32 };
            TestParams { i: (-q.i) as i32 } == p
        }),
{
}

/// A number that is sent comes back negated: with an event of its own if it came with an
/// event, and with a reply if it came with a request.
pub proof fn law_numbers_come_back_negated(p: TestParams)
    requires
        p.i != i32::MIN,
    ensures
        done(false, Received::Event(Some(ArkBackendEvent::TestNotification(p)))) matches Done::Send(
            ArkFrontendEvent::TestNotification(q),
        ) && q.i + p.i == 0,
        done(false, Received::Request(Some(ArkBackendRequest::TestRequest(p)))) matches Done::Reply(
            ArkBackendReply::TestReply(q),
        ) && q.i + p.i == 0,
{
}

/// The comm stops once it is closed, from either side. Only a request that is not
/// understood is answered that it failed.
pub proof fn law_when_the_comm_stops(closed: bool, received: Received)
    ensures
        done(closed, received) == Done::Stop <==> closed || received == Received::Disconnected
            || received == Received::Close,
        done(closed, received) == Done::Refuse <==> !closed && received == Received::Request(None),
        done(closed, received) == Done::Skip <==> !closed && received == Received::Event(None),
        done(closed, received) is Send <==> !closed && (received matches Received::Event(e) && e
            is Some),
        done(closed, received) is Reply <==> !closed && (received matches Received::Request(e) && e
            is Some),
{
}

} // verus!
