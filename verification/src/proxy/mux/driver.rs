//! The loop that drives the client side of a tunnel.

use vstd::prelude::*;

verus! {

/// What the loop does next.
#[derive(Debug, Clone, Copy, PartialEq, Eq, Structural)]
pub enum DriverAction {
    /// Poll the queue of requests for a stream.
    PollQueue,
    /// Tell whether the requester of the request at hand has given up.
    ExamineRequest,
    /// Poll the session for a new outbound stream; if there is an answer, send it to the
    /// requester.
    PollOutbound,
    /// Poll the session for inbound streams. This moves the data of every stream.
    PollInbound,
    /// Wait to be woken.
    Yield,
    /// The tunnel has ended.
    Finish,
}

/// What came of the action.
#[derive(Debug, Clone, Copy, PartialEq, Eq, Structural)]
pub enum DriverEvent {
    /// The loop was woken.
    Woken,
    /// The queue handed out a request.
    Request,
    /// The queue was closed for good.
    QueueClosed,
    /// The queue has nothing now.
    QueueEmpty,
    /// The requester has given up; the request was dropped.
    RequestAbandoned,
    /// The requester waits.
    RequestAlive,
    /// The session answered, and the requester has the answer.
    Answered,
    /// The session has no answer yet.
    OutboundPending,
    /// The peer opened a stream, which a server must not do; it was dropped.
    UnexpectedStream,
    /// The session failed or was closed.
    SessionEnded,
    /// Nothing comes in now.
    InboundPending,
}

/// The state of the loop.
#[derive(Debug, Clone, Copy, PartialEq, Eq, Structural)]
pub struct TunnelDriver {
    /// A request is at hand that has no answer yet.
    pub pending: bool,
    /// No request will come any more.
    pub queue_closed: bool,
    /// What the loop does now.
    pub action: DriverAction,
}

/// Where the loop goes to serve requests: to the request at hand, to the queue, or on to the
/// session.
pub open spec fn serving(pending: bool, queue_closed: bool) -> TunnelDriver {
    TunnelDriver {
        pending,
        queue_closed,
        action: if pending {
            DriverAction::ExamineRequest
        } else if !queue_closed {
            DriverAction::PollQueue
        } else {
            DriverAction::PollInbound
        },
    }
}

/// The loop after an event. An event that does not answer the action at hand changes nothing.
pub open spec fn driver_step(driver: TunnelDriver, event: DriverEvent) -> TunnelDriver {
    match (driver.action, event) {
        (DriverAction::Yield, DriverEvent::Woken) => serving(driver.pending, driver.queue_closed),
        (DriverAction::PollQueue, DriverEvent::Request) => serving(true, driver.queue_closed),
        (DriverAction::PollQueue, DriverEvent::QueueClosed) => serving(false, true),
        (DriverAction::PollQueue, DriverEvent::QueueEmpty) => TunnelDriver {
            action: DriverAction::PollInbound,
            ..driver
        },
        (DriverAction::ExamineRequest, DriverEvent::RequestAbandoned) => serving(
            false,
            driver.queue_closed,
        ),
        (DriverAction::ExamineRequest, DriverEvent::RequestAlive) => TunnelDriver {
            action: DriverAction::PollOutbound,
            ..driver
        },
        (DriverAction::PollOutbound, DriverEvent::Answered) => serving(
            false,
            driver.queue_closed,
        ),
        (DriverAction::PollOutbound, DriverEvent::OutboundPending) => TunnelDriver {
            action: DriverAction::PollInbound,
            ..driver
        },
        (DriverAction::PollInbound, DriverEvent::SessionEnded) => TunnelDriver {
            action: DriverAction::Finish,
            ..driver
        },
        (DriverAction::PollInbound, DriverEvent::InboundPending) => TunnelDriver {
            action: DriverAction::Yield,
            ..driver
        },
        _ => driver,
    }
}

impl TunnelDriver {
    /// A loop that has not begun.
    pub fn new() -> (driver: Self)
        ensures
            driver == (TunnelDriver {
                pending: false,
                queue_closed: false,
                action: DriverAction::Yield,
            }),
    {
        TunnelDriver { pending: false, queue_closed: false, action: DriverAction::Yield }
    }

    /// Goes on after an event.
    pub fn step(&mut self, event: DriverEvent) -> (action: DriverAction)
        ensures
            *final(self) == driver_step(*old(self), event),
            action == final(self).action,
    {
        match (self.action, event) {
            (DriverAction::Yield, DriverEvent::Woken) => {
                self.serve();
            },
            (DriverAction::PollQueue, DriverEvent::Request) => {
                self.pending = true;
                self.serve();
            },
            (DriverAction::PollQueue, DriverEvent::QueueClosed) => {
                self.pending = false;
                self.queue_closed = true;
                self.serve();
            },
            (DriverAction::PollQueue, DriverEvent::QueueEmpty) => {
                self.action = DriverAction::PollInbound;
            },
            (DriverAction::ExamineRequest, DriverEvent::RequestAbandoned) => {
                self.pending = false;
                self.serve();
            },
            (DriverAction::ExamineRequest, DriverEvent::RequestAlive) => {
                self.action = DriverAction::PollOutbound;
            },
            (DriverAction::PollOutbound, DriverEvent::Answered) => {
                self.pending = false;
                self.serve();
            },
            (DriverAction::PollOutbound, DriverEvent::OutboundPending) => {
                self.action = DriverAction::PollInbound;
            },
            (DriverAction::PollInbound, DriverEvent::SessionEnded) => {
                self.action = DriverAction::Finish;
            },
            (DriverAction::PollInbound, DriverEvent::InboundPending) => {
                self.action = DriverAction::Yield;
            },
            _ => {},
        }
        self.action
    }

    fn serve(&mut self)
        ensures
            *final(self) == serving(old(self).pending, old(self).queue_closed),
    {
        self.action = if self.pending {
            DriverAction::ExamineRequest
        } else if !self.queue_closed {
            DriverAction::PollQueue
        } else {
            DriverAction::PollInbound
        };
    }
}

} // verus!
