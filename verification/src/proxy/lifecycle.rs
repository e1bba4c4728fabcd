//! What both proxies do from start to stop: listen, admit connections, and drain.

use vstd::prelude::*;

use crate::common::constants::timeouts;
use crate::metrics;
use crate::metrics::InterlinkMetrics;

verus! {

/// How a proxy starts.
#[derive(Debug, Clone, Copy, PartialEq, Eq, Structural)]
pub enum Startup {
    /// The port is 0: the proxy is switched off.
    Disabled,
    /// No acceptor could bind its port.
    NotStarted,
    /// This many acceptors listen.
    Listening(usize),
}

/// Whether a proxy binds its port at all. Port 0 switches it off: it would stand for a port that
/// nobody asked for.
pub fn wants_listeners(listen_port: u16) -> (wanted: bool)
    ensures
        wanted == (listen_port != 0),
{
    listen_port != 0
}

/// The number of attempts that succeeded.
pub open spec fn successes(bound: Seq<bool>) -> nat
    decreases bound.len(),
{
    if bound.len() == 0 {
        0
    } else {
        successes(bound.drop_last()) + if bound.last() {
            1nat
        } else {
            0
        }
    }
}

/// How a proxy starts once its acceptors tried to bind: a failed one is left out, and without any
/// the proxy does not start.
pub fn startup(listen_port: u16, bound: &Vec<bool>) -> (start: Startup)
    ensures
        start == if listen_port == 0 {
            Startup::Disabled
        } else if successes(bound@) == 0 {
            Startup::NotStarted
        } else {
            Startup::Listening(successes(bound@) as usize)
        },
{
    if listen_port == 0 {
        return Startup::Disabled;
    }
    let mut listening: usize = 0;
    let mut i: usize = 0;
    while i < bound.len()
        invariant
            i <= bound@.len(),
            listening <= i,
            listening == successes(bound@.take(i as int)),
        decreases bound@.len() - i,
    {
        assert(bound@.take(i + 1).drop_last() =~= bound@.take(i as int));
        if bound[i] {
            listening = listening + 1;
        }
        i = i + 1;
    }
    assert(bound@.take(bound@.len() as int) =~= bound@);
    if listening == 0 {
        Startup::NotStarted
    } else {
        Startup::Listening(listening)
    }
}

/// What an acceptor hears.
#[derive(Debug, Clone, Copy, PartialEq, Eq, Structural)]
pub enum AcceptorEvent {
    /// A connection came in.
    Accepted,
    /// Accepting failed.
    Failed,
    /// The proxy is to stop.
    Shutdown,
}

/// What an acceptor does.
#[derive(Debug, Clone, Copy, PartialEq, Eq, Structural)]
pub enum AcceptorAction {
    /// Handle the connection, then listen on.
    Handle,
    /// Listen on.
    Listen,
    /// Stop listening.
    Stop,
}

/// Goes on in the loop of an acceptor: an error does not end it, a shutdown does.
pub fn acceptor_step(event: AcceptorEvent) -> (action: AcceptorAction)
    ensures
        action == match event {
            AcceptorEvent::Accepted => AcceptorAction::Handle,
            AcceptorEvent::Failed => AcceptorAction::Listen,
            AcceptorEvent::Shutdown => AcceptorAction::Stop,
        },
{
    match event {
        AcceptorEvent::Accepted => AcceptorAction::Handle,
        AcceptorEvent::Failed => AcceptorAction::Listen,
        AcceptorEvent::Shutdown => AcceptorAction::Stop,
    }
}

/// How many connections a proxy serves, and how many it may.
#[derive(Debug, Clone, Copy, PartialEq, Eq, Structural)]
pub struct ConnectionLimit {
    pub active: usize,
    pub limit: usize,
}

impl ConnectionLimit {
    /// No more connections than allowed.
    pub open spec fn within(self) -> bool {
        self.active <= self.limit
    }

    pub fn new(limit: usize) -> (connections: Self)
        ensures
            connections == (ConnectionLimit { active: 0, limit }),
    {
        ConnectionLimit { active: 0, limit }
    }

    /// Lets a connection in, unless the limit is reached: then it is rejected at once, so that the
    /// acceptor never waits.
    pub fn enter(&mut self, metrics: &mut InterlinkMetrics) -> (entered: bool)
        ensures
            entered == (old(self).active < old(self).limit),
            entered ==> *final(self) == (ConnectionLimit {
                active: (old(self).active + 1) as usize,
                limit: old(self).limit,
            }) && *final(metrics) == *old(metrics),
            !entered ==> *final(self) == *old(self) && *final(metrics)
                == metrics::after_saturation_rejection(*old(metrics)),
            old(self).within() ==> final(self).within(),
    {
        if self.active < self.limit {
            self.active = self.active + 1;
            true
        } else {
            metrics::record_saturation_rejection(metrics);
            false
        }
    }

    /// Gives the place of a connection back.
    pub fn leave(&mut self)
        requires
            old(self).active > 0,
        ensures
            *final(self) == (ConnectionLimit {
                active: (old(self).active - 1) as usize,
                limit: old(self).limit,
            }),
    {
        self.active = self.active - 1;
    }
}

/// What a proxy does that waits for its connections to end.
#[derive(Debug, Clone, Copy, PartialEq, Eq, Structural)]
pub enum Drain {
    /// All have ended.
    Complete,
    /// The grace period is over; this many go on.
    Expired(usize),
    /// Look again after this many milliseconds.
    Wait(u64),
}

/// The time in milliseconds at which the grace period ends that begins now.
pub fn drain_deadline(now_millis: u64) -> (deadline: u64)
    requires
        now_millis + 1000 * timeouts::SHUTDOWN_GRACE <= u64::MAX,
    ensures
        deadline == now_millis + 1000 * timeouts::SHUTDOWN_GRACE,
{
    now_millis + 1000 * timeouts::SHUTDOWN_GRACE
}

/// Goes on with a graceful shutdown.
pub fn drain_step(active: usize, now_millis: u64, deadline: u64) -> (drain: Drain)
    ensures
        drain == if active == 0 {
            Drain::Complete
        } else if now_millis >= deadline {
            Drain::Expired(active)
        } else {
            Drain::Wait(100)
        },
{
    if active == 0 {
        Drain::Complete
    } else if now_millis >= deadline {
        Drain::Expired(active)
    } else {
        Drain::Wait(100)
    }
}

} // verus!
