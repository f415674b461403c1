//! The live statistics feed: the per-subscriber protocol state machine.
//!
//! A subscriber holds a persistent bidirectional connection.  The engine
//! side probes it with heartbeats at a configured interval and tears the
//! connection down when a probe stays unanswered past the configured
//! timeout; statistics broadcast for each closed second are forwarded,
//! filtered to one measurement type when the subscription asks for it.
//! The connection driver performs the actual sends and receives and feeds
//! every event through [`FeedConn::feed_step`], which decides the next
//! state and action.

use vstd::prelude::*;
use crate::engine::AllStatsForPeriod;
use crate::query::{MeasurementType, StatsResponseForPeriod, spec_response_of};

verus! {

/// An incoming message on a live-feed connection.
pub enum WsIncoming {
    /// A heartbeat probe from the peer, to be answered with its payload.
    Ping(Vec<u8>),
    /// The peer's answer to a heartbeat probe.
    Pong,
    /// The peer closed the connection.
    Close,
    /// Unexpected application text data.
    Text,
    /// Unexpected application binary data.
    Binary,
    /// The connection reported an error.
    Error,
}

/// One event on a live-feed connection.
pub enum FeedEvent {
    /// The heartbeat probe timer fired.
    PingTick,
    /// The heartbeat timeout check timer fired.
    TimeoutTick,
    /// A message arrived from the subscriber.
    Message(WsIncoming),
    /// The engine broadcast the statistics of one closed second.
    Stats(AllStatsForPeriod),
}

/// The statistics delivered to one subscriber for one closed second:
/// either the one filtered measurement type, or all three.
#[derive(Debug, PartialEq, Eq, Structural)]
pub enum FeedPayload {
    /// The statistics of the one subscribed measurement type.
    Single(StatsResponseForPeriod),
    /// The statistics of all three measurement types.
    Full {
        /// The response times for the closed second.
        times: StatsResponseForPeriod,
        /// The open connections for the closed second.
        connections: StatsResponseForPeriod,
        /// The memory usage for the closed second.
        memory: StatsResponseForPeriod,
    },
}

/// What the connection driver must do next.
pub enum FeedAction {
    /// Send a heartbeat probe to the subscriber.
    SendPing,
    /// Answer the subscriber's heartbeat probe, echoing its payload.
    SendPong(Vec<u8>),
    /// Deliver one closed second's statistics.
    SendStats(FeedPayload),
    /// Tear the connection down.
    Disconnect,
    /// Nothing to send; unexpected input is only logged.
    Ignore,
}

/// The heartbeat and filter state of one live-feed connection.
pub struct FeedConn {
    /// The measurement filter of the subscription; all three when absent.
    pub scope: Option<MeasurementType>,
    /// When the last heartbeat probe was sent (monotonic milliseconds), if
    /// one has been sent.
    pub last_ping: Option<u64>,
    /// When the last heartbeat answer was seen, monotonic milliseconds.
    pub last_pong: u64,
    /// How long a probe may stay unanswered before the peer counts as
    /// dead, in milliseconds.
    pub ping_timeout: u64,
}

/// Whether the connection's heartbeat has timed out at `now`: a probe was
/// sent, no answer has been seen since it, and the timeout has passed.
pub open spec fn spec_timed_out(conn: FeedConn, now: u64) -> bool {
    match conn.last_ping {
        Some(t) => conn.last_pong < t && now > t + conn.ping_timeout,
        None => false,
    }
}

/// The payload delivered for one broadcast message under the subscription's
/// filter.
pub open spec fn spec_payload(scope: Option<MeasurementType>, data: AllStatsForPeriod) -> FeedPayload {
    match scope {
        Some(MeasurementType::Times) => FeedPayload::Single(spec_response_of(data.times)),
        Some(MeasurementType::Connections) => FeedPayload::Single(
            spec_response_of(data.connections),
        ),
        Some(MeasurementType::Memory) => FeedPayload::Single(spec_response_of(data.memory)),
        None => FeedPayload::Full {
            times: spec_response_of(data.times),
            connections: spec_response_of(data.connections),
            memory: spec_response_of(data.memory),
        },
    }
}

impl FeedConn {
    /// A fresh connection: no probe sent yet, and the peer counted as
    /// having answered at `now`.
    pub fn new(scope: Option<MeasurementType>, ping_timeout: u64, now: u64) -> (r: FeedConn)
        ensures
            r.scope == scope,
            r.last_ping is None,
            r.last_pong == now,
            r.ping_timeout == ping_timeout,
    {
        FeedConn { scope, last_ping: None, last_pong: now, ping_timeout }
    }

    /// Handles one event on the connection, returning the action the driver
    /// must perform: probe ticks send a heartbeat and record its time;
    /// timeout ticks disconnect exactly when a probe has stayed unanswered
    /// past the timeout; the peer's probes are answered and its answers
    /// recorded; a close or an error ends the connection; unexpected
    /// application data is ignored (logged by the driver); and each
    /// broadcast message is forwarded under the subscription's filter.
    pub fn feed_step(&mut self, event: FeedEvent, now: u64) -> (action: FeedAction)
        ensures
            ({
                match event {
                    FeedEvent::PingTick => *final(self) == (FeedConn {
                        last_ping: Some(now),
                        ..*old(self)
                    }) && action == FeedAction::SendPing,
                    FeedEvent::TimeoutTick => *final(self) == *old(self) && action == (
                    if spec_timed_out(*old(self), now) {
                        FeedAction::Disconnect
                    } else {
                        FeedAction::Ignore
                    }),
                    FeedEvent::Message(msg) => match msg {
                        WsIncoming::Ping(payload) => *final(self) == *old(self) && action
                            == FeedAction::SendPong(payload),
                        WsIncoming::Pong => *final(self) == (FeedConn {
                            last_pong: now,
                            ..*old(self)
                        }) && action == FeedAction::Ignore,
                        WsIncoming::Close => *final(self) == *old(self) && action
                            == FeedAction::Disconnect,
                        WsIncoming::Text => *final(self) == *old(self) && action
                            == FeedAction::Ignore,
                        WsIncoming::Binary => *final(self) == *old(self) && action
                            == FeedAction::Ignore,
                        WsIncoming::Error => *final(self) == *old(self) && action
                            == FeedAction::Disconnect,
                    },
                    FeedEvent::Stats(data) => *final(self) == *old(self) && action
                        == FeedAction::SendStats(spec_payload(old(self).scope, data)),
                }
            }),
    {
        match event {
            FeedEvent::PingTick => {
                self.last_ping = Some(now);
                FeedAction::SendPing
            },
            FeedEvent::TimeoutTick => {
                let timed_out: bool = match self.last_ping {
                    Some(t) => self.last_pong < t && now >= t && now - t > self.ping_timeout,
                    None => false,
                };
                if timed_out {
                    FeedAction::Disconnect
                } else {
                    FeedAction::Ignore
                }
            },
            FeedEvent::Message(msg) => match msg {
                WsIncoming::Ping(payload) => FeedAction::SendPong(payload),
                WsIncoming::Pong => {
                    self.last_pong = now;
                    FeedAction::Ignore
                },
                WsIncoming::Close => FeedAction::Disconnect,
                WsIncoming::Text => FeedAction::Ignore,
                WsIncoming::Binary => FeedAction::Ignore,
                WsIncoming::Error => FeedAction::Disconnect,
            },
            FeedEvent::Stats(data) => {
                let payload = match self.scope {
                    Some(MeasurementType::Times) => FeedPayload::Single(
                        StatsResponseForPeriod::from(data.times),
                    ),
                    Some(MeasurementType::Connections) => FeedPayload::Single(
                        StatsResponseForPeriod::from(data.connections),
                    ),
                    Some(MeasurementType::Memory) => FeedPayload::Single(
                        StatsResponseForPeriod::from(data.memory),
                    ),
                    None => FeedPayload::Full {
                        times: StatsResponseForPeriod::from(data.times),
                        connections: StatsResponseForPeriod::from(data.connections),
                        memory: StatsResponseForPeriod::from(data.memory),
                    },
                };
                FeedAction::SendStats(payload)
            },
        }
    }
}

} // verus!
