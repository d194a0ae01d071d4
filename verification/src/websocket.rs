//! The bookkeeping of the actor behind the monitoring websocket.
use vstd::prelude::*;

verus! {

/// How often the statistics are logged, in seconds.
pub const LOG_INTERVAL: u64 = 60;

/// The message to log the statistics.
#[derive(Clone, Copy, Debug, PartialEq, Eq, Structural)]
pub struct LogStats;

/// When the message to log the statistics is sent, in seconds.
#[derive(Clone, Copy, Debug, PartialEq, Eq, Structural)]
pub struct LogSchedule {
    pub initial_delay: u64,
    pub interval: u64,
}

/// The statistics that are logged.
#[derive(Clone, Copy, Debug, PartialEq, Eq, Structural)]
pub struct WebsocketStats {
    pub actor_received_messages_count: usize,
    pub clients: usize,
}

/// The counter of the actor behind the monitoring websocket.
#[derive(Debug)]
pub struct WebsocketHandler {
    /// Count of received messages from the last log.
    pub actor_received_messages_count: usize,
}

impl WebsocketHandler {
    /// The name of the actor.
    pub fn name() -> (r: &'static str)
        ensures
            r@ == "websocket_handler"@,
    {
        "websocket_handler"
    }

    /// An actor that has received nothing.
    pub fn create_args() -> (r: Self)
        ensures
            r.actor_received_messages_count == 0,
    {
        WebsocketHandler { actor_received_messages_count: 0 }
    }

    /// When the message to log the statistics is sent.
    pub fn pre_start(&self) -> (r: LogSchedule)
        ensures
            r == (LogSchedule { initial_delay: 30, interval: 60 }),
            2 * r.initial_delay == LOG_INTERVAL,
    {
        LogSchedule { initial_delay: LOG_INTERVAL / 2, interval: LOG_INTERVAL }
    }

    /// Counts a received message.
    pub fn recv(&mut self)
        requires
            old(self).actor_received_messages_count < usize::MAX,
        ensures
            final(self).actor_received_messages_count == old(self).actor_received_messages_count
                + 1,
    {
        self.actor_received_messages_count = self.actor_received_messages_count + 1;
    }

    /// The count of received messages, which begins anew.
    pub fn get_and_clear_actor_received_messages_count(&mut self) -> (r: usize)
        ensures
            r == old(self).actor_received_messages_count,
            final(self).actor_received_messages_count == 0,
    {
        let count: usize = self.actor_received_messages_count;
        self.actor_received_messages_count = 0;
        count
    }

    /// The statistics since the last log, for the number of clients that are connected; the count
    /// of messages begins anew.
    pub fn receive(&mut self, clients: usize) -> (r: WebsocketStats)
        ensures
            r == (WebsocketStats {
                actor_received_messages_count: old(self).actor_received_messages_count,
                clients,
            }),
            final(self).actor_received_messages_count == 0,
    {
        let actor_received_messages_count: usize =
            self.get_and_clear_actor_received_messages_count();
        WebsocketStats { actor_received_messages_count, clients }
    }
}

} // verus!
