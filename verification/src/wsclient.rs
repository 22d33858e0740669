//! Bookkeeping of a persistent subscription session: request ids,
//! pending and active subscriptions, and the routing decisions for
//! server messages. The socket itself lives outside; this state drives
//! it.

use vstd::prelude::*;

verus! {

/// Seconds of silence after which the session pings the server.
pub const HEARTBEAT_IDLE_SECS: u64 = 5;

/// Whether the heartbeat fires: a ping goes out once nothing has been
/// sent or received for the idle window.
pub fn should_send_ping(idle_secs: u64) -> (r: bool)
    ensures
        r == (idle_secs >= HEARTBEAT_IDLE_SECS),
{
    idle_secs >= HEARTBEAT_IDLE_SECS
}

/// Connection phases of the session.
#[derive(Clone, Copy, PartialEq, Eq, Structural, Debug)]
pub enum ConnectionStatus {
    Connected,
    Reconnecting,
    /// Only until the first connection.
    Disconnected,
}

impl Default for ConnectionStatus {
    fn default() -> (r: Self)
        ensures
            r == ConnectionStatus::Disconnected,
    {
        Self::Disconnected
    }
}

/// The two subscription kinds the session multiplexes.
#[derive(Clone, Copy, PartialEq, Eq, Structural, Debug)]
pub enum SubscriptionMethod {
    Slot,
    Program,
}

/// What to do with a server notification for a subscription id.
#[derive(Clone, Copy, PartialEq, Eq, Structural, Debug)]
pub enum NotificationRoute {
    /// The id is known: hand the payload to its stream.
    Forward,
    /// The id is unknown or its stream is gone: tell the server to
    /// unsubscribe it.
    Unsubscribe,
}

/// Whether an id is a key of the registry.
pub open spec fn has_key(entries: Seq<(u64, SubscriptionMethod)>, id: u64) -> bool {
    exists|i: int| 0 <= i < entries.len() && (#[trigger] entries[i]).0 == id
}

/// The session's subscription ledger.
pub struct WsSession {
    /// Monotonically increasing per-message id; starts over on
    /// reconnect.
    pub request_id: u64,
    /// Requests sent and awaiting the server's confirmation.
    pub pending_subscriptions: Vec<(u64, SubscriptionMethod)>,
    /// Confirmed subscriptions by their server-assigned id.
    pub active_subscriptions: Vec<(u64, SubscriptionMethod)>,
}

impl WsSession {
    /// A fresh session at its first connection.
    pub fn new() -> (r: WsSession)
        ensures
            r.request_id == 1,
            r.pending_subscriptions@.len() == 0,
            r.active_subscriptions@.len() == 0,
    {
        WsSession { request_id: 1, pending_subscriptions: Vec::new(), active_subscriptions: Vec::new() }
    }

    /// Record an outgoing subscribe request and take its request id.
    pub fn begin_subscribe(&mut self, method: SubscriptionMethod) -> (r: u64)
        requires
            old(self).request_id < u64::MAX,
        ensures
            r == old(self).request_id,
            final(self).request_id == old(self).request_id + 1,
            final(self).pending_subscriptions@ == old(self).pending_subscriptions@.push(
                (r, method),
            ),
            final(self).active_subscriptions == old(self).active_subscriptions,
    {
        let id = self.request_id;
        self.request_id = self.request_id + 1;
        self.pending_subscriptions.push((id, method));
        id
    }

    /// The server confirmed a request: move it from pending to active
    /// under its subscription id. Returns the method, or `None` for a
    /// confirmation nobody asked for.
    pub fn confirm_subscription(&mut self, request_id: u64, subscription_id: u64) -> (r: Option<
        SubscriptionMethod,
    >)
        ensures
            match r {
                Some(method) => {
                    &&& has_key(old(self).pending_subscriptions@, request_id)
                    &&& final(self).active_subscriptions@ == old(
                        self,
                    ).active_subscriptions@.push((subscription_id, method))
                    &&& final(self).pending_subscriptions@.len() == old(
                        self,
                    ).pending_subscriptions@.len() - 1
                },
                None => !has_key(old(self).pending_subscriptions@, request_id) && *final(self)
                    == *old(self),
            },
            final(self).request_id == old(self).request_id,
    {
        let n = self.pending_subscriptions.len();
        let mut i: usize = 0;
        while i < n
            invariant
                0 <= i <= n,
                self == old(self),
                n == self.pending_subscriptions@.len(),
                forall|k: int|
                    0 <= k < i ==> (#[trigger] self.pending_subscriptions@[k]).0 != request_id,
            decreases n - i,
        {
            let entry = self.pending_subscriptions[i];
            if entry.0 == request_id {
                let _ = self.pending_subscriptions.remove(i);
                self.active_subscriptions.push((subscription_id, entry.1));
                return Some(entry.1);
            }
            i = i + 1;
        }
        None
    }

    /// Route a server notification by its subscription id.
    pub fn route_notification(&self, subscription_id: u64) -> (r: NotificationRoute)
        ensures
            r == (if has_key(self.active_subscriptions@, subscription_id) {
                NotificationRoute::Forward
            } else {
                NotificationRoute::Unsubscribe
            }),
    {
        let n = self.active_subscriptions.len();
        let mut i: usize = 0;
        while i < n
            invariant
                0 <= i <= n,
                n == self.active_subscriptions@.len(),
                forall|k: int|
                    0 <= k < i ==> (#[trigger] self.active_subscriptions@[k]).0
                        != subscription_id,
            decreases n - i,
        {
            if self.active_subscriptions[i].0 == subscription_id {
                return NotificationRoute::Forward;
            }
            i = i + 1;
        }
        NotificationRoute::Unsubscribe
    }

    /// Forget a subscription whose stream is gone or that the caller
    /// cancelled; returns whether it was active.
    pub fn drop_subscription(&mut self, subscription_id: u64) -> (r: bool)
        ensures
            r == has_key(old(self).active_subscriptions@, subscription_id),
            !r ==> *final(self) == *old(self),
            r ==> final(self).active_subscriptions@.len() == old(
                self,
            ).active_subscriptions@.len() - 1,
            final(self).request_id == old(self).request_id,
            final(self).pending_subscriptions == old(self).pending_subscriptions,
    {
        let n = self.active_subscriptions.len();
        let mut i: usize = 0;
        while i < n
            invariant
                0 <= i <= n,
                self == old(self),
                n == self.active_subscriptions@.len(),
                forall|k: int|
                    0 <= k < i ==> (#[trigger] self.active_subscriptions@[k]).0
                        != subscription_id,
            decreases n - i,
        {
            if self.active_subscriptions[i].0 == subscription_id {
                let _ = self.active_subscriptions.remove(i);
                return true;
            }
            i = i + 1;
        }
        false
    }

    /// Start over after a reconnect: fresh request ids, no active
    /// subscriptions. Pending requests are not re-issued; their
    /// streams surface as closed and the callers resubscribe.
    pub fn reset_on_reconnect(&mut self)
        ensures
            final(self).request_id == 1,
            final(self).active_subscriptions@.len() == 0,
            final(self).pending_subscriptions == old(self).pending_subscriptions,
    {
        self.request_id = 1;
        self.active_subscriptions = Vec::new();
    }
}

} // verus!
