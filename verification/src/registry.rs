//! Per-connection subscription registry.
//!
//! Each connection session owns exactly one [`WsClient`]; its inbound
//! half mutates it, its outbound half reads it. The registry is a set
//! of [`Channel`]s, viewed in contracts as a `Set<Channel>`.

use vstd::prelude::*;
use crate::text::str_eq;

verus! {

/// A topic a client can subscribe to.
#[derive(Clone, Copy, Debug, PartialEq, Eq, Hash, Structural)]
pub enum Channel {
    Heartbeat,
    Transactions,
}

/// The channel a command's `channel` name designates, if the name is known.
pub open spec fn spec_channel_from_name(name: Seq<char>) -> Option<Channel> {
    if name == "heartbeat"@ {
        Some(Channel::Heartbeat)
    } else if name == "transactions"@ {
        Some(Channel::Transactions)
    } else {
        None
    }
}

impl Channel {
    /// Maps a `channel` name from a command to a known topic; any other
    /// name is rejected.
    pub fn from_name(name: &str) -> (r: Option<Channel>)
        ensures
            r == spec_channel_from_name(name@),
    {
        if str_eq(name, "heartbeat") {
            Some(Channel::Heartbeat)
        } else if str_eq(name, "transactions") {
            Some(Channel::Transactions)
        } else {
            None
        }
    }
}

/// The set of topics one connection currently wants delivered.
///
/// Membership is constant-time; subscribe and unsubscribe are
/// idempotent and never fail.
#[derive(Debug)]
pub struct WsClient {
    heartbeat: bool,
    transactions: bool,
}

impl View for WsClient {
    type V = Set<Channel>;

    closed spec fn view(&self) -> Set<Channel> {
        Set::new(
            |c: Channel|
                match c {
                    Channel::Heartbeat => self.heartbeat,
                    Channel::Transactions => self.transactions,
                },
        )
    }
}

impl Default for WsClient {
    /// A fresh registry subscribes to nothing.
    fn default() -> (r: Self)
        ensures
            r@ == Set::<Channel>::empty(),
    {
        let r = WsClient { heartbeat: false, transactions: false };
        proof {
            assert(r@ =~= Set::<Channel>::empty());
        }
        r
    }
}

impl WsClient {
    /// Adds a channel to the membership set; a no-op if already present.
    pub fn subscribe(&mut self, channel: Channel) -> (r: &Self)
        ensures
            final(self)@ == old(self)@.insert(channel),
            *r == *final(self),
    {
        match channel {
            Channel::Heartbeat => {
                self.heartbeat = true;
            },
            Channel::Transactions => {
                self.transactions = true;
            },
        }
        proof {
            assert(self@ =~= old(self)@.insert(channel));
        }
        self
    }

    /// Removes a channel from the membership set; a no-op if absent.
    pub fn unsubscribe(&mut self, channel: Channel) -> (r: &Self)
        ensures
            final(self)@ == old(self)@.remove(channel),
            *r == *final(self),
    {
        match channel {
            Channel::Heartbeat => {
                self.heartbeat = false;
            },
            Channel::Transactions => {
                self.transactions = false;
            },
        }
        proof {
            assert(self@ =~= old(self)@.remove(channel));
        }
        self
    }

    /// Whether the client currently wants the given channel delivered.
    pub fn is_subscribed(&self, channel: &Channel) -> (r: bool)
        ensures
            r == self@.contains(*channel),
    {
        match channel {
            Channel::Heartbeat => self.heartbeat,
            Channel::Transactions => self.transactions,
        }
    }
}

/// Subscribing is idempotent: a second subscribe to the same channel
/// leaves the membership exactly as one subscribe does.
pub proof fn lemma_subscribe_idempotent(s: Set<Channel>, c: Channel)
    ensures
        s.insert(c).insert(c) == s.insert(c),
{
    assert(s.insert(c).insert(c) =~= s.insert(c));
}

/// Unsubscribing from a channel that is not in the membership set is a
/// no-op: no error, no state change.
pub proof fn lemma_unsubscribe_absent_noop(s: Set<Channel>, c: Channel)
    requires
        !s.contains(c),
    ensures
        s.remove(c) == s,
{
    assert(s.remove(c) =~= s);
}

} // verus!
