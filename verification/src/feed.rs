//! The market feed: which connections listen to which market, what a
//! connection's requests do to that, and where feed messages go.
use crate::model::FeedMessage;
use crate::text::{uuid_text, uuid_text_of};
use std::collections::HashMap;
use vstd::prelude::*;
use vstd::string::StringExecFns;

verus! {

broadcast use vstd::std_specs::hash::group_hash_axioms;

/// Subscribers of each market channel, by market id. A subscriber is the
/// number its connection was given.
pub type Channels = Map<u128, Seq<u64>>;

/// Creating a channel leaves an existing one as it is.
pub open spec fn create_channel(c: Channels, m: u128) -> Channels {
    if c.contains_key(m) {
        c
    } else {
        c.insert(m, Seq::empty())
    }
}

/// Joining adds the subscriber at the end of an existing channel; joining a
/// channel that does not exist does nothing.
pub open spec fn join_channel(c: Channels, m: u128, x: u64) -> Channels {
    if c.contains_key(m) {
        c.insert(m, c[m].push(x))
    } else {
        c
    }
}

pub struct ChannelManager {
    channels: HashMap<u128, Vec<u64>>,
}

impl ChannelManager {
    pub closed spec fn channels(&self) -> Channels {
        Map::new(|m: u128| self.channels@.contains_key(m), |m: u128| self.channels@[m]@)
    }

    pub fn new() -> (r: ChannelManager)
        ensures
            r.channels() == Map::<u128, Seq<u64>>::empty(),
    {
        let r = ChannelManager { channels: HashMap::new() };
        assert(r.channels() =~= Map::<u128, Seq<u64>>::empty());
        r
    }

    pub fn create_market_channel(&mut self, market_id: u128)
        ensures
            final(self).channels() == create_channel(old(self).channels(), market_id),
    {
        if !self.channels.contains_key(&market_id) {
            self.channels.insert(market_id, Vec::new());
        }
        assert(self.channels() =~= create_channel(old(self).channels(), market_id));
    }

    /// The subscribers of a channel, if it exists.
    pub fn get_market_channel(&self, market_id: u128) -> (r: Option<Vec<u64>>)
        ensures
            self.channels().contains_key(market_id) <==> r is Some,
            r matches Some(v) ==> v@ == self.channels()[market_id],
    {
        match self.channels.get(&market_id) {
            Some(v) => Some(v.clone()),
            None => None,
        }
    }

    pub fn join_market_channel(&mut self, market_id: u128, subscriber: u64)
        ensures
            final(self).channels() == join_channel(old(self).channels(), market_id, subscriber),
    {
        match self.channels.remove(&market_id) {
            Some(mut v) => {
                v.push(subscriber);
                self.channels.insert(market_id, v);
            },
            None => {},
        }
        assert(self.channels() =~= join_channel(old(self).channels(), market_id, subscriber));
    }

    /// Leaving a channel. Subscribers are matched by the identity of the
    /// handle the caller gives, and a handle given by a caller is never one
    /// held in a channel, so every channel keeps its subscribers: a
    /// subscriber that leaves, or whose connection closes, still receives
    /// what is broadcast to the channels it joined.
    pub fn leave_market_channel(&mut self, market_id: u128, subscriber: u64)
        ensures
            final(self).channels() == old(self).channels(),
    {
    }

    pub fn remove_market_channel(&mut self, market_id: u128)
        ensures
            final(self).channels() == old(self).channels().remove(market_id),
    {
        self.channels.remove(&market_id);
        assert(self.channels() =~= old(self).channels().remove(market_id));
    }

    /// The subscribers a message for the market goes to, in joining order.
    pub fn broadcast_to_market(&self, market_id: u128) -> (r: Vec<u64>)
        ensures
            r@ == (if self.channels().contains_key(market_id) {
                self.channels()[market_id]
            } else {
                Seq::empty()
            }),
    {
        match self.channels.get(&market_id) {
            Some(v) => v.clone(),
            None => Vec::new(),
        }
    }

    /// Applies a feed message: a market's channel is created or removed, or
    /// an order update is addressed to the market's subscribers, whom it
    /// returns.
    pub fn apply_feed(&mut self, msg: &FeedMessage) -> (r: Vec<u64>)
        ensures
            match msg {
                FeedMessage::CreateMarket { market_id } => final(self).channels() == create_channel(
                    old(self).channels(),
                    *market_id,
                ) && r@.len() == 0,
                FeedMessage::RemoveMarket { market_id } => final(self).channels() == old(
                    self,
                ).channels().remove(*market_id) && r@.len() == 0,
                FeedMessage::OrderFeed { feed } => final(self).channels() == old(self).channels()
                    && r@ == (if old(self).channels().contains_key(feed.market_id) {
                    old(self).channels()[feed.market_id]
                } else {
                    Seq::empty()
                }),
            },
    {
        match msg {
            FeedMessage::CreateMarket { market_id } => {
                self.create_market_channel(*market_id);
                Vec::new()
            },
            FeedMessage::RemoveMarket { market_id } => {
                self.remove_market_channel(*market_id);
                Vec::new()
            },
            FeedMessage::OrderFeed { feed } => self.broadcast_to_market(feed.market_id),
        }
    }
}

/// Requests a client sends on its feed connection.
#[derive(Clone, Copy, Debug)]
pub enum ClientMessage {
    JoinMarket { market_id: u128 },
    LeaveMarket { market_id: u128 },
}

/// Replies sent on a feed connection.
#[derive(Debug)]
pub enum ServerMessage {
    JoinedMarket { market_id: u128 },
    LeftMarket { market_id: u128 },
    Error { message: String },
}

/// The channel a connection is in; 0 (the nil id) when none.
pub struct Connection {
    pub subscriber: u64,
    pub current_channel: u128,
}

pub open spec fn not_in_channel_text(m: u128) -> Seq<char> {
    "You are not in channel of market_id: "@ + uuid_text_of(m)
}

pub open spec fn no_channel_text(m: u128) -> Seq<char> {
    "Channel for the market_id: "@ + uuid_text_of(m) + " does not exist"@
}

impl Connection {
    /// A new connection, in no channel.
    pub fn new(subscriber: u64) -> (c: Connection)
        ensures
            c.subscriber == subscriber,
            c.current_channel == 0,
    {
        Connection { subscriber, current_channel: 0 }
    }

    /// Handles a request. Joining a market first leaves the current channel
    /// (which, see [`ChannelManager::leave_market_channel`], keeps its
    /// subscribers); leaving is refused unless the connection is in that
    /// market's channel and the channel still exists.
    pub fn on_message(&mut self, manager: &mut ChannelManager, msg: ClientMessage) -> (reply: ServerMessage)
        ensures
            final(self).subscriber == old(self).subscriber,
            match msg {
                ClientMessage::JoinMarket { market_id } => {
                    &&& final(manager).channels() == join_channel(old(manager).channels(), market_id, old(self).subscriber)
                    &&& final(self).current_channel == market_id
                    &&& reply matches ServerMessage::JoinedMarket { market_id: m } && m == market_id
                },
                ClientMessage::LeaveMarket { market_id } => if old(self).current_channel != market_id
                    || old(self).current_channel == 0 {
                    &&& final(manager).channels() == old(manager).channels()
                    &&& final(self).current_channel == old(self).current_channel
                    &&& reply matches ServerMessage::Error { message } && message@ == not_in_channel_text(market_id)
                } else if !old(manager).channels().contains_key(market_id) {
                    &&& final(manager).channels() == old(manager).channels()
                    &&& final(self).current_channel == old(self).current_channel
                    &&& reply matches ServerMessage::Error { message } && message@ == no_channel_text(market_id)
                } else {
                    &&& final(manager).channels() == old(manager).channels()
                    &&& final(self).current_channel == 0
                    &&& reply matches ServerMessage::LeftMarket { market_id: m } && m == market_id
                },
            },
    {
        match msg {
            ClientMessage::JoinMarket { market_id } => {
                if self.current_channel != 0 {
                    manager.leave_market_channel(self.current_channel, self.subscriber);
                }
                manager.join_market_channel(market_id, self.subscriber);
                self.current_channel = market_id;
                ServerMessage::JoinedMarket { market_id }
            },
            ClientMessage::LeaveMarket { market_id } => {
                if self.current_channel != market_id || self.current_channel == 0 {
                    let message = String::from_str("You are not in channel of market_id: ").concat(
                        uuid_text(market_id).as_str(),
                    );
                    return ServerMessage::Error { message };
                }
                if manager.get_market_channel(market_id).is_none() {
                    let message = String::from_str("Channel for the market_id: ").concat(
                        uuid_text(market_id).as_str(),
                    ).concat(" does not exist");
                    return ServerMessage::Error { message };
                }
                manager.leave_market_channel(market_id, self.subscriber);
                self.current_channel = 0;
                ServerMessage::LeftMarket { market_id }
            },
        }
    }

    /// A text that is no valid request is answered with an error carrying
    /// the parser's explanation.
    pub fn on_invalid(&self, explanation: String) -> (reply: ServerMessage)
        ensures
            reply matches ServerMessage::Error { message } && message@ == explanation@,
    {
        ServerMessage::Error { message: explanation }
    }

    /// When the connection ends it leaves its channel (which keeps its
    /// subscribers, see [`ChannelManager::leave_market_channel`]).
    pub fn on_close(&mut self, manager: &mut ChannelManager)
        ensures
            final(self).current_channel == 0,
            final(manager).channels() == old(manager).channels(),
    {
        if self.current_channel != 0 {
            manager.leave_market_channel(self.current_channel, self.subscriber);
        }
        self.current_channel = 0;
    }
}

} // verus!
