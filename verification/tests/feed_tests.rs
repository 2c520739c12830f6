use polymarket::decimal::Dec;
use polymarket::feed::{ChannelManager, ClientMessage, Connection, ServerMessage};
use polymarket::model::{FeedMessage, OrderFeed, OrderSide};

const MARKET: u128 = 0x67e5504410b1426f9247bb680e5fe0c8;
const MARKET_TEXT: &str = "67e55044-10b1-426f-9247-bb680e5fe0c8";

#[test]
fn joined_subscribers_receive_broadcasts() {
    let mut m = ChannelManager::new();
    m.create_market_channel(MARKET);
    m.join_market_channel(MARKET, 1);
    m.join_market_channel(MARKET, 2);
    assert_eq!(m.broadcast_to_market(MARKET), vec![1, 2]);
    assert_eq!(m.get_market_channel(MARKET), Some(vec![1, 2]));
}

#[test]
fn joining_a_missing_channel_does_nothing() {
    let mut m = ChannelManager::new();
    m.join_market_channel(MARKET, 1);
    assert!(m.get_market_channel(MARKET).is_none());
    assert!(m.broadcast_to_market(MARKET).is_empty());
}

#[test]
fn leaving_keeps_the_channels_subscribers() {
    let mut m = ChannelManager::new();
    m.create_market_channel(MARKET);
    m.join_market_channel(MARKET, 1);
    m.join_market_channel(MARKET, 2);
    m.leave_market_channel(MARKET, 2);
    assert_eq!(m.broadcast_to_market(MARKET), vec![1, 2]);
    m.leave_market_channel(MARKET, 1);
    assert_eq!(m.get_market_channel(MARKET), Some(vec![1, 2]));
}

#[test]
fn creating_a_channel_twice_keeps_its_subscribers() {
    let mut m = ChannelManager::new();
    m.create_market_channel(MARKET);
    m.join_market_channel(MARKET, 5);
    m.create_market_channel(MARKET);
    assert_eq!(m.broadcast_to_market(MARKET), vec![5]);
    m.remove_market_channel(MARKET);
    assert!(m.get_market_channel(MARKET).is_none());
}

#[test]
fn feed_messages_manage_channels_and_address_updates() {
    let mut m = ChannelManager::new();
    assert!(m.apply_feed(&FeedMessage::CreateMarket { market_id: MARKET }).is_empty());
    m.join_market_channel(MARKET, 9);
    let update = FeedMessage::OrderFeed {
        feed: OrderFeed {
            market_id: MARKET,
            outcome_id: 3,
            side: OrderSide::BUY,
            quantity: Dec::new(5, 0),
            price: Dec::new(5, 1),
            timestamp: 0,
        },
    };
    assert_eq!(m.apply_feed(&update), vec![9]);
    assert!(m.apply_feed(&FeedMessage::RemoveMarket { market_id: MARKET }).is_empty());
    assert!(m.apply_feed(&update).is_empty());
}

#[test]
fn connection_joins_and_leaves() {
    let mut m = ChannelManager::new();
    m.create_market_channel(MARKET);
    let mut c = Connection::new(4);
    match c.on_message(&mut m, ClientMessage::JoinMarket { market_id: MARKET }) {
        ServerMessage::JoinedMarket { market_id } => assert_eq!(market_id, MARKET),
        _ => panic!("expected a join"),
    }
    assert_eq!(m.broadcast_to_market(MARKET), vec![4]);
    match c.on_message(&mut m, ClientMessage::LeaveMarket { market_id: MARKET }) {
        ServerMessage::LeftMarket { market_id } => assert_eq!(market_id, MARKET),
        _ => panic!("expected a leave"),
    }
    // the channel keeps the subscriber; the connection is in no channel
    assert_eq!(m.broadcast_to_market(MARKET), vec![4]);
    assert_eq!(c.current_channel, 0);
}

#[test]
fn leaving_a_channel_one_is_not_in_is_refused() {
    let mut m = ChannelManager::new();
    let mut c = Connection::new(4);
    match c.on_message(&mut m, ClientMessage::LeaveMarket { market_id: MARKET }) {
        ServerMessage::Error { message } => {
            assert_eq!(message, format!("You are not in channel of market_id: {}", MARKET_TEXT))
        }
        _ => panic!("expected an error"),
    }
}

#[test]
fn leaving_a_removed_channel_is_refused() {
    let mut m = ChannelManager::new();
    m.create_market_channel(MARKET);
    let mut c = Connection::new(4);
    c.on_message(&mut m, ClientMessage::JoinMarket { market_id: MARKET });
    m.remove_market_channel(MARKET);
    match c.on_message(&mut m, ClientMessage::LeaveMarket { market_id: MARKET }) {
        ServerMessage::Error { message } => assert_eq!(
            message,
            format!("Channel for the market_id: {} does not exist", MARKET_TEXT)
        ),
        _ => panic!("expected an error"),
    }
}

#[test]
fn joining_another_market_keeps_the_first_subscription() {
    let mut m = ChannelManager::new();
    m.create_market_channel(1);
    m.create_market_channel(2);
    let mut c = Connection::new(8);
    c.on_message(&mut m, ClientMessage::JoinMarket { market_id: 1 });
    c.on_message(&mut m, ClientMessage::JoinMarket { market_id: 2 });
    assert_eq!(c.current_channel, 2);
    assert_eq!(m.broadcast_to_market(1), vec![8]);
    assert_eq!(m.broadcast_to_market(2), vec![8]);
    c.on_close(&mut m);
    assert_eq!(c.current_channel, 0);
    assert_eq!(m.broadcast_to_market(2), vec![8]);
}

#[test]
fn invalid_requests_are_answered_with_the_explanation() {
    let c = Connection::new(1);
    match c.on_invalid("expected value".to_string()) {
        ServerMessage::Error { message } => assert_eq!(message, "expected value"),
        _ => panic!("expected an error"),
    }
}
