use orderbook::book::BookError;
use orderbook::decimal::Dec;
use orderbook::folder::OrderBookFolder;
use orderbook::levels::{Direction, Offer};
use orderbook::messages::{
    ChannelBatchData, ContentPiece, Market, OrderbookIncomingMessages, SocketChannel, Subscribe,
    Subscribed,
};

fn d(mantissa: i128, scale: u32) -> Dec {
    Dec::new(mantissa, scale).unwrap()
}

fn offer(price: i128, size: i128) -> Offer {
    Offer { price: d(price, 0), size: d(size, 0) }
}

fn snapshot(market: Market, id: usize, asks: Vec<Offer>, bids: Vec<Offer>) -> Subscribed {
    Subscribed {
        connection_id: String::from("9a75aff4-923a-4f43-9197-81eefceaacd1"),
        message_id: id,
        channel: SocketChannel::Orderbook,
        market,
        contents: ContentPiece { asks: Some(asks), bids: Some(bids) },
    }
}

fn batch(market: Market, id: usize, contents: Vec<ContentPiece>) -> ChannelBatchData {
    ChannelBatchData {
        connection_id: String::from("9a75aff4-923a-4f43-9197-81eefceaacd1"),
        message_id: id,
        channel: SocketChannel::Orderbook,
        market,
        contents,
    }
}

fn asks_piece(asks: Vec<Offer>) -> ContentPiece {
    ContentPiece { asks: Some(asks), bids: None }
}

#[test]
fn scenario_d_delta_before_snapshot() {
    let mut folder = OrderBookFolder::new();
    let r = folder.consume_channel_batch_msg(batch(Market::EthUsd, 2, vec![asks_piece(vec![offer(100, 1)])]));
    assert_eq!(r, Err(BookError::NoSnapshotYet { market: Market::EthUsd }));
    assert!(folder.book(Market::EthUsd).is_none());
}

#[test]
fn scenario_d_delta_for_another_market() {
    let mut folder = OrderBookFolder::new();
    folder
        .consume_subscribed_msg(snapshot(Market::BtcUsd, 1, vec![offer(100, 1)], vec![]))
        .unwrap();
    let r = folder.consume_channel_batch_msg(batch(Market::EthUsd, 2, vec![]));
    assert_eq!(r, Err(BookError::NoSnapshotYet { market: Market::EthUsd }));
}

#[test]
fn scenario_e_last_fragment_wins() {
    let mut folder = OrderBookFolder::new();
    folder
        .consume_subscribed_msg(snapshot(Market::EthUsd, 1, vec![offer(101, 2)], vec![offer(99, 1)]))
        .unwrap();
    let text = folder
        .consume_channel_batch_msg(batch(
            Market::EthUsd,
            2,
            vec![asks_piece(vec![offer(100, 5)]), asks_piece(vec![offer(100, 0)])],
        ))
        .unwrap();
    assert_eq!(text, r#"{"asks":[["101","2"]],"bids":[["99","1"]]}"#);
    let book = folder.book(Market::EthUsd).unwrap();
    assert_eq!(book.asks.ordered(Direction::Ascending), vec![offer(101, 2)]);
    assert_eq!(book.epoch(), 2);
}

#[test]
fn fragments_flatten_asks_and_bids_in_order() {
    let mut folder = OrderBookFolder::new();
    folder
        .consume_subscribed_msg(snapshot(Market::EthUsd, 1, vec![offer(3102, 1)], vec![offer(3040, 1)]))
        .unwrap();
    let text = folder
        .consume_channel_batch_msg(batch(
            Market::EthUsd,
            2,
            vec![
                asks_piece(vec![offer(3102, 0)]),
                asks_piece(vec![offer(3101, 4)]),
                ContentPiece { asks: None, bids: Some(vec![offer(3040, 0)]) },
                ContentPiece { asks: None, bids: Some(vec![offer(3039, 7)]) },
            ],
        ))
        .unwrap();
    assert_eq!(text, r#"{"asks":[["3101","4"]],"bids":[["3039","7"]]}"#);
}

#[test]
fn stale_delta_is_reported_and_changes_nothing() {
    let mut folder = OrderBookFolder::new();
    let first = folder
        .consume_subscribed_msg(snapshot(Market::EthUsd, 5, vec![offer(100, 1)], vec![]))
        .unwrap();
    let r = folder.consume_channel_batch_msg(batch(Market::EthUsd, 5, vec![asks_piece(vec![offer(100, 0)])]));
    assert_eq!(r, Err(BookError::StaleUpdate { known: 5, given: 5 }));
    let r = folder.consume_channel_batch_msg(batch(Market::EthUsd, 3, vec![asks_piece(vec![offer(100, 0)])]));
    assert_eq!(r, Err(BookError::StaleUpdate { known: 5, given: 3 }));
    assert_eq!(folder.book(Market::EthUsd).unwrap().to_json(), first);
    assert_eq!(folder.book(Market::EthUsd).unwrap().epoch(), 5);
}

#[test]
fn second_snapshot_replaces_the_book() {
    let mut folder = OrderBookFolder::new();
    folder
        .consume_subscribed_msg(snapshot(Market::EthUsd, 10, vec![offer(100, 1), offer(101, 2)], vec![offer(99, 1)]))
        .unwrap();
    // An older sequence number is accepted: a snapshot always resynchronises.
    let text = folder
        .consume_subscribed_msg(snapshot(Market::EthUsd, 3, vec![offer(102, 4)], vec![]))
        .unwrap();
    assert_eq!(text, r#"{"asks":[["102","4"]],"bids":[]}"#);
    let book = folder.book(Market::EthUsd).unwrap();
    assert_eq!(book.epoch(), 3);
    assert_eq!(book.asks.len(), 1);
    assert_eq!(book.bids.len(), 0);
}

#[test]
fn snapshot_with_absent_sides_is_empty() {
    let mut folder = OrderBookFolder::new();
    let msg = Subscribed {
        connection_id: String::from("c"),
        message_id: 1,
        channel: SocketChannel::Orderbook,
        market: Market::SolUsd,
        contents: ContentPiece { asks: None, bids: None },
    };
    assert_eq!(folder.consume_subscribed_msg(msg), Ok(String::from(r#"{"asks":[],"bids":[]}"#)));
}

#[test]
fn markets_are_kept_apart() {
    let mut folder = OrderBookFolder::new();
    folder
        .consume_subscribed_msg(snapshot(Market::EthUsd, 1, vec![offer(3000, 1)], vec![]))
        .unwrap();
    folder
        .consume_subscribed_msg(snapshot(Market::BtcUsd, 1, vec![offer(60000, 1)], vec![]))
        .unwrap();
    let text = folder
        .consume_channel_batch_msg(batch(Market::BtcUsd, 2, vec![asks_piece(vec![offer(60001, 2)])]))
        .unwrap();
    assert_eq!(text, r#"{"asks":[["60000","1"],["60001","2"]],"bids":[]}"#);
    assert_eq!(
        folder.book(Market::EthUsd).unwrap().to_json(),
        r#"{"asks":[["3000","1"]],"bids":[]}"#
    );
}

#[test]
fn incoming_messages_are_routed() {
    let mut folder = OrderBookFolder::new();
    let r = folder.consume_orderbook_incoming_msg(OrderbookIncomingMessages::ChannelBatchData(batch(
        Market::EthUsd,
        1,
        vec![],
    )));
    assert_eq!(r, Err(BookError::NoSnapshotYet { market: Market::EthUsd }));
    let r = folder.consume_orderbook_incoming_msg(OrderbookIncomingMessages::Subscribed(snapshot(
        Market::EthUsd,
        1,
        vec![offer(100, 1)],
        vec![],
    )));
    assert_eq!(r, Ok(String::from(r#"{"asks":[["100","1"]],"bids":[]}"#)));
    let r = folder.consume_orderbook_incoming_msg(OrderbookIncomingMessages::ChannelBatchData(batch(
        Market::EthUsd,
        2,
        vec![ContentPiece { asks: None, bids: Some(vec![offer(99, 2)]) }],
    )));
    assert_eq!(r, Ok(String::from(r#"{"asks":[["100","1"]],"bids":[["99","2"]]}"#)));
}

#[test]
fn subscribe_request_for_market() {
    let s = Subscribe::new_for_market(&Market::EthUsd);
    assert_eq!(s.channel, SocketChannel::Orderbook);
    assert_eq!(s.market, Market::EthUsd);
    assert!(s.batched);
}

#[test]
fn default_registry_holds_no_book() {
    let mut folder = OrderBookFolder::default();
    assert!(folder.book(Market::EthUsd).is_none());
    assert_eq!(
        folder.consume_channel_batch_msg(batch(Market::EthUsd, 1, vec![])),
        Err(BookError::NoSnapshotYet { market: Market::EthUsd })
    );
}
