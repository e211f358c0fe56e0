//! The feed's typed events, as the decoding layer hands them over, and how
//! they are classified into snapshots and delta batches.

use crate::book::{BookError, BookView, OrderBookState};
use crate::levels::{upserted_all, Offer, snapshot_levels};
use vstd::prelude::*;

verus! {

/// The acknowledgement that opens a feed connection.
#[derive(Debug, PartialEq)]
pub struct Connected {
    pub connection_id: String,
    pub message_id: usize,
}

/// The feed channels this library understands.
#[derive(Clone, Copy, Debug, PartialEq, Eq, Structural)]
pub enum SocketChannel {
    Orderbook,
}

/// The traded pairs a book can be kept for.
#[derive(Clone, Copy, Debug, PartialEq, Eq, Structural, PartialOrd, Ord, Hash)]
pub enum Market {
    AaveUsd,
    AdaUsd,
    AevoUsd,
    AgixUsd,
    AlgoUsd,
    ApeUsd,
    AptUsd,
    ArbUsd,
    ArkmUsd,
    AstrUsd,
    AtomUsd,
    AvaxUsd,
    AxlUsd,
    BchUsd,
    BonkUsd,
    BlurUsd,
    BnbUsd,
    ChzUsd,
    BtcUsd,
    CompUsd,
    CrvUsd,
    DogeUsd,
    DotUsd,
    DymUsd,
    EosUsd,
    EtcUsd,
    EthUsd,
    FetUsd,
    FilUsd,
    GrtUsd,
    HbarUsd,
    IcpUsd,
    ImxUsd,
    InjUsd,
    JtoUsd,
    JupUsd,
    LdoUsd,
    LinkUsd,
    LtcUsd,
    ManaUsd,
    MaticUsd,
    MkrUsd,
    NearUsd,
    OrdiUsd,
    OpUsd,
    PepeUsd,
    PythUsd,
    RndrUsd,
    RuneUsd,
    SeiUsd,
    ShibUsd,
    SnxUsd,
    SolUsd,
    StrkUsd,
    StxUsd,
    SuiUsd,
    TiaUsd,
    TrxUsd,
    UniUsd,
    WldUsd,
    WooUsd,
    XlmUsd,
    XrpUsd,
    DydxUsd,
}

/// One fragment of an event: offers for either side, each possibly absent.
#[derive(Debug, PartialEq)]
pub struct ContentPiece {
    pub asks: Option<Vec<Offer>>,
    pub bids: Option<Vec<Offer>>,
}

/// Event contents: several fragments, or a single one.
#[derive(Debug, PartialEq)]
pub enum Contents {
    Multi(Vec<ContentPiece>),
    Single(ContentPiece),
}

/// A full snapshot of one market's book.
#[derive(Debug, PartialEq)]
pub struct Subscribed {
    pub connection_id: String,
    pub message_id: usize,
    pub channel: SocketChannel,
    pub market: Market,
    pub contents: ContentPiece,
}

/// A batch of incremental changes to one market's book.
#[derive(Debug, PartialEq)]
pub struct ChannelBatchData {
    pub connection_id: String,
    pub message_id: usize,
    pub channel: SocketChannel,
    pub market: Market,
    pub contents: Vec<ContentPiece>,
}

/// The events that carry book data.
#[derive(Debug, PartialEq)]
pub enum OrderbookIncomingMessages {
    Subscribed(Subscribed),
    ChannelBatchData(ChannelBatchData),
}

/// The request to subscribe to one market's book.
#[derive(Clone, Copy, Debug, PartialEq, Eq, Structural)]
pub struct Subscribe {
    pub channel: SocketChannel,
    pub market: Market,
    pub batched: bool,
}

/// The offers of one side of a fragment; an absent list holds none.
pub open spec fn side(offers: Option<Vec<Offer>>) -> Seq<Offer> {
    match offers {
        Some(v) => v@,
        None => Seq::empty(),
    }
}

/// The ask offers of all fragments, fragment after fragment.
pub open spec fn flat_asks(pieces: Seq<ContentPiece>) -> Seq<Offer>
    decreases pieces.len(),
{
    if pieces.len() == 0 {
        Seq::empty()
    } else {
        flat_asks(pieces.drop_last()) + side(pieces.last().asks)
    }
}

/// The bid offers of all fragments, fragment after fragment.
pub open spec fn flat_bids(pieces: Seq<ContentPiece>) -> Seq<Offer>
    decreases pieces.len(),
{
    if pieces.len() == 0 {
        Seq::empty()
    } else {
        flat_bids(pieces.drop_last()) + side(pieces.last().bids)
    }
}

/// The book a snapshot describes.
pub open spec fn snapshot_view(msg: Subscribed) -> BookView {
    BookView {
        asks: snapshot_levels(side(msg.contents.asks)),
        bids: snapshot_levels(side(msg.contents.bids)),
        epoch: msg.message_id,
    }
}

/// Appends the offers of one side of a fragment, if it has any.
fn push_side(out: &mut Vec<Offer>, offers: &Option<Vec<Offer>>)
    ensures
        final(out)@ == old(out)@ + side(*offers),
{
    if let Some(v) = offers {
        let ghost start = out@;
        let mut j: usize = 0;
        while j < v.len()
            invariant
                j <= v@.len(),
                out@ == start + v@.take(j as int),
            decreases v@.len() - j,
        {
            out.push(v[j]);
            assert(v@.take(j + 1) =~= v@.take(j as int).push(v@[j as int]));
            j = j + 1;
        }
        assert(v@.take(j as int) =~= v@);
    } else {
        assert(out@ =~= old(out)@ + side(*offers));
    }
}

/// The book after a batch is merged into a book `b`.
pub open spec fn delta_view(b: BookView, batch: ChannelBatchData) -> BookView {
    BookView {
        asks: upserted_all(b.asks, flat_asks(batch.contents@)),
        bids: upserted_all(b.bids, flat_bids(batch.contents@)),
        epoch: batch.message_id,
    }
}

impl Subscribed {
    /// The book this snapshot describes, its sequence number the message's.
    pub fn into_order_book(self) -> (r: OrderBookState)
        ensures
            r.wf(),
            r@ == snapshot_view(self),
    {
        let asks = match self.contents.asks {
            Some(v) => v,
            None => Vec::new(),
        };
        let bids = match self.contents.bids {
            Some(v) => v,
            None => Vec::new(),
        };
        OrderBookState::construct_from(asks, bids, self.message_id)
    }
}

impl ChannelBatchData {
    /// The ask offers and the bid offers of all fragments, each side in
    /// fragment order.
    fn flattened(&self) -> (r: (Vec<Offer>, Vec<Offer>))
        ensures
            r.0@ == flat_asks(self.contents@),
            r.1@ == flat_bids(self.contents@),
    {
        let mut asks: Vec<Offer> = Vec::new();
        let mut bids: Vec<Offer> = Vec::new();
        let mut i: usize = 0;
        while i < self.contents.len()
            invariant
                i <= self.contents@.len(),
                asks@ == flat_asks(self.contents@.take(i as int)),
                bids@ == flat_bids(self.contents@.take(i as int)),
            decreases self.contents@.len() - i,
        {
            let piece = &self.contents[i];
            push_side(&mut asks, &piece.asks);
            push_side(&mut bids, &piece.bids);
            assert(self.contents@.take(i + 1).drop_last() =~= self.contents@.take(i as int));
            i = i + 1;
        }
        assert(self.contents@.take(i as int) =~= self.contents@);
        (asks, bids)
    }

    /// Merges this batch into `orderbook` as one delta: the asks of all
    /// fragments in order, then their bids, under the batch's sequence number.
    pub fn update_orderbook(self, orderbook: &mut OrderBookState) -> (r: Result<(), BookError>)
        requires
            old(orderbook).wf(),
        ensures
            final(orderbook).wf(),
            self.message_id <= old(orderbook)@.epoch ==> r == Err::<(), BookError>(
                BookError::StaleUpdate { known: old(orderbook)@.epoch, given: self.message_id },
            ) && *final(orderbook) == *old(orderbook),
            self.message_id > old(orderbook)@.epoch ==> r == Ok::<(), BookError>(())
                && final(orderbook)@ == delta_view(old(orderbook)@, self),
    {
        let (asks, bids) = self.flattened();
        orderbook.update_with(asks, bids, self.message_id)
    }
}

impl Subscribe {
    /// A batched subscription to the book channel of `market`.
    pub fn new_for_market(market: &Market) -> (r: Subscribe)
        ensures
            r.channel == SocketChannel::Orderbook,
            r.market == *market,
            r.batched,
    {
        Subscribe { channel: SocketChannel::Orderbook, batched: true, market: *market }
    }
}

} // verus!
