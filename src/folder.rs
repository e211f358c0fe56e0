//! The registry of books, one per market, and the routing of feed events to
//! the snapshot or the delta merge.

use crate::book::{view_json, BookError, BookView, OrderBookState};
use crate::levels::{has_price, lemma_snapshot_prices, offered};
use crate::messages::{
    delta_view, side, snapshot_view, ChannelBatchData, Market, OrderbookIncomingMessages, Subscribed,
};
use vstd::prelude::*;

verus! {

/// No market appears twice.
pub open spec fn unique_markets(s: Seq<(Market, OrderBookState)>) -> bool {
    forall|i: int, j: int| 0 <= i < j < s.len() ==> #[trigger] s[i].0 != #[trigger] s[j].0
}

/// Some entry is for market `m`.
pub open spec fn holds_market(s: Seq<(Market, OrderBookState)>, m: Market) -> bool {
    exists|i: int| 0 <= i < s.len() && #[trigger] s[i].0 == m
}

/// The books of the entries, by market.
pub open spec fn books_of(s: Seq<(Market, OrderBookState)>) -> Map<Market, BookView> {
    Map::new(
        |m: Market| holds_market(s, m),
        |m: Market| s[choose|i: int| 0 <= i < s.len() && #[trigger] s[i].0 == m].1@,
    )
}

/// What merging a batch into the books gives: the merged book of its market,
/// or why it is refused.
pub open spec fn delta_result(books: Map<Market, BookView>, batch: ChannelBatchData) -> Result<
    BookView,
    BookError,
> {
    if !books.contains_key(batch.market) {
        Err(BookError::NoSnapshotYet { market: batch.market })
    } else if batch.message_id <= books[batch.market].epoch {
        Err(
            BookError::StaleUpdate { known: books[batch.market].epoch, given: batch.message_id },
        )
    } else {
        Ok(delta_view(books[batch.market], batch))
    }
}

/// The market an event is about.
pub open spec fn event_market(msg: OrderbookIncomingMessages) -> Market {
    match msg {
        OrderbookIncomingMessages::Subscribed(s) => s.market,
        OrderbookIncomingMessages::ChannelBatchData(b) => b.market,
    }
}

/// What an event gives: the new book of its market, or why it is refused.
pub open spec fn event_result(books: Map<Market, BookView>, msg: OrderbookIncomingMessages) -> Result<
    BookView,
    BookError,
> {
    match msg {
        OrderbookIncomingMessages::Subscribed(s) => Ok(snapshot_view(s)),
        OrderbookIncomingMessages::ChannelBatchData(b) => delta_result(books, b),
    }
}

/// A second snapshot of a market replaces its book whole: the new book is the
/// snapshot's alone, and a price held before that the snapshot gives no size
/// to is gone from either side.
pub proof fn lemma_snapshot_replaces(books: Map<Market, BookView>, msg: Subscribed, v: int)
    requires
        books.contains_key(msg.market),
    ensures
        books.insert(msg.market, snapshot_view(msg))[msg.market] == snapshot_view(msg),
        !offered(side(msg.contents.asks), v) ==> !has_price(
            books.insert(msg.market, snapshot_view(msg))[msg.market].asks,
            v,
        ),
        !offered(side(msg.contents.bids), v) ==> !has_price(
            books.insert(msg.market, snapshot_view(msg))[msg.market].bids,
            v,
        ),
{
    lemma_snapshot_prices(side(msg.contents.asks), v);
    lemma_snapshot_prices(side(msg.contents.bids), v);
}

proof fn lemma_books_at(s: Seq<(Market, OrderBookState)>, i: int)
    requires
        unique_markets(s),
        0 <= i < s.len(),
    ensures
        books_of(s).contains_key(s[i].0),
        books_of(s)[s[i].0] == s[i].1@,
{
    assert(holds_market(s, s[i].0));
}

proof fn lemma_books_update(s: Seq<(Market, OrderBookState)>, i: int, b: OrderBookState)
    requires
        unique_markets(s),
        0 <= i < s.len(),
    ensures
        unique_markets(s.update(i, (s[i].0, b))),
        books_of(s.update(i, (s[i].0, b))) == books_of(s).insert(s[i].0, b@),
{
    let t = s.update(i, (s[i].0, b));
    assert(unique_markets(t)) by {
        assert forall|j: int, k: int| 0 <= j < k < t.len() implies #[trigger] t[j].0
            != #[trigger] t[k].0 by {
            assert(t[j].0 == s[j].0 && t[k].0 == s[k].0);
        }
    }
    assert forall|m: Market| holds_market(t, m) == holds_market(s, m) by {
        if holds_market(s, m) {
            let j = choose|j: int| 0 <= j < s.len() && #[trigger] s[j].0 == m;
            assert(t[j].0 == m);
        }
        if holds_market(t, m) {
            let j = choose|j: int| 0 <= j < t.len() && #[trigger] t[j].0 == m;
            assert(s[j].0 == m);
        }
    }
    assert forall|m: Market| #[trigger] books_of(t).contains_key(m) implies books_of(t)[m] == books_of(
        s,
    ).insert(s[i].0, b@)[m] by {
        let j = choose|j: int| 0 <= j < t.len() && #[trigger] t[j].0 == m;
        if m == s[i].0 {
            assert(j == i);
        } else {
            let k = choose|k: int| 0 <= k < s.len() && #[trigger] s[k].0 == m;
            assert(j != i);
            assert(t[j] == s[j]);
            assert(j == k);
        }
    }
    assert(books_of(t) =~= books_of(s).insert(s[i].0, b@));
}

proof fn lemma_books_push(s: Seq<(Market, OrderBookState)>, m: Market, b: OrderBookState)
    requires
        unique_markets(s),
        !holds_market(s, m),
    ensures
        unique_markets(s.push((m, b))),
        books_of(s.push((m, b))) == books_of(s).insert(m, b@),
{
    let t = s.push((m, b));
    assert(unique_markets(t)) by {
        assert forall|j: int, k: int| 0 <= j < k < t.len() implies #[trigger] t[j].0
            != #[trigger] t[k].0 by {
            if k == s.len() {
                assert(t[j] == s[j]);
            } else {
                assert(t[j] == s[j] && t[k] == s[k]);
            }
        }
    }
    assert forall|x: Market| holds_market(t, x) == (holds_market(s, x) || x == m) by {
        if holds_market(s, x) {
            let j = choose|j: int| 0 <= j < s.len() && #[trigger] s[j].0 == x;
            assert(t[j].0 == x);
        }
        if holds_market(t, x) && x != m {
            let j = choose|j: int| 0 <= j < t.len() && #[trigger] t[j].0 == x;
            assert(j < s.len());
            assert(s[j].0 == x);
        }
        if x == m {
            assert(t[s.len() as int].0 == m);
        }
    }
    assert forall|x: Market| #[trigger] books_of(t).contains_key(x) implies books_of(t)[x] == books_of(
        s,
    ).insert(m, b@)[x] by {
        let j = choose|j: int| 0 <= j < t.len() && #[trigger] t[j].0 == x;
        if x == m {
            assert(t[s.len() as int].0 == m);
            assert(j == s.len());
        } else {
            let k = choose|k: int| 0 <= k < s.len() && #[trigger] s[k].0 == x;
            assert(t[k] == s[k]);
            assert(j == k);
        }
    }
    assert(books_of(t) =~= books_of(s).insert(m, b@));
}

/// The index of the entry for `market`, if there is one.
fn find(books: &Vec<(Market, OrderBookState)>, market: Market) -> (r: Option<usize>)
    ensures
        r matches Some(i) ==> i < books@.len() && books@[i as int].0 == market,
        r is None ==> !holds_market(books@, market),
{
    let mut i: usize = 0;
    while i < books.len()
        invariant
            i <= books@.len(),
            forall|k: int| 0 <= k < i ==> #[trigger] books@[k].0 != market,
        decreases books@.len() - i,
    {
        if books[i].0 == market {
            return Some(i);
        }
        i = i + 1;
    }
    None
}

/// The books of all markets seen so far.
pub struct OrderBookFolder {
    orderbooks: Vec<(Market, OrderBookState)>,
}

impl View for OrderBookFolder {
    type V = Map<Market, BookView>;

    closed spec fn view(&self) -> Map<Market, BookView> {
        books_of(self.orderbooks@)
    }
}

impl OrderBookFolder {
    #[verifier::type_invariant]
    spec fn inv(self) -> bool {
        &&& unique_markets(self.orderbooks@)
        &&& forall|i: int|
            0 <= i < self.orderbooks@.len() ==> (#[trigger] self.orderbooks@[i]).1.wf()
    }

    /// A registry with no book.
    pub fn new() -> (r: OrderBookFolder)
        ensures
            r@ == Map::<Market, BookView>::empty(),
    {
        let r = OrderBookFolder { orderbooks: Vec::new() };
        assert(r@ =~= Map::<Market, BookView>::empty());
        r
    }

    /// The book of `market`, if it was ever snapshotted.
    pub fn book(&self, market: Market) -> (r: Option<&OrderBookState>)
        ensures
            r is Some <==> self@.contains_key(market),
            r matches Some(b) ==> b@ == self@[market] && b.wf(),
    {
        proof {
            use_type_invariant(self);
        }
        match find(&self.orderbooks, market) {
            Some(i) => {
                proof {
                    lemma_books_at(self.orderbooks@, i as int);
                }
                Some(&self.orderbooks[i].1)
            },
            None => None,
        }
    }

    /// Makes `book` the book of `market`, in place of any earlier one.
    fn put(&mut self, market: Market, book: OrderBookState)
        requires
            book.wf(),
        ensures
            final(self)@ == old(self)@.insert(market, book@),
    {
        proof {
            use_type_invariant(&*self);
        }
        let mut books: Vec<(Market, OrderBookState)> = Vec::new();
        std::mem::swap(&mut books, &mut self.orderbooks);
        let ghost s = books@;
        match find(&books, market) {
            Some(i) => {
                proof {
                    lemma_books_update(s, i as int, book);
                }
                books.set(i, (market, book));
            },
            None => {
                proof {
                    lemma_books_push(s, market, book);
                }
                books.push((market, book));
            },
        }
        self.orderbooks = books;
    }

    /// Takes a full snapshot: its book replaces whatever was held for its
    /// market, whatever the sequence numbers. Gives the new book's text.
    pub fn consume_subscribed_msg(&mut self, subscribed: Subscribed) -> (r: Result<String, BookError>)
        ensures
            final(self)@ == old(self)@.insert(subscribed.market, snapshot_view(subscribed)),
            r matches Ok(text) && text@ == view_json(snapshot_view(subscribed)),
    {
        let market = subscribed.market;
        let orderbook = subscribed.into_order_book();
        let serialized = orderbook.to_json();
        self.put(market, orderbook);
        Ok(serialized)
    }

    /// Merges a delta batch into the book of its market. Refused, with no
    /// book changed, when the market was never snapshotted or the batch is
    /// not newer than its book. Gives the merged book's text.
    pub fn consume_channel_batch_msg(&mut self, batch: ChannelBatchData) -> (r: Result<
        String,
        BookError,
    >)
        ensures
            match delta_result(old(self)@, batch) {
                Err(e) => r == Err::<String, BookError>(e) && final(self)@ == old(self)@,
                Ok(b) => final(self)@ == old(self)@.insert(batch.market, b) && (r matches Ok(text)
                    && text@ == view_json(b)),
            },
    {
        proof {
            use_type_invariant(&*self);
        }
        let ghost before = self@;
        let mut books: Vec<(Market, OrderBookState)> = Vec::new();
        std::mem::swap(&mut books, &mut self.orderbooks);
        let ghost s = books@;
        let market = batch.market;
        match find(&books, market) {
            None => {
                self.orderbooks = books;
                Err(BookError::NoSnapshotYet { market })
            },
            Some(i) => {
                proof {
                    lemma_books_at(s, i as int);
                }
                let (m, mut orderbook) = books.remove(i);
                let updated = batch.update_orderbook(&mut orderbook);
                let r = match updated {
                    Ok(()) => Ok(orderbook.to_json()),
                    Err(e) => Err(e),
                };
                proof {
                    lemma_books_update(s, i as int, orderbook);
                }
                books.insert(i, (m, orderbook));
                assert(books@ =~= s.update(i as int, (m, orderbook)));
                self.orderbooks = books;
                proof {
                    if updated is Err {
                        assert(s.update(i as int, (m, orderbook)) =~= s);
                    }
                }
                r
            },
        }
    }

    /// Routes an event: a snapshot replaces its market's book, a delta batch
    /// is merged into it. Gives the resulting book's text.
    pub fn consume_orderbook_incoming_msg(&mut self, msg: OrderbookIncomingMessages) -> (r: Result<
        String,
        BookError,
    >)
        ensures
            match event_result(old(self)@, msg) {
                Err(e) => r == Err::<String, BookError>(e) && final(self)@ == old(self)@,
                Ok(b) => final(self)@ == old(self)@.insert(event_market(msg), b) && (r matches Ok(
                    text,
                ) && text@ == view_json(b)),
            },
    {
        match msg {
            OrderbookIncomingMessages::ChannelBatchData(batch) => self.consume_channel_batch_msg(
                batch,
            ),
            OrderbookIncomingMessages::Subscribed(subscribed) => self.consume_subscribed_msg(
                subscribed,
            ),
        }
    }
}

impl Default for OrderBookFolder {
    fn default() -> (r: OrderBookFolder)
        ensures
            r@ == Map::<Market, BookView>::empty(),
    {
        OrderBookFolder::new()
    }
}

} // verus!
