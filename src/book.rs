//! The state of one market's book: both sides and the sequence number of the
//! last event merged, with the snapshot and delta merges and the book's
//! canonical JSON text.

use crate::decimal::{decimal_text, text_of, Dec};
use crate::levels::{
    ascending, descending, in_direction, lemma_reverse_descending, snapshot_levels, upserted_all, valid_levels, Direction, Offer,
    PriceLevels,
};
use crate::messages::Market;
use vstd::prelude::*;
use vstd::string::*;

verus! {

/// Why an event was not merged.
#[derive(Clone, Copy, Debug, PartialEq, Eq, Structural)]
pub enum BookError {
    /// The event's sequence number `given` is not above the `known` one.
    StaleUpdate { known: usize, given: usize },
    /// A delta arrived for a market whose book was never snapshotted.
    NoSnapshotYet { market: Market },
}

/// What a book holds: its sides in ascending price order, and its sequence
/// number.
pub struct BookView {
    pub asks: Seq<Offer>,
    pub bids: Seq<Offer>,
    pub epoch: usize,
}

/// A book: asks, bids and the sequence number of the last event merged.
pub struct OrderBookState {
    epoch: usize,
    pub asks: PriceLevels,
    pub bids: PriceLevels,
}

impl View for OrderBookState {
    type V = BookView;

    closed spec fn view(&self) -> BookView {
        BookView { asks: self.asks@, bids: self.bids@, epoch: self.epoch }
    }
}

/// The JSON string holding the text of a decimal.
pub open spec fn quoted(d: Dec) -> Seq<char> {
    seq!['"'] + decimal_text(d.mantissa_spec(), d.scale_spec() as int) + seq!['"']
}

/// One level as the JSON pair `["price","size"]`.
pub open spec fn level_json(o: Offer) -> Seq<char> {
    seq!['['] + quoted(o.price) + seq![','] + quoted(o.size) + seq![']']
}

/// The levels as JSON pairs, separated by commas.
pub open spec fn levels_json(s: Seq<Offer>) -> Seq<char>
    decreases s.len(),
{
    if s.len() == 0 {
        Seq::empty()
    } else if s.len() == 1 {
        level_json(s[0])
    } else {
        levels_json(s.drop_last()) + seq![','] + level_json(s.last())
    }
}

/// `{"asks":[...],"bids":[...]}` with the levels in the order given.
pub open spec fn book_json(asks: Seq<Offer>, bids: Seq<Offer>) -> Seq<char> {
    seq!['{', '"', 'a', 's', 'k', 's', '"', ':', '['] + levels_json(asks) + seq![
        ']',
        ',',
        '"',
        'b',
        'i',
        'd',
        's',
        '"',
        ':',
        '[',
    ] + levels_json(bids) + seq![']', '}']
}

/// The asks as written out: lowest price first.
pub open spec fn written_asks(b: BookView) -> Seq<Offer> {
    in_direction(b.asks, Direction::Ascending)
}

/// The bids as written out: highest price first.
pub open spec fn written_bids(b: BookView) -> Seq<Offer> {
    in_direction(b.bids, Direction::Descending)
}

/// The canonical text of a book.
pub open spec fn view_json(b: BookView) -> Seq<char> {
    book_json(written_asks(b), written_bids(b))
}

/// A book is written with its asks strictly rising in price and its bids
/// strictly falling, whatever order their offers came in.
pub proof fn lemma_written_order(b: BookView)
    requires
        valid_levels(b.asks),
        valid_levels(b.bids),
    ensures
        ascending(written_asks(b)),
        descending(written_bids(b)),
{
    lemma_reverse_descending(b.bids);
}

/// Appends the levels as JSON pairs separated by commas.
fn write_levels(out: &mut String, levels: &Vec<Offer>)
    ensures
        final(out)@ == old(out)@ + levels_json(levels@),
{
    let ghost start = out@;
    let mut i: usize = 0;
    while i < levels.len()
        invariant
            i <= levels@.len(),
            out@ == start + levels_json(levels@.take(i as int)),
        decreases levels@.len() - i,
    {
        let o = levels[i];
        if i > 0 {
            out.append(",");
        }
        out.append("[\"");
        proof {
            use_type_invariant(&o.price);
            use_type_invariant(&o.size);
        }
        let price = text_of(&o.price);
        out.append(price.as_str());
        out.append("\",\"");
        let size = text_of(&o.size);
        out.append(size.as_str());
        out.append("\"]");
        proof {
            reveal_strlit(",");
            reveal_strlit("[\"");
            reveal_strlit("\",\"");
            reveal_strlit("\"]");
            let t = levels@.take(i + 1);
            assert(t.drop_last() =~= levels@.take(i as int));
            assert(t.last() == o);
            if i == 0 {
                assert(out@ =~= start + level_json(o));
            } else {
                assert(out@ =~= start + levels_json(levels@.take(i as int)) + seq![','] + level_json(
                    o,
                ));
            }
        }
        i = i + 1;
    }
    assert(levels@.take(i as int) =~= levels@);
}

impl OrderBookState {
    /// Both sides hold valid levels.
    pub open spec fn wf(&self) -> bool {
        valid_levels(self@.asks) && valid_levels(self@.bids)
    }

    /// The sequence number of the last event merged.
    pub fn epoch(&self) -> (r: usize)
        ensures
            r == self@.epoch,
    {
        self.epoch
    }

    /// A book built from a snapshot's offers, those of size zero passed over.
    pub fn construct_from(asks: Vec<Offer>, bids: Vec<Offer>, epoch: usize) -> (r: Self)
        ensures
            r.wf(),
            r@.asks == snapshot_levels(asks@),
            r@.bids == snapshot_levels(bids@),
            r@.epoch == epoch,
    {
        let asks = PriceLevels::from_snapshot(&asks);
        let bids = PriceLevels::from_snapshot(&bids);
        OrderBookState { asks, bids, epoch }
    }

    /// Merges a delta: refused, with nothing changed, unless `epoch` is above
    /// the book's sequence number; otherwise the sequence number becomes
    /// `epoch`, then the ask offers and the bid offers are applied in order.
    pub fn update_with(&mut self, asks: Vec<Offer>, bids: Vec<Offer>, epoch: usize) -> (r: Result<
        (),
        BookError,
    >)
        requires
            old(self).wf(),
        ensures
            final(self).wf(),
            epoch <= old(self)@.epoch ==> r == Err::<(), BookError>(
                BookError::StaleUpdate { known: old(self)@.epoch, given: epoch },
            ) && *final(self) == *old(self),
            epoch > old(self)@.epoch ==> r == Ok::<(), BookError>(()) && final(self)@.epoch == epoch
                && final(self)@.asks == upserted_all(old(self)@.asks, asks@) && final(self)@.bids
                == upserted_all(old(self)@.bids, bids@),
    {
        if epoch <= self.epoch {
            return Err(BookError::StaleUpdate { known: self.epoch, given: epoch });
        }
        self.epoch = epoch;
        self.asks.upsert_all(&asks);
        self.bids.upsert_all(&bids);
        Ok(())
    }

    /// The book as `{"asks":[["price","size"],...],"bids":[...]}`, asks from
    /// the lowest price up, bids from the highest price down.
    pub fn to_json(&self) -> (r: String)
        ensures
            r@ == view_json(self@),
    {
        let asks = self.asks.ordered(Direction::Ascending);
        let bids = self.bids.ordered(Direction::Descending);
        let mut out = String::new();
        out.append("{\"asks\":[");
        write_levels(&mut out, &asks);
        out.append("],\"bids\":[");
        write_levels(&mut out, &bids);
        out.append("]}");
        proof {
            reveal_strlit("{\"asks\":[");
            reveal_strlit("],\"bids\":[");
            reveal_strlit("]}");
            assert(out@ =~= view_json(self@));
        }
        out
    }
}

} // verus!
