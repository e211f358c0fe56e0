//! One side of a book: price levels kept in strictly ascending price order,
//! none of them empty.

use crate::decimal::{compare, Dec};
use std::cmp::Ordering;
use vstd::prelude::*;

verus! {

/// A size at a price. As an input, a size of zero asks for the level at that
/// price to be removed; a stored level never has size zero.
#[derive(Clone, Copy, Debug, PartialEq, Eq, Structural)]
pub struct Offer {
    pub price: Dec,
    pub size: Dec,
}

/// Prices rise strictly from each level to the next.
pub open spec fn ascending(s: Seq<Offer>) -> bool {
    forall|i: int, j: int|
        0 <= i < j < s.len() ==> #[trigger] s[i].price.value() < #[trigger] s[j].price.value()
}

/// No level has size zero.
pub open spec fn no_empty_level(s: Seq<Offer>) -> bool {
    forall|i: int| 0 <= i < s.len() ==> !(#[trigger] s[i]).size.spec_is_zero()
}

pub open spec fn valid_levels(s: Seq<Offer>) -> bool {
    ascending(s) && no_empty_level(s)
}

/// Some level stands at the price whose value is `v`.
pub open spec fn has_price(s: Seq<Offer>, v: int) -> bool {
    exists|i: int| 0 <= i < s.len() && #[trigger] s[i].price.value() == v
}

/// The levels after `o` is applied to `s`: a zero size removes the level at
/// its price, if any; another size replaces the size of the level at its
/// price (keeping the price as first written) or adds a level in order.
pub open spec fn upserted(s: Seq<Offer>, o: Offer) -> Seq<Offer>
    decreases s.len(),
{
    if s.len() == 0 {
        if o.size.spec_is_zero() {
            s
        } else {
            seq![o]
        }
    } else if s[0].price.value() < o.price.value() {
        seq![s[0]] + upserted(s.drop_first(), o)
    } else if s[0].price.value() == o.price.value() {
        if o.size.spec_is_zero() {
            s.drop_first()
        } else {
            seq![Offer { price: s[0].price, size: o.size }] + s.drop_first()
        }
    } else {
        if o.size.spec_is_zero() {
            s
        } else {
            seq![o] + s
        }
    }
}

/// The levels after each of `offers` is applied to `s`, in order.
pub open spec fn upserted_all(s: Seq<Offer>, offers: Seq<Offer>) -> Seq<Offer>
    decreases offers.len(),
{
    if offers.len() == 0 {
        s
    } else {
        upserted(upserted_all(s, offers.drop_last()), offers.last())
    }
}

/// The levels built from a snapshot's offers: offers of size zero are passed
/// over, the others applied in order, so a later offer at a price already
/// seen sets its size.
pub open spec fn snapshot_levels(offers: Seq<Offer>) -> Seq<Offer>
    decreases offers.len(),
{
    if offers.len() == 0 {
        Seq::empty()
    } else if offers.last().size.spec_is_zero() {
        snapshot_levels(offers.drop_last())
    } else {
        upserted(snapshot_levels(offers.drop_last()), offers.last())
    }
}

/// The order in which the levels of a side are walked.
#[derive(Clone, Copy, Debug, PartialEq, Eq, Structural)]
pub enum Direction {
    Ascending,
    Descending,
}

pub open spec fn in_direction(s: Seq<Offer>, direction: Direction) -> Seq<Offer> {
    match direction {
        Direction::Ascending => s,
        Direction::Descending => s.reverse(),
    }
}

/// Below index `i` every price is lower than `v`; from `i` on none is.
pub open spec fn splits_at(s: Seq<Offer>, v: int, i: int) -> bool {
    &&& 0 <= i <= s.len()
    &&& forall|k: int| 0 <= k < i ==> #[trigger] s[k].price.value() < v
    &&& i < s.len() ==> v <= s[i].price.value()
}

proof fn lemma_upserted_split(s: Seq<Offer>, o: Offer, i: int)
    requires
        splits_at(s, o.price.value(), i),
    ensures
        upserted(s, o) == s.take(i) + upserted(s.skip(i), o),
    decreases i,
{
    if i == 0 {
        assert(s.take(0) + s.skip(0) =~= s);
        assert(s.skip(0) =~= s);
    } else {
        let rest = s.drop_first();
        assert(splits_at(rest, o.price.value(), i - 1)) by {
            assert forall|k: int| 0 <= k < i - 1 implies #[trigger] rest[k].price.value()
                < o.price.value() by {
                assert(rest[k] == s[k + 1]);
            }
        }
        lemma_upserted_split(rest, o, i - 1);
        assert(s[0].price.value() < o.price.value());
        assert(rest.skip(i - 1) =~= s.skip(i));
        assert(seq![s[0]] + rest.take(i - 1) =~= s.take(i));
        assert(seq![s[0]] + (rest.take(i - 1) + upserted(s.skip(i), o)) =~= s.take(i)
            + upserted(s.skip(i), o));
    }
}

/// A level is found in `upserted(s, o)` only at a price of `s`, or at the
/// price of `o` when its size is not zero.
proof fn lemma_upserted_prices(s: Seq<Offer>, o: Offer, v: int)
    ensures
        has_price(upserted(s, o), v) ==> has_price(s, v) || (o.price.value() == v
            && !o.size.spec_is_zero()),
    decreases s.len(),
{
    if s.len() > 0 {
        let rest = s.drop_first();
        lemma_upserted_prices(rest, o, v);
        let u = upserted(s, o);
        if has_price(u, v) {
            let k = choose|k: int| 0 <= k < u.len() && #[trigger] u[k].price.value() == v;
            if s[0].price.value() < o.price.value() {
                if k > 0 {
                    assert(u[k] == upserted(rest, o)[k - 1]);
                    assert(has_price(upserted(rest, o), v));
                    if has_price(rest, v) {
                        let j = choose|j: int| 0 <= j < rest.len() && #[trigger] rest[j].price.value() == v;
                        assert(s[j + 1] == rest[j]);
                    }
                } else {
                    assert(s[0] == u[0]);
                }
            } else if s[0].price.value() == o.price.value() {
                if o.size.spec_is_zero() {
                    assert(s[k + 1] == u[k]);
                } else if k > 0 {
                    assert(s[k] == u[k]);
                } else {
                    assert(u[0].price == s[0].price);
                }
            } else {
                if !o.size.spec_is_zero() && k > 0 {
                    assert(s[k - 1] == u[k]);
                }
            }
        }
    }
}

/// Some offer at the price whose value is `v` has a size other than zero.
pub open spec fn offered(offers: Seq<Offer>, v: int) -> bool {
    exists|j: int|
        0 <= j < offers.len() && #[trigger] offers[j].price.value() == v
            && !offers[j].size.spec_is_zero()
}

/// Prices fall strictly from each level to the next.
pub open spec fn descending(s: Seq<Offer>) -> bool {
    forall|i: int, j: int|
        0 <= i < j < s.len() ==> #[trigger] s[i].price.value() > #[trigger] s[j].price.value()
}

/// Applying an offer to valid levels leaves valid levels.
proof fn lemma_upserted_valid(s: Seq<Offer>, o: Offer)
    requires
        valid_levels(s),
    ensures
        valid_levels(upserted(s, o)),
    decreases s.len(),
{
    if s.len() > 0 {
        let rest = s.drop_first();
        if s[0].price.value() < o.price.value() {
            lemma_upserted_valid(rest, o);
            let u = upserted(rest, o);
            let r = seq![s[0]] + u;
            assert forall|k: int| 0 <= k < u.len() implies s[0].price.value()
                < #[trigger] u[k].price.value() by {
                lemma_upserted_prices(rest, o, u[k].price.value());
                assert(has_price(u, u[k].price.value()));
                if has_price(rest, u[k].price.value()) {
                    let j = choose|j: int|
                        0 <= j < rest.len() && #[trigger] rest[j].price.value()
                            == u[k].price.value();
                    assert(s[j + 1] == rest[j]);
                }
            }
            assert forall|i: int, j: int| 0 <= i < j < r.len() implies #[trigger] r[i].price.value()
                < #[trigger] r[j].price.value() by {
                assert(r[j] == u[j - 1]);
                if i > 0 {
                    assert(r[i] == u[i - 1]);
                }
            }
            assert forall|i: int| 0 <= i < r.len() implies !(#[trigger] r[i]).size.spec_is_zero() by {
                if i > 0 {
                    assert(r[i] == u[i - 1]);
                }
            }
        } else if s[0].price.value() == o.price.value() {
            let u = upserted(s, o);
            assert forall|i: int, j: int| 0 <= i < j < u.len() implies #[trigger] u[i].price.value()
                < #[trigger] u[j].price.value() by {
                if o.size.spec_is_zero() {
                    assert(u[i] == s[i + 1] && u[j] == s[j + 1]);
                } else {
                    assert(u[j] == s[j]);
                    if i > 0 {
                        assert(u[i] == s[i]);
                    }
                }
            }
            assert forall|i: int| 0 <= i < u.len() implies !(#[trigger] u[i]).size.spec_is_zero() by {
                if o.size.spec_is_zero() {
                    assert(u[i] == s[i + 1]);
                } else if i > 0 {
                    assert(u[i] == s[i]);
                }
            }
        } else if !o.size.spec_is_zero() {
            let u = upserted(s, o);
            assert forall|i: int, j: int| 0 <= i < j < u.len() implies #[trigger] u[i].price.value()
                < #[trigger] u[j].price.value() by {
                assert(u[j] == s[j - 1]);
                if i > 0 {
                    assert(u[i] == s[i - 1]);
                }
            }
            assert forall|i: int| 0 <= i < u.len() implies !(#[trigger] u[i]).size.spec_is_zero() by {
                if i > 0 {
                    assert(u[i] == s[i - 1]);
                }
            }
        }
    }
}

/// A level of a snapshot stands only at a price that some offer of the
/// snapshot gives with a size other than zero.
pub proof fn lemma_snapshot_prices(offers: Seq<Offer>, v: int)
    ensures
        has_price(snapshot_levels(offers), v) ==> offered(offers, v),
    decreases offers.len(),
{
    if offers.len() > 0 {
        let prev = offers.drop_last();
        lemma_snapshot_prices(prev, v);
        if !offers.last().size.spec_is_zero() {
            lemma_upserted_prices(snapshot_levels(prev), offers.last(), v);
        }
        if offered(prev, v) {
            let j = choose|j: int|
                0 <= j < prev.len() && #[trigger] prev[j].price.value() == v
                    && !prev[j].size.spec_is_zero();
            assert(offers[j] == prev[j]);
        }
        if has_price(snapshot_levels(offers), v) && !offered(prev, v) {
            assert(offers[offers.len() - 1] == offers.last());
        }
    }
}

/// The levels of a snapshot are valid.
proof fn lemma_snapshot_valid(offers: Seq<Offer>)
    ensures
        valid_levels(snapshot_levels(offers)),
    decreases offers.len(),
{
    if offers.len() > 0 {
        lemma_snapshot_valid(offers.drop_last());
        lemma_upserted_valid(snapshot_levels(offers.drop_last()), offers.last());
    }
}

/// A snapshot never stores a level of size zero, and an offer of size zero
/// leaves no level at its price when no offer of the same list gives that
/// price a size.
pub proof fn lemma_snapshot_skips_empty(offers: Seq<Offer>, k: int)
    requires
        0 <= k < offers.len(),
        offers[k].size.spec_is_zero(),
        forall|j: int|
            0 <= j < offers.len() && #[trigger] offers[j].price.value() == offers[k].price.value()
                ==> offers[j].size.spec_is_zero(),
    ensures
        no_empty_level(snapshot_levels(offers)),
        !has_price(snapshot_levels(offers), offers[k].price.value()),
{
    lemma_snapshot_valid(offers);
    lemma_snapshot_prices(offers, offers[k].price.value());
}

/// Removing a price at which no level stands changes nothing.
pub proof fn lemma_remove_absent_price(s: Seq<Offer>, o: Offer)
    requires
        o.size.spec_is_zero(),
        !has_price(s, o.price.value()),
    ensures
        upserted(s, o) == s,
    decreases s.len(),
{
    if s.len() > 0 {
        let rest = s.drop_first();
        assert(s[0].price.value() != o.price.value()) by {
            if s[0].price.value() == o.price.value() {
                assert(has_price(s, o.price.value()));
            }
        }
        if s[0].price.value() < o.price.value() {
            assert(!has_price(rest, o.price.value())) by {
                if has_price(rest, o.price.value()) {
                    let j = choose|j: int|
                        0 <= j < rest.len() && #[trigger] rest[j].price.value()
                            == o.price.value();
                    assert(s[j + 1] == rest[j]);
                }
            }
            lemma_remove_absent_price(rest, o);
            assert(seq![s[0]] + rest =~= s);
        }
    }
}

/// Valid levels walked from the highest price down fall strictly.
pub proof fn lemma_reverse_descending(s: Seq<Offer>)
    requires
        ascending(s),
    ensures
        descending(s.reverse()),
{
    let r = s.reverse();
    assert forall|i: int, j: int| 0 <= i < j < r.len() implies #[trigger] r[i].price.value()
        > #[trigger] r[j].price.value() by {
        assert(r[i] == s[s.len() - 1 - i]);
        assert(r[j] == s[s.len() - 1 - j]);
    }
}

/// The sorted levels of one side of a book.
pub struct PriceLevels {
    levels: Vec<Offer>,
}

impl View for PriceLevels {
    type V = Seq<Offer>;

    closed spec fn view(&self) -> Seq<Offer> {
        self.levels@
    }
}

impl PriceLevels {
    pub open spec fn wf(&self) -> bool {
        valid_levels(self@)
    }

    pub fn new() -> (r: PriceLevels)
        ensures
            r@ == Seq::<Offer>::empty(),
            r.wf(),
    {
        PriceLevels { levels: Vec::new() }
    }

    pub fn len(&self) -> (r: usize)
        ensures
            r == self@.len(),
    {
        self.levels.len()
    }

    /// The index of the first level whose price is not below `price`.
    fn position(&self, price: &Dec) -> (r: usize)
        requires
            self.wf(),
        ensures
            splits_at(self@, price.value(), r as int),
    {
        let mut lo: usize = 0;
        let mut hi: usize = self.levels.len();
        while lo < hi
            invariant
                0 <= lo <= hi <= self@.len(),
                self.wf(),
                forall|k: int| 0 <= k < lo ==> #[trigger] self@[k].price.value() < price.value(),
                forall|k: int|
                    hi <= k < self@.len() ==> price.value() <= #[trigger] self@[k].price.value(),
            decreases hi - lo,
        {
            let mid = lo + (hi - lo) / 2;
            let p = self.levels[mid].price;
            proof {
                use_type_invariant(&p);
                use_type_invariant(price);
            }
            match compare(&p, price) {
                Ordering::Less => {
                    lo = mid + 1;
                },
                _ => {
                    hi = mid;
                },
            }
        }
        lo
    }

    /// Sets the size at `price`; a size of zero removes the level there.
    pub fn upsert(&mut self, price: Dec, size: Dec)
        requires
            old(self).wf(),
        ensures
            final(self).wf(),
            final(self)@ == upserted(old(self)@, Offer { price, size }),
    {
        let ghost s = self@;
        let ghost o = Offer { price, size };
        let i = self.position(&price);
        proof {
            lemma_upserted_split(s, o, i as int);
        }
        let n = self.levels.len();
        let mut same = false;
        if i < n {
            let p = self.levels[i].price;
            proof {
                use_type_invariant(&p);
                use_type_invariant(&price);
            }
            same = matches!(compare(&p, &price), Ordering::Equal);
        }
        if same {
            if size.is_zero() {
                self.levels.remove(i);
                assert(self@ =~= s.take(i as int) + s.skip(i as int).drop_first());
            } else {
                let p = self.levels[i].price;
                self.levels.set(i, Offer { price: p, size });
                assert(self@ =~= s.take(i as int) + (seq![Offer { price: p, size }] + s.skip(
                    i as int,
                ).drop_first()));
            }
        } else if !size.is_zero() {
            self.levels.insert(i, Offer { price, size });
            assert(self@ =~= s.take(i as int) + (seq![o] + s.skip(i as int)));
        } else {
            assert(s =~= s.take(i as int) + s.skip(i as int));
        }
    }

    /// Applies each of `offers` in order, as `upsert` does.
    pub fn upsert_all(&mut self, offers: &Vec<Offer>)
        requires
            old(self).wf(),
        ensures
            final(self).wf(),
            final(self)@ == upserted_all(old(self)@, offers@),
    {
        let ghost s = self@;
        let mut i: usize = 0;
        while i < offers.len()
            invariant
                i <= offers@.len(),
                self.wf(),
                self@ == upserted_all(s, offers@.take(i as int)),
            decreases offers@.len() - i,
        {
            let o = offers[i];
            self.upsert(o.price, o.size);
            assert(offers@.take(i + 1).drop_last() =~= offers@.take(i as int));
            i = i + 1;
        }
        assert(offers@.take(i as int) =~= offers@);
    }

    /// The levels of a snapshot's offers, those of size zero passed over.
    pub fn from_snapshot(offers: &Vec<Offer>) -> (r: PriceLevels)
        ensures
            r.wf(),
            r@ == snapshot_levels(offers@),
    {
        let mut levels = PriceLevels::new();
        let mut i: usize = 0;
        while i < offers.len()
            invariant
                i <= offers@.len(),
                levels.wf(),
                levels@ == snapshot_levels(offers@.take(i as int)),
            decreases offers@.len() - i,
        {
            let o = offers[i];
            if !o.size.is_zero() {
                levels.upsert(o.price, o.size);
            }
            assert(offers@.take(i + 1).drop_last() =~= offers@.take(i as int));
            i = i + 1;
        }
        assert(offers@.take(i as int) =~= offers@);
        levels
    }

    /// The levels as `(price, size)` pairs, lowest or highest price first.
    pub fn ordered(&self, direction: Direction) -> (r: Vec<Offer>)
        ensures
            r@ == in_direction(self@, direction),
    {
        let n = self.levels.len();
        let mut out: Vec<Offer> = Vec::new();
        let mut i: usize = 0;
        while i < n
            invariant
                n == self@.len(),
                i <= n,
                out@.len() == i,
                forall|k: int|
                    0 <= k < i ==> #[trigger] out@[k] == in_direction(self@, direction)[k],
            decreases n - i,
        {
            let o = match direction {
                Direction::Ascending => self.levels[i],
                Direction::Descending => self.levels[n - 1 - i],
            };
            out.push(o);
            i = i + 1;
        }
        assert(out@ =~= in_direction(self@, direction));
        out
    }
}

} // verus!
