use vstd::prelude::*;
use vstd::multiset::Multiset;
use vstd::relations::{sorted_by, total_ordering};
use vstd::seq_lib::{lemma_sorted_unique, to_multiset_build, to_multiset_insert};

verus! {

/// The order in which prices are ranked.
pub open spec fn ascending() -> spec_fn(u64, u64) -> bool {
    |a: u64, b: u64| a <= b
}

/// The prices of the sources that answered, in source order.
pub open spec fn responded(quotes: Seq<Option<u64>>) -> Seq<u64>
    decreases quotes.len(),
{
    if quotes.len() == 0 {
        Seq::empty()
    } else {
        let rest = responded(quotes.drop_last());
        match quotes.last() {
            Some(p) => rest.push(p),
            None => rest,
        }
    }
}

/// The prices in ascending order.
pub open spec fn ranked(prices: Seq<u64>) -> Seq<u64> {
    prices.sort_by(ascending())
}

/// Median of a non-empty price set. With an even count it is the mean of the
/// two middle prices, rounded down.
pub open spec fn median(prices: Seq<u64>) -> int {
    let t = ranked(prices);
    let n = t.len() as int;
    if n % 2 == 1 {
        t[n / 2] as int
    } else {
        (t[n / 2 - 1] + t[n / 2]) / 2
    }
}

/// The least number of answers needed: the configured quorum, and never zero.
pub open spec fn needed(quorum: usize) -> int {
    if quorum == 0 {
        1
    } else {
        quorum as int
    }
}

/// The outcome of a resolution: the median of the answers when enough
/// sources answered, nothing otherwise.
pub open spec fn aggregate_spec(quotes: Seq<Option<u64>>, quorum: usize) -> Option<u64> {
    let ps = responded(quotes);
    if ps.len() >= needed(quorum) {
        Some(median(ps) as u64)
    } else {
        None
    }
}

pub proof fn lemma_ascending_total()
    ensures
        total_ordering(ascending()),
{
}

/// The prices of the sources that answered.
pub fn responses(quotes: &Vec<Option<u64>>) -> (r: Vec<u64>)
    ensures
        r@ == responded(quotes@),
{
    let mut r: Vec<u64> = Vec::new();
    let mut i: usize = 0;
    while i < quotes.len()
        invariant
            i <= quotes@.len(),
            r@ == responded(quotes@.subrange(0, i as int)),
        decreases quotes@.len() - i,
    {
        let ghost t = quotes@.subrange(0, i as int + 1);
        assert(t.drop_last() =~= quotes@.subrange(0, i as int));
        match quotes[i] {
            Some(p) => r.push(p),
            None => {},
        }
        i = i + 1;
    }
    assert(quotes@.subrange(0, i as int) =~= quotes@);
    r
}

/// The prices in ascending order.
pub fn rank(prices: &Vec<u64>) -> (r: Vec<u64>)
    ensures
        r@ == ranked(prices@),
{
    let mut r: Vec<u64> = Vec::new();
    let mut i: usize = 0;
    assert(r@ =~= prices@.subrange(0, 0));
    while i < prices.len()
        invariant
            i <= prices@.len(),
            sorted_by(r@, ascending()),
            r@.to_multiset() == prices@.subrange(0, i as int).to_multiset(),
        decreases prices@.len() - i,
    {
        let x = prices[i];
        let mut pos: usize = 0;
        while pos < r.len() && r[pos] <= x
            invariant
                pos <= r@.len(),
                forall|j: int| 0 <= j < pos ==> r@[j] <= x,
            decreases r@.len() - pos,
        {
            pos = pos + 1;
        }
        let ghost before = r@;
        proof {
            assert forall|j: int| pos <= j < before.len() implies before[j] > x by {
                if j > pos {
                    assert(ascending()(before[pos as int], before[j]));
                }
            }
            to_multiset_insert(before, pos as int, x);
            to_multiset_build(prices@.subrange(0, i as int), x);
            assert(prices@.subrange(0, i as int + 1) =~= prices@.subrange(0, i as int).push(x));
        }
        r.insert(pos, x);
        proof {
            assert(r@ =~= before.insert(pos as int, x));
            assert forall|a: int, b: int| 0 <= a < b < r@.len() implies #[trigger] ascending()(
                r@[a],
                r@[b],
            ) by {
                if a < pos && b > pos {
                    assert(ascending()(before[a], before[b - 1]));
                } else if b < pos {
                    assert(ascending()(before[a], before[b]));
                } else if a > pos {
                    assert(ascending()(before[a - 1], before[b - 1]));
                }
            }
        }
        i = i + 1;
    }
    proof {
        assert(prices@.subrange(0, i as int) =~= prices@);
        lemma_ascending_total();
        prices@.lemma_sort_by_ensures(ascending());
        lemma_sorted_unique(r@, ranked(prices@), ascending());
    }
    r
}

/// Median of a non-empty price set, rounded down.
pub fn median_price(prices: &Vec<u64>) -> (r: u64)
    requires
        prices@.len() > 0,
    ensures
        r == median(prices@),
{
    let t = rank(prices);
    proof {
        prices@.lemma_sort_by_ensures(ascending());
        lemma_ascending_total();
        prices@.to_multiset_ensures();
        t@.to_multiset_ensures();
    }
    let n = t.len();
    if n % 2 == 1 {
        t[n / 2]
    } else {
        let a = t[n / 2 - 1];
        let b = t[n / 2];
        ((a as u128 + b as u128) / 2) as u64
    }
}

/// Combine the answers of the price sources into one outcome. The sources
/// that did not answer (`None`) are left out; with fewer than `quorum`
/// answers (and never with none) there is no outcome and the event stays
/// pending.
pub fn aggregate(quotes: &Vec<Option<u64>>, quorum: usize) -> (r: Option<u64>)
    ensures
        r == aggregate_spec(quotes@, quorum),
        r.is_some() == (responded(quotes@).len() >= needed(quorum)),
{
    let ps = responses(quotes);
    let need: usize = if quorum == 0 {
        1
    } else {
        quorum
    };
    if ps.len() < need {
        None
    } else {
        Some(median_price(&ps))
    }
}

/// With a quorum of two: a single answer gives no outcome, and two answers
/// `low < high`, in either order, give their median `(low + high) / 2`.
pub proof fn lemma_quorum_of_two(quotes: Seq<Option<u64>>, low: u64, high: u64)
    requires
        low < high,
    ensures
        responded(quotes).len() == 1 ==> aggregate_spec(quotes, 2).is_none(),
        responded(quotes) == seq![low, high] || responded(quotes) == seq![high, low] ==> aggregate_spec(
            quotes,
            2,
        ) == Some(((low as int + high as int) / 2) as u64),
{
    let up = seq![low, high];
    let down = seq![high, low];
    let ps = responded(quotes);
    if ps == up || ps == down {
        lemma_ascending_total();
        ps.lemma_sort_by_ensures(ascending());
        to_multiset_build(Seq::<u64>::empty(), low);
        to_multiset_build(seq![low], high);
        to_multiset_build(Seq::<u64>::empty(), high);
        to_multiset_build(seq![high], low);
        assert(Seq::<u64>::empty().push(low) =~= seq![low]);
        assert(Seq::<u64>::empty().push(high) =~= seq![high]);
        assert(seq![low].push(high) =~= up);
        assert(seq![high].push(low) =~= down);
        assert(Seq::<u64>::empty().to_multiset() =~= Multiset::<u64>::empty()) by {
            Seq::<u64>::empty().to_multiset_ensures();
        }
        assert(up.to_multiset() =~= down.to_multiset());
        assert(sorted_by(up, ascending()));
        lemma_sorted_unique(up, ranked(ps), ascending());
    }
}

} // verus!
