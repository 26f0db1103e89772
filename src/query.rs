use vstd::prelude::*;

use crate::event::{views, Event, EventView};
use crate::store::{entry, in_window, sorted_keys, window, EventStore};

verus! {

/// Width of one page: one hundred days, in seconds.
pub const PAGE_WIDTH: u64 = 8640000;

/// Smallest key that has an RFC 3339 text (0000-01-01T00:00:00Z).
pub const MIN_TEXT_KEY: i64 = -62167219200;

/// Largest key that has an RFC 3339 text (9999-12-31T23:59:59Z).
pub const MAX_TEXT_KEY: i64 = 253402300799;

/// The direction in which pages walk through the keys.
#[derive(PartialEq, Eq, Structural, Clone, Copy, Debug)]
pub enum SortOrder {
    /// Forward from the earliest key.
    Insertion,
    /// Backward from the latest key.
    ReverseInsertion,
}

/// First key (inclusive) of page `page` of `width` seconds.
pub open spec fn page_start(s: Seq<EventView>, order: SortOrder, page: int, width: int) -> int {
    match order {
        SortOrder::Insertion => s[0].maturation + page * width,
        SortOrder::ReverseInsertion => s.last().maturation - (page + 1) * width + 1,
    }
}

/// The events on page `page`: those whose keys lie in the page's window,
/// in key order. Windows are measured from the current first key (forward)
/// or the current last key (backward), the latest key being on backward
/// page zero.
pub open spec fn page_spec(s: Seq<EventView>, order: SortOrder, page: int, width: int) -> Seq<
    EventView,
> {
    if s.len() == 0 {
        Seq::empty()
    } else {
        let start = page_start(s, order, page, width);
        window(s, start, start + width)
    }
}

/// The page that holds the event at position `i`.
pub open spec fn page_of(s: Seq<EventView>, order: SortOrder, i: int, width: int) -> int {
    match order {
        SortOrder::Insertion => (s[i].maturation - s[0].maturation) / width,
        SortOrder::ReverseInsertion => (s.last().maturation - s[i].maturation) / width,
    }
}

/// The events on one page of the store.
pub fn list(store: &EventStore, order: SortOrder, page: u32, width: u64) -> (r: Vec<Event>)
    ensures
        views(r@) == page_spec(store@, order, page as int, width as int),
{
    let bound = match order {
        SortOrder::Insertion => store.first(),
        SortOrder::ReverseInsertion => store.last(),
    };
    match bound {
        None => Vec::new(),
        Some(e) => {
            assert(0 <= page as int * width as int <= 0x1_0000_0000 * 0x1_0000_0000_0000_0000)
                by (nonlinear_arith);
            let offset = page as i128 * width as i128;
            let start = match order {
                SortOrder::Insertion => e.maturation as i128 + offset,
                SortOrder::ReverseInsertion => e.maturation as i128 - offset - width as i128 + 1,
            };
            assert((page as int + 1) * width as int == page as int * width as int + width as int)
                by (nonlinear_arith);
            store.range(start, start + width as i128)
        },
    }
}

pub proof fn lemma_page_unique(d: int, w: int, p: int)
    requires
        w > 0,
        d >= 0,
        p >= 0,
    ensures
        (p * w <= d < p * w + w) <==> p == d / w,
{
    assert(0 <= d % w < w && d == (d / w) * w + d % w) by (nonlinear_arith)
        requires
            w > 0,
    ;
    if p < d / w {
        assert(p * w + w <= (d / w) * w) by (nonlinear_arith)
            requires
                p < d / w,
                w > 0,
        ;
    } else if p > d / w {
        assert(p * w >= (d / w) * w + w) by (nonlinear_arith)
            requires
                p > d / w,
                w > 0,
        ;
    }
}

/// Pages cover the store exactly once: in either order, every stored event
/// lies on exactly one page, `page_of`, and on no other.
pub proof fn lemma_pages_partition(s: Seq<EventView>, order: SortOrder, width: int, i: int)
    requires
        sorted_keys(s),
        width > 0,
        0 <= i < s.len(),
    ensures
        page_of(s, order, i, width) >= 0,
        forall|p: int|
            p >= 0 ==> (#[trigger] in_window(
                s[i],
                page_start(s, order, p, width),
                page_start(s, order, p, width) + width,
            ) <==> p == page_of(s, order, i, width)),
{
    let d = match order {
        SortOrder::Insertion => s[i].maturation - s[0].maturation,
        SortOrder::ReverseInsertion => s.last().maturation - s[i].maturation,
    };
    if i > 0 {
        assert(s[0].maturation < s[i].maturation);
    }
    if i < s.len() - 1 {
        assert(s[i].maturation < s[s.len() - 1].maturation);
    }
    assert(d >= 0);
    assert(d / width >= 0) by (nonlinear_arith)
        requires
            d >= 0,
            width > 0,
    ;
    assert forall|p: int| p >= 0 implies (#[trigger] in_window(
        s[i],
        page_start(s, order, p, width),
        page_start(s, order, p, width) + width,
    ) <==> p == page_of(s, order, i, width)) by {
        lemma_page_unique(d, width, p);
        assert((p + 1) * width == p * width + width) by (nonlinear_arith);
    }
}

/// Every event stored under a key in `[start, end)` is returned by a scan
/// of that window.
pub proof fn lemma_window_holds_entry(s: Seq<EventView>, k: i64, start: int, end: int)
    requires
        sorted_keys(s),
        entry(s, k).is_some(),
        start <= k < end,
    ensures
        window(s, start, end).contains(entry(s, k).unwrap()),
{
    let i = choose|i: int| 0 <= i < s.len() && s[i].maturation == k;
    crate::store::lemma_entry_at(s, i);
    s.lemma_filter_contains(|e: EventView| in_window(e, start, end), i);
}

} // verus!
