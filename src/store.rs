use vstd::prelude::*;

use crate::event::{views, Event, EventView};

verus! {

/// Keys strictly increase along the sequence.
pub open spec fn sorted_keys(s: Seq<EventView>) -> bool {
    forall|i: int, j: int| 0 <= i < j < s.len() ==> s[i].maturation < s[j].maturation
}

pub open spec fn all_wf(s: Seq<EventView>) -> bool {
    forall|i: int| 0 <= i < s.len() ==> #[trigger] s[i].wf()
}

pub open spec fn has_key(s: Seq<EventView>, k: i64) -> bool {
    exists|i: int| 0 <= i < s.len() && s[i].maturation == k
}

/// The event stored under key `k`, if any.
pub open spec fn entry(s: Seq<EventView>, k: i64) -> Option<EventView> {
    if has_key(s, k) {
        Some(s[choose|i: int| 0 <= i < s.len() && s[i].maturation == k])
    } else {
        None
    }
}

/// Whether a key lies in the half-open interval `[start, end)`.
pub open spec fn in_window(e: EventView, start: int, end: int) -> bool {
    start <= e.maturation && e.maturation < end
}

/// The events whose keys lie in `[start, end)`, in key order.
pub open spec fn window(s: Seq<EventView>, start: int, end: int) -> Seq<EventView> {
    s.filter(|e: EventView| in_window(e, start, end))
}

pub proof fn lemma_entry_at(s: Seq<EventView>, i: int)
    requires
        sorted_keys(s),
        0 <= i < s.len(),
    ensures
        entry(s, s[i].maturation) == Some(s[i]),
{
    let k = s[i].maturation;
    assert(has_key(s, k));
    let j = choose|j: int| 0 <= j < s.len() && s[j].maturation == k;
    assert(i == j);
}

/// Ordered key-value store of the events of one asset pair.
pub struct EventStore {
    events: Vec<Event>,
}

impl View for EventStore {
    type V = Seq<EventView>;

    closed spec fn view(&self) -> Seq<EventView> {
        views(self.events@)
    }
}

impl EventStore {
    /// Keys unique and increasing; every event well formed.
    pub open spec fn wf(&self) -> bool {
        sorted_keys(self@) && all_wf(self@)
    }

    pub fn new() -> (r: EventStore)
        ensures
            r@ == Seq::<EventView>::empty(),
            r.wf(),
    {
        let r = EventStore { events: Vec::new() };
        assert(r@ =~= Seq::<EventView>::empty());
        r
    }

    pub fn len(&self) -> (r: usize)
        ensures
            r == self@.len(),
    {
        self.events.len()
    }

    pub fn is_empty(&self) -> (r: bool)
        ensures
            r == (self@.len() == 0),
    {
        self.events.len() == 0
    }

    /// The event at position `i` in key order.
    pub fn at(&self, i: usize) -> (r: &Event)
        requires
            i < self@.len(),
        ensures
            r@ == self@[i as int],
    {
        &self.events[i]
    }

    /// The event with the smallest key.
    pub fn first(&self) -> (r: Option<&Event>)
        ensures
            r.is_some() == (self@.len() > 0),
            r.is_some() ==> r.unwrap()@ == self@[0],
    {
        if self.events.len() == 0 {
            None
        } else {
            Some(&self.events[0])
        }
    }

    /// The event with the largest key.
    pub fn last(&self) -> (r: Option<&Event>)
        ensures
            r.is_some() == (self@.len() > 0),
            r.is_some() ==> r.unwrap()@ == self@.last(),
    {
        let n = self.events.len();
        if n == 0 {
            None
        } else {
            Some(&self.events[n - 1])
        }
    }

    /// Point lookup by key.
    pub fn get(&self, k: i64) -> (r: Option<&Event>)
        requires
            self.wf(),
        ensures
            r.is_some() == entry(self@, k).is_some(),
            r.is_some() ==> r.unwrap()@ == entry(self@, k).unwrap(),
    {
        let mut i: usize = 0;
        while i < self.events.len()
            invariant
                self.wf(),
                i <= self.events@.len(),
                self@.len() == self.events@.len(),
                forall|j: int| 0 <= j < i ==> self@[j].maturation != k,
            decreases self.events@.len() - i,
        {
            if self.events[i].maturation == k {
                proof {
                    assert(self@[i as int] == self.events@[i as int]@);
                    lemma_entry_at(self@, i as int);
                }
                return Some(&self.events[i]);
            }
            i = i + 1;
        }
        None
    }

    /// Insert or replace the event stored under `e.maturation`.
    pub fn put(&mut self, e: Event)
        requires
            old(self).wf(),
            e@.wf(),
        ensures
            final(self).wf(),
            forall|k: i64|
                #![trigger entry(final(self)@, k)]
                entry(final(self)@, k) == if k == e.maturation {
                    Some(e@)
                } else {
                    entry(old(self)@, k)
                },
            final(self)@.len() == old(self)@.len() + if has_key(old(self)@, e.maturation) {
                0int
            } else {
                1int
            },
            has_key(old(self)@, e.maturation) ==> forall|j: int|
                0 <= j < old(self)@.len() ==> #[trigger] final(self)@[j].maturation
                    == old(self)@[j].maturation,
            (old(self)@.len() == 0 || old(self)@.last().maturation < e.maturation)
                ==> final(self)@ == old(self)@.push(e@),
    {
        let k = e.maturation;
        let ghost s0 = self@;
        let ghost ev = e@;
        let mut i: usize = 0;
        while i < self.events.len() && self.events[i].maturation < k
            invariant
                self@ == s0,
                sorted_keys(s0),
                all_wf(s0),
                i <= self.events@.len(),
                s0.len() == self.events@.len(),
                forall|j: int| 0 <= j < i ==> s0[j].maturation < k,
            decreases self.events@.len() - i,
        {
            i = i + 1;
        }
        if i < self.events.len() && self.events[i].maturation == k {
            assert(s0[i as int].maturation == k);
            self.events.set(i, e);
            proof {
                let s1 = self@;
                assert(s1 =~= s0.update(i as int, ev));
                assert(has_key(s0, k));
                assert(sorted_keys(s1));
                assert(all_wf(s1));
                assert forall|k2: i64|
                    #![trigger entry(s1, k2)]
                    entry(s1, k2) == if k2 == k {
                        Some(ev)
                    } else {
                        entry(s0, k2)
                    } by {
                    if k2 == k {
                        lemma_entry_at(s1, i as int);
                    } else if has_key(s0, k2) {
                        let j = choose|j: int| 0 <= j < s0.len() && s0[j].maturation == k2;
                        lemma_entry_at(s0, j);
                        lemma_entry_at(s1, j);
                    } else {
                        assert(!has_key(s1, k2));
                    }
                }
            }
        } else {
            proof {
                if i < s0.len() {
                    assert(s0[i as int].maturation > k);
                }
                assert forall|j: int| i <= j < s0.len() implies s0[j].maturation > k by {
                    if j > i {
                        assert(s0[i as int].maturation < s0[j].maturation);
                    }
                }
            }
            self.events.insert(i, e);
            proof {
                let s1 = self@;
                assert(s1 =~= s0.insert(i as int, ev));
                assert(!has_key(s0, k));
                assert(sorted_keys(s1));
                if s0.len() == 0 || s0.last().maturation < k {
                    assert(i == s0.len());
                    assert(s1 =~= s0.push(ev));
                }
                assert(all_wf(s1));
                assert forall|k2: i64|
                    #![trigger entry(s1, k2)]
                    entry(s1, k2) == if k2 == k {
                        Some(ev)
                    } else {
                        entry(s0, k2)
                    } by {
                    if k2 == k {
                        lemma_entry_at(s1, i as int);
                    } else if has_key(s0, k2) {
                        let j = choose|j: int| 0 <= j < s0.len() && s0[j].maturation == k2;
                        lemma_entry_at(s0, j);
                        if j < i {
                            lemma_entry_at(s1, j);
                        } else {
                            lemma_entry_at(s1, j + 1);
                        }
                    } else {
                        if has_key(s1, k2) {
                            let j = choose|j: int| 0 <= j < s1.len() && s1[j].maturation == k2;
                            if j < i {
                                assert(s0[j].maturation == k2);
                            } else {
                                assert(s0[j - 1].maturation == k2);
                            }
                        }
                    }
                }
            }
        }
    }

    /// The events whose keys lie in `[start, end)`, in key order.
    pub fn range(&self, start: i128, end: i128) -> (r: Vec<Event>)
        ensures
            views(r@) == window(self@, start as int, end as int),
    {
        let mut r: Vec<Event> = Vec::new();
        let mut i: usize = 0;
        while i < self.events.len()
            invariant
                i <= self.events@.len(),
                self@.len() == self.events@.len(),
                views(r@) == window(self@.subrange(0, i as int), start as int, end as int),
            decreases self.events@.len() - i,
        {
            let ghost before = r@;
            let e = &self.events[i];
            let ghost t = self@.subrange(0, i as int + 1);
            proof {
                assert(t.drop_last() =~= self@.subrange(0, i as int));
                assert(t.last() == e@);
            }
            let inside = start <= e.maturation as i128 && (e.maturation as i128) < end;
            if inside {
                r.push(e.duplicate());
                assert(views(r@) =~= views(before).push(e@));
            }
            proof {
                reveal(Seq::filter);
                assert(window(t, start as int, end as int) == if inside {
                    window(t.drop_last(), start as int, end as int).push(t.last())
                } else {
                    window(t.drop_last(), start as int, end as int)
                });
            }
            i = i + 1;
        }
        assert(self@.subrange(0, i as int) =~= self@);
        r
    }
}

} // verus!
