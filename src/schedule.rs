use vstd::prelude::*;

use crate::aggregate::{aggregate, aggregate_spec};
use crate::event::{Event, EventView};
use crate::signer::{attestation_message, schnorr_signature, valid_secret, KeySigner};
use crate::store::{entry, has_key, EventStore};

verus! {

/// Consecutive keys differ by exactly `cadence`.
pub open spec fn spaced(s: Seq<EventView>, cadence: int) -> bool {
    forall|i: int| 1 <= i < s.len() ==> #[trigger] s[i].maturation == s[i - 1].maturation + cadence
}

/// Keys one cadence apart lie on a grid: the `j`-th key is `j - i`
/// cadences after the `i`-th, so with a positive cadence keys strictly
/// increase.
pub proof fn lemma_spaced_grid(s: Seq<EventView>, cadence: int, i: int, j: int)
    requires
        spaced(s, cadence),
        cadence > 0,
        0 <= i <= j < s.len(),
    ensures
        s[j].maturation == s[i].maturation + (j - i) * cadence,
        i < j ==> s[i].maturation < s[j].maturation,
    decreases j - i,
{
    if i < j {
        lemma_spaced_grid(s, cadence, i, j - 1);
        assert(s[j].maturation == s[j - 1].maturation + cadence);
        assert((j - i) * cadence == (j - 1 - i) * cadence + cadence) by (nonlinear_arith);
        assert((j - 1 - i) * cadence >= 0) by (nonlinear_arith)
            requires
                i <= j - 1,
                cadence > 0,
        ;
    } else {
        assert((j - i) * cadence == 0) by (nonlinear_arith)
            requires
                i == j,
        ;
    }
}

/// The maturation the next announcement would get: `now + lead` for the
/// first event, one cadence after the latest event afterwards.
pub open spec fn next_maturation(s: Seq<EventView>, now: int, cadence: int, lead: int) -> int {
    if s.len() == 0 {
        now + lead
    } else {
        s.last().maturation + cadence
    }
}

/// The maturation to announce at time `now`, if one is due: the first event
/// at once, a later one once its maturation is no further than `lead` ahead.
pub open spec fn planned(s: Seq<EventView>, now: int, cadence: int, lead: int) -> Option<i64> {
    let m = next_maturation(s, now, cadence, lead);
    if m <= now + lead && i64::MIN <= m <= i64::MAX {
        Some(m as i64)
    } else {
        None
    }
}

/// Keys of the pending events whose maturation is at or before `now`, in
/// key order.
pub open spec fn pending_due(s: Seq<EventView>, now: int) -> Seq<i64>
    decreases s.len(),
{
    if s.len() == 0 {
        Seq::empty()
    } else {
        let rest = pending_due(s.drop_last(), now);
        let e = s.last();
        if !e.is_attested() && e.maturation <= now {
            rest.push(e.maturation)
        } else {
            rest
        }
    }
}

/// The model of `e` once attested: its one-time key is dropped.
pub open spec fn attested(e: EventView, outcome: u64, signature: Seq<u8>) -> EventView {
    EventView { nonce: None, attestation: Some(signature), outcome: Some(outcome), ..e }
}

/// Announcement timing of one asset pair, in seconds.
pub struct Schedule {
    pub cadence: i64,
    pub lead: i64,
}

impl Schedule {
    pub open spec fn wf(&self) -> bool {
        self.cadence > 0 && self.lead >= 0
    }

    pub fn new(cadence: i64, lead: i64) -> (r: Schedule)
        requires
            cadence > 0,
            lead >= 0,
        ensures
            r.cadence == cadence,
            r.lead == lead,
            r.wf(),
    {
        Schedule { cadence, lead }
    }

    /// The maturation due for announcement at time `now`, if any.
    pub fn planned_maturation(&self, store: &EventStore, now: i64) -> (r: Option<i64>)
        ensures
            r == planned(store@, now as int, self.cadence as int, self.lead as int),
    {
        let horizon = now as i128 + self.lead as i128;
        let m: i128 = match store.last() {
            None => horizon,
            Some(e) => e.maturation as i128 + self.cadence as i128,
        };
        if m <= horizon && i64::MIN as i128 <= m && m <= i64::MAX as i128 {
            Some(m as i64)
        } else {
            None
        }
    }

    /// One announcement step at time `now`: when a maturation is due, store a
    /// pending event for it carrying `announcement` and the secret `nonce` of
    /// its one-time key, and return its key.
    pub fn announce(
        &self,
        store: &mut EventStore,
        now: i64,
        announcement: Vec<u8>,
        nonce: Vec<u8>,
    ) -> (r: Option<i64>)
        requires
            self.wf(),
            old(store).wf(),
            spaced(old(store)@, self.cadence as int),
        ensures
            final(store).wf(),
            spaced(final(store)@, self.cadence as int),
            r == planned(old(store)@, now as int, self.cadence as int, self.lead as int),
            r.is_none() ==> final(store)@ == old(store)@,
            r.is_some() ==> !has_key(old(store)@, r.unwrap()),
            r.is_some() ==> final(store)@ == old(store)@.push(
                EventView {
                    maturation: r.unwrap(),
                    announcement: announcement@,
                    nonce: Some(nonce@),
                    attestation: None,
                    outcome: None,
                },
            ),
    {
        let ghost s0 = store@;
        match self.planned_maturation(store, now) {
            None => None,
            Some(m) => {
                let e = Event::announced(m, announcement, nonce);
                store.put(e);
                proof {
                    let s1 = store@;
                    if has_key(s0, m) {
                        let j = choose|j: int| 0 <= j < s0.len() && s0[j].maturation == m;
                        assert(s1[j].maturation < s1[s0.len() as int].maturation);
                    }
                    assert forall|i: int| 1 <= i < s1.len() implies #[trigger] s1[i].maturation
                        == s1[i - 1].maturation + self.cadence by {
                        if i < s0.len() {
                            assert(s0[i].maturation == s0[i - 1].maturation + self.cadence);
                        }
                    }
                }
                Some(m)
            },
        }
    }

    /// Keys of the pending events whose maturation has passed at `now`.
    pub fn due_for_attestation(&self, store: &EventStore, now: i64) -> (r: Vec<i64>)
        ensures
            r@ == pending_due(store@, now as int),
    {
        let mut r: Vec<i64> = Vec::new();
        let mut i: usize = 0;
        while i < store.len()
            invariant
                i <= store@.len(),
                r@ == pending_due(store@.subrange(0, i as int), now as int),
            decreases store@.len() - i,
        {
            let ghost t = store@.subrange(0, i as int + 1);
            let e = store.at(i);
            assert(t.drop_last() =~= store@.subrange(0, i as int));
            if !e.is_attested() && e.maturation <= now {
                r.push(e.maturation);
            }
            i = i + 1;
        }
        assert(store@.subrange(0, i as int) =~= store@);
        r
    }
}

/// Record the outcome and signature of the event stored under `key`. Only a
/// pending event changes: an attested one keeps its attestation and outcome,
/// and the result tells whether the store changed.
pub fn record_attestation(store: &mut EventStore, key: i64, outcome: u64, signature: Vec<u8>) -> (r:
    bool)
    requires
        old(store).wf(),
    ensures
        final(store).wf(),
        r == (entry(old(store)@, key).is_some() && !entry(old(store)@, key).unwrap().is_attested()),
        !r ==> final(store)@ == old(store)@,
        r ==> forall|k: i64|
            #![trigger entry(final(store)@, k)]
            entry(final(store)@, k) == if k == key {
                Some(attested(entry(old(store)@, key).unwrap(), outcome, signature@))
            } else {
                entry(old(store)@, k)
            },
        final(store)@.len() == old(store)@.len(),
        forall|j: int|
            0 <= j < old(store)@.len() ==> #[trigger] final(store)@[j].maturation
                == old(store)@[j].maturation,
{
    let next = match store.get(key) {
        None => None,
        Some(e) => {
            if e.is_attested() {
                None
            } else {
                let announcement = crate::event::copy_bytes(&e.announcement);
                Some(
                    Event {
                        maturation: key,
                        announcement,
                        nonce: None,
                        attestation: Some(signature),
                        outcome: Some(outcome),
                    },
                )
            }
        },
    };
    match next {
        None => false,
        Some(e) => {
            proof {
                let v = entry(store@, key).unwrap();
                assert(has_key(store@, key));
                assert(e@ == attested(v, outcome, signature@));
            }
            store.put(e);
            true
        },
    }
}

/// What one attestation step did to an event.
pub enum Resolution {
    /// No event is stored under the key.
    Unknown,
    /// The event was attested before and is left as it was.
    AlreadyAttested,
    /// Too few price sources answered; the event stays pending.
    QuorumNotMet,
    /// The pending event holds no valid one-time key; it stays pending.
    MissingNonce,
    /// The event is now attested with this outcome.
    Attested(u64),
}

/// Whether a stored event can be signed with its own one-time key.
pub open spec fn signable(e: EventView) -> bool {
    e.nonce.is_some() && valid_secret(e.nonce.unwrap())
}

/// One attestation step for the event under `key`: combine the price
/// quotes under the quorum policy, sign the outcome with the event's one-time
/// key and record it. The event changes only if it was pending, held a valid
/// one-time key and the quorum was met.
pub fn resolve_event(
    store: &mut EventStore,
    key: i64,
    quotes: &Vec<Option<u64>>,
    quorum: usize,
) -> (r: Resolution)
    requires
        old(store).wf(),
    ensures
        final(store).wf(),
        entry(old(store)@, key).is_none() ==> r == Resolution::Unknown,
        entry(old(store)@, key).is_some() && entry(old(store)@, key).unwrap().is_attested() ==> r
            == Resolution::AlreadyAttested,
        entry(old(store)@, key).is_some() && !entry(old(store)@, key).unwrap().is_attested()
            && !signable(entry(old(store)@, key).unwrap()) ==> r == Resolution::MissingNonce,
        entry(old(store)@, key).is_some() && !entry(old(store)@, key).unwrap().is_attested()
            && signable(entry(old(store)@, key).unwrap()) ==> r == match aggregate_spec(
            quotes@,
            quorum,
        ) {
            Some(o) => Resolution::Attested(o),
            None => Resolution::QuorumNotMet,
        },
        !(r is Attested) ==> final(store)@ == old(store)@,
        r matches Resolution::Attested(o) ==> forall|k: i64|
            #![trigger entry(final(store)@, k)]
            entry(final(store)@, k) == if k == key {
                Some(
                    attested(
                        entry(old(store)@, key).unwrap(),
                        o,
                        schnorr_signature(
                            entry(old(store)@, key).unwrap().nonce.unwrap(),
                            attestation_message(key, o),
                        ),
                    ),
                )
            } else {
                entry(old(store)@, k)
            },
        final(store)@.len() == old(store)@.len(),
        forall|j: int|
            0 <= j < old(store)@.len() ==> #[trigger] final(store)@[j].maturation
                == old(store)@[j].maturation,
{
    let one_time = match store.get(key) {
        None => {
            return Resolution::Unknown;
        },
        Some(e) => {
            if e.is_attested() {
                return Resolution::AlreadyAttested;
            }
            match &e.nonce {
                None => None,
                Some(n) => KeySigner::from_secret(crate::event::copy_bytes(n)),
            }
        },
    };
    let one_time = match one_time {
        None => {
            return Resolution::MissingNonce;
        },
        Some(s) => s,
    };
    match aggregate(quotes, quorum) {
        None => Resolution::QuorumNotMet,
        Some(o) => {
            let signature = one_time.attest(key, o);
            record_attestation(store, key, o, signature);
            Resolution::Attested(o)
        },
    }
}

} // verus!
