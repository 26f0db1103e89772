use vstd::prelude::*;
use vstd::string::StrSliceExecFns;

use crate::event::{views, Event, EventView};
use crate::query::{list, page_spec, SortOrder, MAX_TEXT_KEY, MIN_TEXT_KEY, PAGE_WIDTH};
use crate::schedule::{resolve_event, signable, spaced, Resolution, Schedule};
use crate::signer::KeySigner;
use crate::store::{entry, EventStore};

verus! {

/// The RFC 3339 text of a key, as the `time` crate writes it in UTC.
pub uninterp spec fn rfc3339_text(k: i64) -> Seq<char>;

/// The instant, in Unix seconds, that an RFC 3339 text denotes, if it is one.
pub uninterp spec fn rfc3339_seconds(s: Seq<char>) -> Option<i64>;

/// Relies on time's `OffsetDateTime::from_unix_timestamp` and its `format`
/// with `Rfc3339`: a text exists exactly for the years 0 to 9999.
#[verifier::external_body]
fn format_key(k: i64) -> (r: Option<String>)
    ensures
        r.is_some() == (MIN_TEXT_KEY <= k <= MAX_TEXT_KEY),
        r.is_some() ==> r.unwrap()@ == rfc3339_text(k),
{
    match time::OffsetDateTime::from_unix_timestamp(k) {
        Ok(t) => t.format(&time::format_description::well_known::Rfc3339).ok(),
        Err(_) => None,
    }
}

/// Relies on time's `OffsetDateTime::parse` with `Rfc3339`, read back with
/// `unix_timestamp`.
#[verifier::external_body]
fn parse_key(s: &str) -> (r: Option<i64>)
    ensures
        r == rfc3339_seconds(s@),
{
    match time::OffsetDateTime::parse(s, &time::format_description::well_known::Rfc3339) {
        Ok(t) => Some(t.unix_timestamp()),
        Err(_) => None,
    }
}

pub open spec fn hex_digits() -> Seq<char> {
    seq!['0', '1', '2', '3', '4', '5', '6', '7', '8', '9', 'a', 'b', 'c', 'd', 'e', 'f']
}

/// Lower-case hexadecimal text of bytes, two digits per byte, high digit first.
pub open spec fn hex_text(b: Seq<u8>) -> Seq<char> {
    Seq::new(
        2 * b.len(),
        |i: int|
            if i % 2 == 0 {
                hex_digits()[b[i / 2] as int / 16]
            } else {
                hex_digits()[b[i / 2] as int % 16]
            },
    )
}

/// Relies on hex's `encode`: two lower-case digits per byte, in order.
#[verifier::external_body]
fn to_hex(b: &Vec<u8>) -> (r: String)
    ensures
        r@ == hex_text(b@),
{
    hex::encode(b)
}

/// Whether two texts hold the same characters.
pub fn same_text(a: &str, b: &str) -> (r: bool)
    ensures
        r == (a@ == b@),
{
    let n = a.unicode_len();
    if n != b.unicode_len() {
        return false;
    }
    let mut i: usize = 0;
    while i < n
        invariant
            n == a@.len(),
            n == b@.len(),
            i <= n,
            forall|j: int| 0 <= j < i ==> a@[j] == b@[j],
        decreases n - i,
    {
        if a.get_char(i) != b.get_char(i) {
            return false;
        }
        i = i + 1;
    }
    assert(a@ =~= b@);
    true
}

/// The trading pairs the oracle knows.
#[derive(PartialEq, Eq, Structural, Clone, Copy, Debug, Hash)]
pub enum AssetPair {
    BTCUSD,
}

/// An event as the query interface shows it.
#[derive(Debug)]
pub struct ApiOracleEvent {
    pub asset_pair: AssetPair,
    pub announcement: String,
    pub attestation: Option<String>,
    pub maturation: String,
    pub outcome: Option<u64>,
}

pub open spec fn hex_view(o: Option<Seq<u8>>) -> Option<Seq<char>> {
    match o {
        Some(b) => Some(hex_text(b)),
        None => None,
    }
}

pub open spec fn string_view(o: Option<String>) -> Option<Seq<char>> {
    match o {
        Some(s) => Some(s@),
        None => None,
    }
}

/// Whether `a` shows the event `e` of asset pair `pair`.
pub open spec fn shows(a: ApiOracleEvent, pair: AssetPair, e: EventView) -> bool {
    &&& a.asset_pair == pair
    &&& a.announcement@ == hex_text(e.announcement)
    &&& string_view(a.attestation) == hex_view(e.attestation)
    &&& a.maturation@ == rfc3339_text(e.maturation)
    &&& a.outcome == e.outcome
}

pub open spec fn has_text(e: EventView) -> bool {
    MIN_TEXT_KEY <= e.maturation <= MAX_TEXT_KEY
}

/// The parameters of a page query.
pub struct Filters {
    pub sort_by: SortOrder,
    pub page: u32,
    pub asset_pair: AssetPair,
}

impl Default for Filters {
    /// The newest page of the primary asset pair.
    fn default() -> (r: Filters)
        ensures
            r.sort_by == SortOrder::ReverseInsertion,
            r.page == 0,
            r.asset_pair == AssetPair::BTCUSD,
    {
        Filters { sort_by: SortOrder::ReverseInsertion, page: 0, asset_pair: AssetPair::BTCUSD }
    }
}

/// Why a query gave no result.
#[derive(PartialEq, Eq, Structural, Clone, Copy, Debug)]
pub enum QueryError {
    /// No oracle runs for the asset pair.
    UnknownAssetPair(AssetPair),
    /// The requested maturation is not an RFC 3339 text.
    MalformedTimestamp,
    /// No event is stored under the requested maturation.
    NotFound,
    /// A stored key lies outside the years that RFC 3339 can write.
    KeyWithoutText(i64),
}

/// The event as the query interface shows it; `None` when its key has no
/// RFC 3339 text.
pub fn parse_database_entry(asset_pair: AssetPair, e: &Event) -> (r: Option<ApiOracleEvent>)
    ensures
        r.is_some() == has_text(e@),
        r.is_some() ==> shows(r.unwrap(), asset_pair, e@),
{
    let maturation = match format_key(e.maturation) {
        Some(t) => t,
        None => {
            return None;
        },
    };
    let attestation = match &e.attestation {
        Some(a) => Some(to_hex(a)),
        None => None,
    };
    Some(
        ApiOracleEvent {
            asset_pair,
            announcement: to_hex(&e.announcement),
            attestation,
            maturation,
            outcome: e.outcome,
        },
    )
}

/// The oracle of one asset pair: its events and its timing.
pub struct Oracle {
    pub asset_pair: AssetPair,
    pub event_database: EventStore,
    pub schedule: Schedule,
}

impl Oracle {
    /// Store well formed, timing valid, keys one cadence apart.
    pub open spec fn wf(&self) -> bool {
        &&& self.event_database.wf()
        &&& self.schedule.wf()
        &&& spaced(self.event_database@, self.schedule.cadence as int)
    }

    /// An oracle with no events yet.
    pub fn new(asset_pair: AssetPair, schedule: Schedule) -> (r: Oracle)
        requires
            schedule.wf(),
        ensures
            r.wf(),
            r.asset_pair == asset_pair,
            r.schedule == schedule,
            r.event_database@.len() == 0,
    {
        Oracle { asset_pair, event_database: EventStore::new(), schedule }
    }

    /// The announcement step at time `now`: when a maturation is due, store a
    /// pending event for it with a fresh one-time key, announced under the
    /// oracle's signature.
    pub fn announce_due(&mut self, now: i64, signer: &KeySigner) -> (r: Option<i64>)
        requires
            old(self).wf(),
            signer.wf(),
        ensures
            final(self).wf(),
            final(self).asset_pair == old(self).asset_pair,
            final(self).schedule == old(self).schedule,
            r == crate::schedule::planned(
                old(self).event_database@,
                now as int,
                old(self).schedule.cadence as int,
                old(self).schedule.lead as int,
            ),
            r.is_none() ==> final(self).event_database@ == old(self).event_database@,
            r.is_some() ==> final(self).event_database@.len() == old(self).event_database@.len() + 1
                && final(self).event_database@.drop_last() == old(self).event_database@
                && final(self).event_database@.last().maturation == r.unwrap()
                && !final(self).event_database@.last().is_attested()
                && signable(final(self).event_database@.last())
                && final(self).event_database@.last().announcement == signer.announcement_of(
                final(self).event_database@.last().nonce.unwrap(),
            ),
    {
        let planned = self.schedule.planned_maturation(&self.event_database, now);
        if planned.is_none() {
            return None;
        }
        let (nonce, announcement) = signer.commit();
        let r = self.schedule.announce(&mut self.event_database, now, announcement, nonce);
        proof {
            if r.is_some() {
                assert(self.event_database@.drop_last() =~= old(self).event_database@);
            }
        }
        r
    }

    /// How far the announcements still are from being caught up at `now`.
    pub open spec fn backlog(&self, now: int) -> int {
        let s = self.event_database@;
        let horizon = now + self.schedule.lead + self.schedule.cadence;
        if s.len() == 0 {
            2 * self.schedule.cadence
        } else {
            horizon - s.last().maturation
        }
    }

    /// The announcement step at time `now`, repeated until no maturation is
    /// due: the keys announced, in order.
    pub fn announce_all_due(&mut self, now: i64, signer: &KeySigner) -> (r: Vec<i64>)
        requires
            old(self).wf(),
            signer.wf(),
        ensures
            final(self).wf(),
            final(self).asset_pair == old(self).asset_pair,
            final(self).schedule == old(self).schedule,
            final(self).event_database@.len() == old(self).event_database@.len() + r@.len(),
            final(self).event_database@.subrange(0, old(self).event_database@.len() as int)
                == old(self).event_database@,
            forall|i: int|
                0 <= i < r@.len() ==> {
                    let e = #[trigger] final(self).event_database@[old(self).event_database@.len()
                        + i];
                    e.maturation == r@[i] && !e.is_attested()
                },
            crate::schedule::planned(
                final(self).event_database@,
                now as int,
                final(self).schedule.cadence as int,
                final(self).schedule.lead as int,
            ).is_none(),
    {
        let ghost s0 = self.event_database@;
        let mut r: Vec<i64> = Vec::new();
        let mut next = self.schedule.planned_maturation(&self.event_database, now);
        while next.is_some()
            invariant
                self.wf(),
                signer.wf(),
                self.asset_pair == old(self).asset_pair,
                self.schedule == old(self).schedule,
                s0 == old(self).event_database@,
                self.event_database@.len() == s0.len() + r@.len(),
                self.event_database@.subrange(0, s0.len() as int) == s0,
                forall|i: int|
                    0 <= i < r@.len() ==> {
                        let e = #[trigger] self.event_database@[s0.len() + i];
                        e.maturation == r@[i] && !e.is_attested()
                    },
                next == crate::schedule::planned(
                    self.event_database@,
                    now as int,
                    self.schedule.cadence as int,
                    self.schedule.lead as int,
                ),
                next.is_some() ==> self.backlog(now as int) > 0,
            decreases self.backlog(now as int),
        {
            let ghost before = self.event_database@;
            let k = self.announce_due(now, signer).unwrap();
            r.push(k);
            proof {
                let after = self.event_database@;
                assert(after.subrange(0, s0.len() as int) =~= before.subrange(0, s0.len() as int));
                assert forall|i: int| 0 <= i < r@.len() implies {
                    let e = #[trigger] after[s0.len() + i];
                    e.maturation == r@[i] && !e.is_attested()
                } by {
                    if i < r@.len() - 1 {
                        assert(after[s0.len() + i] == before[s0.len() + i]);
                    }
                }
            }
            next = self.schedule.planned_maturation(&self.event_database, now);
        }
        r
    }

    /// The attestation step for the event under `key`, with the answers of
    /// the price sources; see `resolve_event`.
    pub fn attest(&mut self, key: i64, quotes: &Vec<Option<u64>>, quorum: usize) -> (r:
        Resolution)
        requires
            old(self).wf(),
        ensures
            final(self).wf(),
            final(self).asset_pair == old(self).asset_pair,
            final(self).schedule == old(self).schedule,
            !(r is Attested) ==> final(self).event_database@ == old(self).event_database@,
            entry(old(self).event_database@, key).is_some() && entry(
                old(self).event_database@,
                key,
            ).unwrap().is_attested() ==> r == Resolution::AlreadyAttested,
            r matches Resolution::Attested(o) ==> entry(final(self).event_database@, key) == Some(
                crate::schedule::attested(
                    entry(old(self).event_database@, key).unwrap(),
                    o,
                    crate::signer::schnorr_signature(
                        entry(old(self).event_database@, key).unwrap().nonce.unwrap(),
                        crate::signer::attestation_message(key, o),
                    ),
                ),
            ),
    {
        let r = resolve_event(&mut self.event_database, key, quotes, quorum);
        proof {
            let s1 = self.event_database@;
            assert forall|i: int| 1 <= i < s1.len() implies #[trigger] s1[i].maturation
                == s1[i - 1].maturation + self.schedule.cadence by {
                assert(old(self).event_database@[i].maturation == old(
                    self,
                ).event_database@[i - 1].maturation + self.schedule.cadence);
            }
        }
        r
    }
}

/// Every oracle's store is well formed.
pub open spec fn all_stores_wf(oracles: Seq<Oracle>) -> bool {
    forall|i: int| 0 <= i < oracles.len() ==> (#[trigger] oracles[i]).event_database.wf()
}

pub fn find_oracle(oracles: &Vec<Oracle>, pair: AssetPair) -> (r: Option<usize>)
    ensures
        r.is_some() == (exists|i: int| 0 <= i < oracles@.len() && oracles@[i].asset_pair == pair),
        r.is_some() ==> r.unwrap() < oracles@.len() && oracles@[r.unwrap() as int].asset_pair
            == pair && forall|j: int| 0 <= j < r.unwrap() ==> oracles@[j].asset_pair != pair,
{
    let mut i: usize = 0;
    while i < oracles.len()
        invariant
            i <= oracles@.len(),
            forall|j: int| 0 <= j < i ==> oracles@[j].asset_pair != pair,
        decreases oracles@.len() - i,
    {
        if oracles[i].asset_pair == pair {
            return Some(i);
        }
        i = i + 1;
    }
    None
}

/// One page of events of `pair`, shown for the query interface.
pub fn execute_announcements(
    oracles: &Vec<Oracle>,
    pair: AssetPair,
    order: SortOrder,
    page: u32,
) -> (r: Result<Vec<ApiOracleEvent>, QueryError>)
    ensures
        !(exists|i: int| 0 <= i < oracles@.len() && oracles@[i].asset_pair == pair) ==> r
            == Err::<Vec<ApiOracleEvent>, QueryError>(QueryError::UnknownAssetPair(pair)),
        forall|i: int|
            0 <= i < oracles@.len() && oracles@[i].asset_pair == pair && (forall|j: int|
                0 <= j < i ==> oracles@[j].asset_pair != pair) ==> {
                let s = page_spec(
                    oracles@[i].event_database@,
                    order,
                    page as int,
                    PAGE_WIDTH as int,
                );
                &&& r.is_ok() == (forall|k: int| 0 <= k < s.len() ==> has_text(#[trigger] s[k]))
                &&& r.is_ok() ==> r.unwrap()@.len() == s.len() && forall|k: int|
                    0 <= k < s.len() ==> shows(#[trigger] r.unwrap()@[k], pair, s[k])
                &&& r.is_err() ==> r matches Err(QueryError::KeyWithoutText(_))
            },
{
    let idx = match find_oracle(oracles, pair) {
        None => {
            return Err(QueryError::UnknownAssetPair(pair));
        },
        Some(i) => i,
    };
    let oracle = &oracles[idx];
    let events = list(&oracle.event_database, order, page, PAGE_WIDTH);
    let ghost s = views(events@);
    let mut out: Vec<ApiOracleEvent> = Vec::new();
    let mut k: usize = 0;
    while k < events.len()
        invariant
            k <= events@.len(),
            s == views(events@),
            idx < oracles@.len(),
            oracles@[idx as int].asset_pair == pair,
            forall|j: int| 0 <= j < idx ==> oracles@[j].asset_pair != pair,
            s == page_spec(
                oracles@[idx as int].event_database@,
                order,
                page as int,
                PAGE_WIDTH as int,
            ),
            out@.len() == k,
            forall|m: int| 0 <= m < k ==> has_text(#[trigger] s[m]),
            forall|m: int| 0 <= m < k ==> shows(#[trigger] out@[m], pair, s[m]),
        decreases events@.len() - k,
    {
        match parse_database_entry(pair, &events[k]) {
            None => {
                assert(!has_text(s[k as int]));
                return Err(QueryError::KeyWithoutText(events[k].maturation));
            },
            Some(a) => out.push(a),
        }
        k = k + 1;
    }
    Ok(out)
}

/// The event of `pair` whose maturation is written exactly as `text`.
pub fn execute_announcement(oracles: &Vec<Oracle>, pair: AssetPair, text: &str) -> (r: Result<
    ApiOracleEvent,
    QueryError,
>)
    requires
        all_stores_wf(oracles@),
    ensures
        rfc3339_seconds(text@).is_none() ==> r == Err::<ApiOracleEvent, QueryError>(
            QueryError::MalformedTimestamp,
        ),
        rfc3339_seconds(text@).is_some() && !(exists|i: int|
            0 <= i < oracles@.len() && oracles@[i].asset_pair == pair) ==> r == Err::<
            ApiOracleEvent,
            QueryError,
        >(QueryError::UnknownAssetPair(pair)),
        forall|i: int|
            0 <= i < oracles@.len() && oracles@[i].asset_pair == pair && (forall|j: int|
                0 <= j < i ==> oracles@[j].asset_pair != pair) && rfc3339_seconds(text@).is_some()
                ==> {
                let k = rfc3339_seconds(text@).unwrap();
                let found = entry(oracles@[i].event_database@, k);
                &&& r.is_ok() == (found.is_some() && has_text(found.unwrap()) && rfc3339_text(k)
                    == text@)
                &&& r.is_ok() ==> shows(r.unwrap(), pair, found.unwrap())
                &&& r.is_err() ==> r == Err::<ApiOracleEvent, QueryError>(QueryError::NotFound)
            },
{
    let k = match parse_key(text) {
        None => {
            return Err(QueryError::MalformedTimestamp);
        },
        Some(k) => k,
    };
    let idx = match find_oracle(oracles, pair) {
        None => {
            return Err(QueryError::UnknownAssetPair(pair));
        },
        Some(i) => i,
    };
    let oracle = &oracles[idx];
    proof {
        assert(oracle.event_database.wf());
    }
    let e = match oracle.event_database.get(k) {
        None => {
            return Err(QueryError::NotFound);
        },
        Some(e) => e,
    };
    match parse_database_entry(pair, e) {
        None => Err(QueryError::NotFound),
        Some(a) => {
            if same_text(a.maturation.as_str(), text) {
                Ok(a)
            } else {
                Err(QueryError::NotFound)
            }
        },
    }
}

} // verus!
