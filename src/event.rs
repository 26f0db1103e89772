use vstd::prelude::*;

verus! {

/// Mathematical model of an oracle event.
pub struct EventView {
    pub maturation: i64,
    pub announcement: Seq<u8>,
    pub nonce: Option<Seq<u8>>,
    pub attestation: Option<Seq<u8>>,
    pub outcome: Option<u64>,
}

impl EventView {
    /// Attestation and outcome are both absent or both present.
    pub open spec fn wf(self) -> bool {
        self.attestation.is_some() == self.outcome.is_some()
    }

    pub open spec fn is_attested(self) -> bool {
        self.outcome.is_some()
    }
}

/// One event of an asset pair, keyed by its maturation (Unix seconds).
/// `nonce` is the secret of the event's one-time key, held while the event
/// is pending and dropped once it is attested.
pub struct Event {
    pub maturation: i64,
    pub announcement: Vec<u8>,
    pub nonce: Option<Vec<u8>>,
    pub attestation: Option<Vec<u8>>,
    pub outcome: Option<u64>,
}

pub open spec fn bytes_view(o: Option<Vec<u8>>) -> Option<Seq<u8>> {
    match o {
        Some(v) => Some(v@),
        None => None,
    }
}

impl View for Event {
    type V = EventView;

    open spec fn view(&self) -> EventView {
        EventView {
            maturation: self.maturation,
            announcement: self.announcement@,
            nonce: bytes_view(self.nonce),
            attestation: bytes_view(self.attestation),
            outcome: self.outcome,
        }
    }
}

/// The models of a sequence of events.
pub open spec fn views(s: Seq<Event>) -> Seq<EventView> {
    s.map_values(|e: Event| e@)
}

pub fn copy_bytes(b: &Vec<u8>) -> (r: Vec<u8>)
    ensures
        r@ == b@,
{
    let r = b.clone();
    assert(r@ =~= b@);
    r
}

impl Event {
    /// A freshly announced event: no attestation and no outcome yet.
    pub fn announced(maturation: i64, announcement: Vec<u8>, nonce: Vec<u8>) -> (e: Event)
        ensures
            e@ == (EventView {
                maturation,
                announcement: announcement@,
                nonce: Some(nonce@),
                attestation: None,
                outcome: None,
            }),
            e@.wf(),
    {
        Event { maturation, announcement, nonce: Some(nonce), attestation: None, outcome: None }
    }

    pub fn is_attested(&self) -> (r: bool)
        ensures
            r == self@.is_attested(),
    {
        self.outcome.is_some()
    }

    /// A copy with the same model.
    pub fn duplicate(&self) -> (r: Event)
        ensures
            r@ == self@,
    {
        let attestation = match &self.attestation {
            Some(a) => Some(copy_bytes(a)),
            None => None,
        };
        let nonce = match &self.nonce {
            Some(n) => Some(copy_bytes(n)),
            None => None,
        };
        Event {
            maturation: self.maturation,
            announcement: copy_bytes(&self.announcement),
            nonce,
            attestation,
            outcome: self.outcome,
        }
    }
}

} // verus!
