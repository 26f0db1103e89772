use vstd::prelude::*;

verus! {

/// Whether the bytes form a secret key from which a key pair can be made.
pub uninterp spec fn valid_secret(secret: Seq<u8>) -> bool;

/// The 32-byte x-only public key of a secret key.
pub uninterp spec fn xonly_public(secret: Seq<u8>) -> Seq<u8>;

/// The BIP-340 signature made by `secret` over the 32-byte `message`
/// without auxiliary randomness.
pub uninterp spec fn schnorr_signature(secret: Seq<u8>, message: Seq<u8>) -> Seq<u8>;

/// Relies on secp256k1's `KeyPair::from_seckey_slice`: it accepts exactly the
/// 32-byte slices that are valid secret keys.
#[verifier::external_body]
fn check_secret(secret: &Vec<u8>) -> (r: bool)
    ensures
        r == valid_secret(secret@),
        r ==> secret@.len() == 32,
{
    let secp = secp256k1_zkp::Secp256k1::signing_only();
    secp256k1_zkp::KeyPair::from_seckey_slice(&secp, secret).is_ok()
}

/// Relies on secp256k1's `KeyPair::new`: a key pair drawn from the thread's
/// random number generator, returned as its 32 secret bytes.
#[verifier::external_body]
fn random_secret() -> (r: Vec<u8>)
    ensures
        valid_secret(r@),
        r@.len() == 32,
{
    let secp = secp256k1_zkp::Secp256k1::signing_only();
    let kp = secp256k1_zkp::KeyPair::new(&secp, &mut secp256k1_zkp::rand::thread_rng());
    kp.secret_bytes().to_vec()
}

/// Relies on secp256k1's `KeyPair::x_only_public_key`: the 32-byte x-only
/// public key of a valid secret.
#[verifier::external_body]
fn public_of(secret: &Vec<u8>) -> (r: Vec<u8>)
    requires
        valid_secret(secret@),
    ensures
        r@ == xonly_public(secret@),
        r@.len() == 32,
{
    let secp = secp256k1_zkp::Secp256k1::signing_only();
    let kp = secp256k1_zkp::KeyPair::from_seckey_slice(&secp, secret).unwrap();
    kp.x_only_public_key().0.serialize().to_vec()
}

/// Relies on secp256k1's `Secp256k1::sign_schnorr_no_aux_rand`: a
/// deterministic 64-byte BIP-340 signature of a 32-byte message.
#[verifier::external_body]
fn sign_schnorr(secret: &Vec<u8>, message: &Vec<u8>) -> (r: Vec<u8>)
    requires
        valid_secret(secret@),
        message@.len() == 32,
    ensures
        r@ == schnorr_signature(secret@, message@),
        r@.len() == 64,
{
    let secp = secp256k1_zkp::Secp256k1::signing_only();
    let kp = secp256k1_zkp::KeyPair::from_seckey_slice(&secp, secret).unwrap();
    let msg = secp256k1_zkp::Message::from_slice(message).unwrap();
    secp.sign_schnorr_no_aux_rand(&msg, &kp).as_ref().to_vec()
}

/// Big-endian bytes of a 64-bit value.
pub open spec fn be_bytes(x: u64) -> Seq<u8> {
    Seq::new(8, |j: int| ((x >> (56 - 8 * j) as u64) & 0xff) as u8)
}

/// The message signed to attest `outcome` for the event maturing at
/// `maturation`: both as big-endian 64-bit values, padded with zeros to 32
/// bytes.
pub open spec fn attestation_message(maturation: i64, outcome: u64) -> Seq<u8> {
    be_bytes(maturation as u64) + be_bytes(outcome) + Seq::new(16, |j: int| 0u8)
}

fn push_be_bytes(out: &mut Vec<u8>, x: u64)
    ensures
        final(out)@ == old(out)@ + be_bytes(x),
{
    let ghost start = out@;
    let mut j: u64 = 0;
    while j < 8
        invariant
            j <= 8,
            out@ == start + be_bytes(x).subrange(0, j as int),
        decreases 8 - j,
    {
        let shift: u64 = 56 - 8 * j;
        out.push(((x >> shift) & 0xff) as u8);
        assert(be_bytes(x).subrange(0, j as int + 1) =~= be_bytes(x).subrange(0, j as int).push(
            ((x >> shift) & 0xff) as u8,
        ));
        j = j + 1;
    }
    assert(be_bytes(x).subrange(0, 8) =~= be_bytes(x));
}

/// The message signed to attest `outcome` for the event maturing at `maturation`.
pub fn message_for(maturation: i64, outcome: u64) -> (r: Vec<u8>)
    ensures
        r@ == attestation_message(maturation, outcome),
        r@.len() == 32,
{
    let mut r: Vec<u8> = Vec::new();
    push_be_bytes(&mut r, maturation as u64);
    push_be_bytes(&mut r, outcome);
    let mut j: usize = 0;
    while j < 16
        invariant
            j <= 16,
            r@ == be_bytes(maturation as u64) + be_bytes(outcome) + Seq::new(
                j as nat,
                |i: int| 0u8,
            ),
        decreases 16 - j,
    {
        r.push(0u8);
        j = j + 1;
        assert(r@ =~= be_bytes(maturation as u64) + be_bytes(outcome) + Seq::new(
            j as nat,
            |i: int| 0u8,
        ));
    }
    r
}

/// The oracle's signing key.
pub struct KeySigner {
    secret: Vec<u8>,
}

impl KeySigner {
    /// The secret bytes of the key; they never leave the library.
    pub closed spec fn secret(&self) -> Seq<u8> {
        self.secret@
    }

    pub open spec fn wf(&self) -> bool {
        valid_secret(self.secret())
    }

    /// A signer for the given secret key; `None` when it is not a valid key.
    pub fn from_secret(secret: Vec<u8>) -> (r: Option<KeySigner>)
        ensures
            r.is_some() == valid_secret(secret@),
            r.is_some() ==> r.unwrap().secret() == secret@ && r.unwrap().wf(),
    {
        if check_secret(&secret) {
            Some(KeySigner { secret })
        } else {
            None
        }
    }

    /// A signer with a freshly drawn key.
    pub fn generate() -> (r: KeySigner)
        ensures
            r.wf(),
    {
        KeySigner { secret: random_secret() }
    }

    /// The oracle's x-only public key.
    pub fn public_key(&self) -> (r: Vec<u8>)
        requires
            self.wf(),
        ensures
            r@ == xonly_public(self.secret()),
    {
        public_of(&self.secret)
    }

    /// The announcement of an event signed by `secret`: the public key of
    /// the event's one-time key `nonce`, then the signature of that public key.
    pub open spec fn announcement_of(&self, nonce: Seq<u8>) -> Seq<u8> {
        xonly_public(nonce) + schnorr_signature(self.secret(), xonly_public(nonce))
    }

    /// A commitment for a new event: a freshly drawn one-time key, returned
    /// as its secret and the announcement that publishes its public key
    /// under the oracle's signature. No two events share a one-time key.
    pub fn commit(&self) -> (r: (Vec<u8>, Vec<u8>))
        requires
            self.wf(),
        ensures
            valid_secret(r.0@),
            r.0@.len() == 32,
            r.1@ == self.announcement_of(r.0@),
            r.1@.len() == 96,
    {
        let nonce = random_secret();
        let mut announcement = public_of(&nonce);
        let mut signature = sign_schnorr(&self.secret, &announcement);
        let ghost key = announcement@;
        let ghost sig = signature@;
        announcement.append(&mut signature);
        assert(announcement@ =~= key + sig);
        (nonce, announcement)
    }

    /// The signature attesting `outcome` for the event maturing at `maturation`.
    pub fn attest(&self, maturation: i64, outcome: u64) -> (r: Vec<u8>)
        requires
            self.wf(),
        ensures
            r@ == schnorr_signature(self.secret(), attestation_message(maturation, outcome)),
            r@.len() == 64,
    {
        let message = message_for(maturation, outcome);
        sign_schnorr(&self.secret, &message)
    }
}

} // verus!
