use vstd::prelude::*;

use crate::codec::{
    be_bytes, be_value, decode_be, encode_be, hex_decode, hex_decoded, hex_encode, hex_text,
    lemma_be_round_trip, lemma_hex_decoded_byte, lemma_hex_pair_injective, lemma_hex_round_trip,
};
use vstd::string::StringSliceAdditionalSpecFns;
use crate::hasher::{secure_random_32, CREDENTIAL_LEN, MAX_INPUT_LEN};

verus! {

/// Length in bytes of a session tag.
pub const TAG_LEN: usize = 32;

/// Sliding session lifetime, in seconds, used when none is configured.
pub const DEFAULT_MAX_AGE: u64 = 600;

/// The HMAC-SHA256 tag of `message` under `key`.
pub uninterp spec fn hmac_sha256_of(key: Seq<u8>, message: Seq<u8>) -> Seq<u8>;

/// Relies on ring::hmac::sign with HMAC_SHA256: the 32-byte tag of `message` under `key`.
/// It panics only on a message too long for SHA-256, which `requires` leaves out.
#[verifier::external_body]
fn hmac_sign(key: &[u8], message: &[u8]) -> (r: Vec<u8>)
    requires
        message@.len() < MAX_INPUT_LEN,
    ensures
        r@ == hmac_sha256_of(key@, message@),
        r@.len() == TAG_LEN,
{
    let k = ring::hmac::Key::new(ring::hmac::HMAC_SHA256, key);
    ring::hmac::sign(&k, message).as_ref().to_vec()
}

/// Relies on ring::hmac::verify with HMAC_SHA256: `Ok` exactly when `tag` equals the tag
/// of `message` under `key`, compared in constant time.
#[verifier::external_body]
fn hmac_verify(key: &[u8], message: &[u8], tag: &[u8]) -> (r: bool)
    requires
        message@.len() < MAX_INPUT_LEN,
    ensures
        r == (tag@ == hmac_sha256_of(key@, message@)),
{
    let k = ring::hmac::Key::new(ring::hmac::HMAC_SHA256, key);
    ring::hmac::verify(&k, message, tag).is_ok()
}

/// What a token signs: its expiry, big-endian, then the email's bytes.
pub open spec fn payload(email: Seq<u8>, expires_at: u64) -> Seq<u8> {
    be_bytes(expires_at) + email
}

/// Whether `text` is the token that `key` signs for `email` until `expires_at`: the
/// hexadecimal text of the payload followed by its 32-byte tag.
pub open spec fn is_issued_token(key: Seq<u8>, email: Seq<u8>, expires_at: u64, text: Seq<u8>) -> bool {
    let p = payload(email, expires_at);
    let tag = hmac_sha256_of(key, p);
    tag.len() == TAG_LEN && text == hex_text(p + tag)
}

/// The expiry of a token issued at `now` with lifetime `max_age`, saturating at the
/// largest time.
pub open spec fn expiry(now: u64, max_age: u64) -> u64 {
    if now + max_age <= u64::MAX {
        (now + max_age) as u64
    } else {
        u64::MAX
    }
}

/// The email and expiry that the token `text` carries, when `key` signed it and it has
/// not expired at `now`; `None` otherwise.
pub open spec fn session_of(key: Seq<u8>, text: Seq<u8>, now: u64) -> Option<(Seq<u8>, u64)> {
    match hex_decoded(text) {
        Some(t) => {
            let p = t.subrange(0, t.len() - TAG_LEN);
            if t.len() >= 8 + TAG_LEN && t.len() < MAX_INPUT_LEN && t.subrange(t.len() - TAG_LEN, t.len() as int)
                == hmac_sha256_of(key, p) && now <= be_value(p) {
                Some((p.subrange(8, p.len() as int), be_value(p)))
            } else {
                None
            }
        },
        None => None,
    }
}

/// The identity that a valid session token carries.
pub struct SessionClaim {
    pub email: Vec<u8>,
    pub expires_at: u64,
}

/// Issues and validates tamper-evident session tokens with a key held by the server.
pub struct SessionManager {
    key: Vec<u8>,
    max_age: u64,
}

impl SessionManager {
    #[verifier::type_invariant]
    closed spec fn inv(self) -> bool {
        self.max_age > 0
    }

    /// The signing key.
    pub closed spec fn key_bytes(self) -> Seq<u8> {
        self.key@
    }

    /// How many seconds a token stays valid after it is issued.
    pub closed spec fn max_age_secs(self) -> u64 {
        self.max_age
    }

    /// A manager that signs with `key` and issues tokens valid for `max_age` seconds;
    /// `None` when `max_age` is zero.
    pub fn new(key: Vec<u8>, max_age: u64) -> (r: Option<SessionManager>)
        ensures
            r is Some <==> max_age > 0,
            r matches Some(m) ==> m.key_bytes() == key@ && m.max_age_secs() == max_age,
    {
        if max_age == 0 {
            None
        } else {
            Some(SessionManager { key, max_age })
        }
    }

    /// A manager with a fresh 32-byte key from the secure random source; `None` when
    /// `max_age` is zero or the source fails.
    pub fn generate(max_age: u64) -> (r: Option<SessionManager>)
        ensures
            r matches Some(m) ==> m.key_bytes().len() == CREDENTIAL_LEN && m.max_age_secs() == max_age,
            max_age == 0 ==> r is None,
    {
        if max_age == 0 {
            return None;
        }
        match secure_random_32() {
            Some(key) => Some(SessionManager { key, max_age }),
            None => None,
        }
    }

    pub fn max_age(&self) -> (r: u64)
        ensures
            r == self.max_age_secs(),
            r > 0,
    {
        proof {
            use_type_invariant(self);
        }
        self.max_age
    }

    /// A token for `email`, valid until `now` plus the lifetime.
    pub fn issue(&self, email: &str, now: u64) -> (r: Vec<u8>)
        requires
            email.spec_bytes().len() + 8 + TAG_LEN < MAX_INPUT_LEN,
            2 * (email.spec_bytes().len() + 8 + TAG_LEN) <= usize::MAX,
        ensures
            is_issued_token(self.key_bytes(), email.spec_bytes(), expiry(now, self.max_age_secs()), r@),
    {
        let expires_at = now.saturating_add(self.max_age);
        let mut token = encode_be(expires_at);
        let mut e = vstd::slice::slice_to_vec(email.as_bytes());
        token.append(&mut e);
        assert(token@ == payload(email.spec_bytes(), expires_at));
        let mut tag = hmac_sign(self.key.as_slice(), token.as_slice());
        token.append(&mut tag);
        hex_encode(token.as_slice())
    }

    /// The identity that `text` carries, when this manager signed it and it has not
    /// expired at `now`. A forged, altered or expired token gives `None`, like no token.
    pub fn validate(&self, text: &[u8], now: u64) -> (r: Option<SessionClaim>)
        ensures
            r is None <==> session_of(self.key_bytes(), text@, now) is None,
            r matches Some(c) ==> session_of(self.key_bytes(), text@, now) == Some((c.email@, c.expires_at)),
    {
        let t = match hex_decode(text) {
            Some(t) => t,
            None => return None,
        };
        if t.len() < 8 + TAG_LEN || t.len() as u64 >= MAX_INPUT_LEN {
            return None;
        }
        let split = t.len() - TAG_LEN;
        let p = vstd::slice::slice_subrange(t.as_slice(), 0, split);
        let tag = vstd::slice::slice_subrange(t.as_slice(), split, t.len());
        assert(p@ == t@.subrange(0, t@.len() - TAG_LEN));
        assert(tag@ == t@.subrange(t@.len() - TAG_LEN, t@.len() as int));
        if !hmac_verify(self.key.as_slice(), p, tag) {
            return None;
        }
        let expires_at = decode_be(p);
        if now > expires_at {
            return None;
        }
        let email = vstd::slice::slice_to_vec(vstd::slice::slice_subrange(p, 8, split));
        Some(SessionClaim { email, expires_at })
    }
}

/// A token issued at time `t` is accepted one second later, carrying the email it was
/// issued for, and refused once its lifetime has passed by one second.
pub proof fn lemma_session_window(m: SessionManager, email: Seq<u8>, t: u64, text: Seq<u8>)
    requires
        m.max_age_secs() > 0,
        t + m.max_age_secs() + 1 <= u64::MAX,
        email.len() + 8 + TAG_LEN < MAX_INPUT_LEN,
        is_issued_token(m.key_bytes(), email, expiry(t, m.max_age_secs()), text),
    ensures
        session_of(m.key_bytes(), text, (t + 1) as u64) == Some((email, expiry(t, m.max_age_secs()))),
        session_of(m.key_bytes(), text, (t + m.max_age_secs() + 1) as u64) is None,
{
    let e = expiry(t, m.max_age_secs());
    let p = payload(email, e);
    let tag = hmac_sha256_of(m.key_bytes(), p);
    lemma_hex_round_trip(p + tag);
    lemma_be_round_trip(e);
    let d = p + tag;
    assert(d.subrange(0, d.len() - TAG_LEN) =~= p);
    assert(d.subrange(d.len() - TAG_LEN, d.len() as int) =~= tag);
    assert(p.subrange(0, 8) =~= be_bytes(e));
    assert(be_value(p) == be_value(be_bytes(e)));
    assert(p.subrange(8, p.len() as int) =~= email);
}

proof fn lemma_flip_changes(c: u8, b: u8)
    requires
        b < 8,
    ensures
        c ^ (1u8 << b) != c,
{
    assert(c ^ (1u8 << b) != c) by (bit_vector)
        requires
            b < 8,
    ;
}

/// A token issued by a manager, with one bit of its tag's text flipped, is refused at
/// every time.
#[verifier::rlimit(40)]
pub proof fn lemma_tag_bit_flip_refused(
    key: Seq<u8>,
    email: Seq<u8>,
    expires_at: u64,
    text: Seq<u8>,
    i: int,
    b: u8,
    now: u64,
)
    requires
        is_issued_token(key, email, expires_at, text),
        2 * (8 + email.len()) <= i < text.len(),
        b < 8,
    ensures
        session_of(key, text.update(i, text[i] ^ (1u8 << b)), now) is None,
{
    let p = payload(email, expires_at);
    let tag = hmac_sha256_of(key, p);
    let d = p + tag;
    let f = text.update(i, text[i] ^ (1u8 << b));
    lemma_hex_round_trip(d);
    lemma_flip_changes(text[i], b);
    assert(be_bytes(expires_at).len() == 8);
    assert(p.len() == 8 + email.len());
    assert(hex_decoded(text) == Some(p + tag));
    assert(f.len() == text.len());
    assert(forall|k: int| 0 <= k < text.len() && k != i ==> f[k] == text[k]);
    if let Some(e) = hex_decoded(f) {
        lemma_tag_bytes_refused(p, tag, text, f, e, i);
        assert(e.subrange(e.len() - TAG_LEN, e.len() as int) != hmac_sha256_of(key, e.subrange(0, e.len() - TAG_LEN)));
    }
}

proof fn lemma_tag_bytes_refused(p: Seq<u8>, tag: Seq<u8>, text: Seq<u8>, f: Seq<u8>, e: Seq<u8>, i: int)
    requires
        tag.len() == TAG_LEN,
        hex_decoded(text) == Some(p + tag),
        hex_decoded(f) == Some(e),
        f.len() == text.len(),
        2 * p.len() <= i < text.len(),
        forall|k: int| 0 <= k < text.len() && k != i ==> f[k] == text[k],
        f[i] != text[i],
    ensures
        e.subrange(0, e.len() - TAG_LEN) == p,
        e.subrange(e.len() - TAG_LEN, e.len() as int) != tag,
{
    let d = p + tag;
    let j = i / 2;
    lemma_hex_decoded_byte(text, d, j);
    lemma_hex_decoded_byte(f, e, j);
    lemma_hex_pair_injective(f[2 * j], f[2 * j + 1], text[2 * j], text[2 * j + 1]);
    assert(e[j] != d[j]);
    let n = e.len();
    assert(n == d.len());
    assert forall|k: int| 0 <= k < p.len() implies #[trigger] e[k] == d[k] by {
        lemma_hex_decoded_byte(text, d, k);
        lemma_hex_decoded_byte(f, e, k);
    }
    assert(e.subrange(0, n - TAG_LEN) =~= p);
    assert(e.subrange(n - TAG_LEN, n as int)[j - (n - TAG_LEN)] == e[j]);
    assert(tag[j - (n - TAG_LEN)] == d[j]);
}

} // verus!
