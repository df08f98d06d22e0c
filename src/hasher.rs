use vstd::prelude::*;

verus! {

/// Length in bytes of a salt and of a derived hash (the SHA-256 output length).
pub const CREDENTIAL_LEN: usize = 32;

/// Iteration count used when none is configured.
pub const DEFAULT_ITERATIONS: u32 = 100_000;

/// Inputs handed to the key derivation must be shorter than this many bytes.
pub const MAX_INPUT_LEN: u64 = 0x1000_0000_0000_0000;

/// The key that PBKDF2-HMAC-SHA256 derives with the given iteration count, salt and
/// password, 32 bytes long.
pub uninterp spec fn pbkdf2_of(iterations: u32, salt: Seq<u8>, password: Seq<u8>) -> Seq<u8>;

/// Whether `expected` is the 32-byte hash derived from `password` and `salt`.
pub open spec fn hash_matches(iterations: u32, password: Seq<u8>, salt: Seq<u8>, expected: Seq<u8>) -> bool {
    expected.len() == CREDENTIAL_LEN && pbkdf2_of(iterations, salt, password) == expected
}

/// Whether a byte string may be handed to the key derivation.
pub open spec fn input_fits(b: Seq<u8>) -> bool {
    b.len() < MAX_INPUT_LEN
}

/// Relies on ring::pbkdf2::derive with PBKDF2_HMAC_SHA256: fills a 32-byte output with
/// the key derived from the salt and secret under the iteration count. It panics only on
/// inputs too long for SHA-256, which `requires` leaves out.
#[verifier::external_body]
fn pbkdf2_derive(iterations: u32, salt: &[u8], password: &[u8]) -> (r: Vec<u8>)
    requires
        iterations > 0,
        input_fits(salt@),
        input_fits(password@),
    ensures
        r@ == pbkdf2_of(iterations, salt@, password@),
        r@.len() == CREDENTIAL_LEN,
{
    let mut out = [0u8; CREDENTIAL_LEN];
    let n = std::num::NonZeroU32::new(iterations).unwrap();
    ring::pbkdf2::derive(ring::pbkdf2::PBKDF2_HMAC_SHA256, n, salt, password, &mut out);
    out.to_vec()
}

/// Relies on ring::pbkdf2::verify with PBKDF2_HMAC_SHA256: `Ok` exactly when the key
/// derived from salt and secret, of the length of `expected`, equals `expected`; the
/// comparison does not stop at the first differing byte.
#[verifier::external_body]
fn pbkdf2_verify(iterations: u32, salt: &[u8], password: &[u8], expected: &[u8]) -> (r: bool)
    requires
        iterations > 0,
        input_fits(salt@),
        input_fits(password@),
        expected@.len() == CREDENTIAL_LEN,
    ensures
        r == (pbkdf2_of(iterations, salt@, password@) == expected@),
{
    let n = std::num::NonZeroU32::new(iterations).unwrap();
    ring::pbkdf2::verify(ring::pbkdf2::PBKDF2_HMAC_SHA256, n, salt, password, expected).is_ok()
}

/// Relies on ring::rand::SystemRandom::fill: 32 bytes from the operating system's secure
/// random source, or `None` when that source fails. Nothing is known of the bytes.
#[verifier::external_body]
pub(crate) fn secure_random_32() -> (r: Option<Vec<u8>>)
    ensures
        r matches Some(v) ==> v@.len() == CREDENTIAL_LEN,
{
    let mut out = [0u8; CREDENTIAL_LEN];
    match ring::rand::SecureRandom::fill(&ring::rand::SystemRandom::new(), &mut out) {
        Ok(()) => Some(out.to_vec()),
        Err(_) => None,
    }
}

/// A fresh random salt of `CREDENTIAL_LEN` bytes, or `None` when the secure random source
/// is unavailable. There is no fallback to a weaker source.
pub fn generate_salt() -> (r: Option<Vec<u8>>)
    ensures
        r matches Some(s) ==> s@.len() == CREDENTIAL_LEN,
{
    secure_random_32()
}

/// Password hashing with a fixed, positive PBKDF2-HMAC-SHA256 iteration count.
pub struct Hasher {
    iterations: u32,
}

impl Hasher {
    #[verifier::type_invariant]
    closed spec fn inv(self) -> bool {
        self.iterations > 0
    }

    /// The configured iteration count.
    pub closed spec fn iteration_count(self) -> u32 {
        self.iterations
    }

    /// A hasher running `iterations` rounds; `None` when `iterations` is zero.
    pub fn new(iterations: u32) -> (r: Option<Hasher>)
        ensures
            r matches Some(h) <==> iterations > 0,
            r matches Some(h) ==> h.iteration_count() == iterations,
    {
        if iterations == 0 {
            None
        } else {
            Some(Hasher { iterations })
        }
    }

    /// A hasher running `DEFAULT_ITERATIONS` rounds.
    pub fn with_default_iterations() -> (r: Hasher)
        ensures
            r.iteration_count() == DEFAULT_ITERATIONS,
    {
        Hasher { iterations: DEFAULT_ITERATIONS }
    }

    pub fn iterations(&self) -> (r: u32)
        ensures
            r == self.iteration_count(),
            r > 0,
    {
        proof {
            use_type_invariant(self);
        }
        self.iterations
    }

    /// The hash of `password` under `salt`.
    pub fn derive_hash(&self, password: &[u8], salt: &[u8]) -> (r: Vec<u8>)
        requires
            input_fits(password@),
            salt@.len() == CREDENTIAL_LEN,
        ensures
            r@ == pbkdf2_of(self.iteration_count(), salt@, password@),
            r@.len() == CREDENTIAL_LEN,
    {
        proof {
            use_type_invariant(self);
        }
        pbkdf2_derive(self.iterations, salt, password)
    }

    /// Whether `expected` is the hash of `password` under `salt`. A hash of the wrong
    /// length is refused; otherwise the comparison takes the same time wherever the
    /// bytes differ.
    pub fn verify(&self, password: &[u8], salt: &[u8], expected: &[u8]) -> (r: bool)
        requires
            input_fits(password@),
            input_fits(salt@),
        ensures
            r == hash_matches(self.iteration_count(), password@, salt@, expected@),
    {
        proof {
            use_type_invariant(self);
        }
        if expected.len() != CREDENTIAL_LEN {
            return false;
        }
        pbkdf2_verify(self.iterations, salt, password, expected)
    }
}

/// A hash derived from a password and a salt is accepted by `verify` for that same
/// password and salt.
pub proof fn lemma_verify_accepts_derived(h: Hasher, password: Seq<u8>, salt: Seq<u8>, derived: Seq<u8>)
    requires
        derived.len() == CREDENTIAL_LEN,
        derived == pbkdf2_of(h.iteration_count(), salt, password),
    ensures
        hash_matches(h.iteration_count(), password, salt, derived),
{
}

} // verus!
