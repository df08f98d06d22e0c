use vstd::prelude::*;

use vstd::string::StringSliceAdditionalSpecFns;
use vstd::utf8::encode_utf8;
use crate::hasher::{hash_matches, input_fits, Hasher, CREDENTIAL_LEN, MAX_INPUT_LEN};
use crate::session::{expiry, is_issued_token, session_of, SessionClaim, SessionManager, TAG_LEN};

verus! {

/// The stored proof of a password: its salt and the hash derived under it.
pub struct Credential {
    pub email: String,
    pub salt: Vec<u8>,
    pub hash: Vec<u8>,
}

/// The stored profile of an account. Its salt repeats the credential's salt.
pub struct Profile {
    pub email: String,
    pub first_name: String,
    pub last_name: String,
    pub salt: Vec<u8>,
}

/// A profile as it is shown to its owner, without internal fields.
pub struct PublicProfile {
    pub email: String,
    pub first_name: String,
    pub last_name: String,
}

/// Why a store round trip gave no answer.
#[derive(Clone, Copy, Debug, PartialEq, Eq, Structural)]
pub enum StoreFault {
    /// The store could not be reached or did not answer in time.
    Unavailable,
    /// A stored document lacks a field or holds one of the wrong type.
    Malformed,
}

/// Why an authentication operation was refused.
#[derive(Clone, Copy, Debug, PartialEq, Eq, Structural)]
pub enum AuthError {
    /// The email is already registered.
    Conflict,
    /// Unknown email or wrong password; the two are not told apart.
    InvalidCredentials,
    /// No session, or an expired or altered one.
    Unauthenticated,
    /// The credential store and the profile store disagree, or a stored record is malformed.
    StoreInconsistent,
    /// No salt could be drawn, or the password cannot be hashed.
    DerivationFailed,
    /// A write to a store failed.
    StoreWriteFailed,
    /// A store could not be read.
    InternalError,
}

/// What a successful login hands back: the profile to show and a fresh session token.
pub struct LoginSuccess {
    pub profile: PublicProfile,
    pub token: Vec<u8>,
}

/// The UTF-8 bytes of a string.
pub open spec fn bytes_of(s: String) -> Seq<u8> {
    encode_utf8(s@)
}

/// Whether `q` shows `p` with its internal fields removed.
pub open spec fn shows(q: PublicProfile, p: Profile) -> bool {
    q.email@ == p.email@ && q.first_name@ == p.first_name@ && q.last_name@ == p.last_name@
}

/// Whether an email can be carried in a session token.
pub open spec fn email_fits(e: Seq<u8>) -> bool {
    e.len() + 8 + TAG_LEN < MAX_INPUT_LEN && 2 * (e.len() + 8 + TAG_LEN) <= usize::MAX
}

/// How a login with `email` and `password` ends, given what the two stores answered;
/// `None` when it succeeds.
pub open spec fn login_refusal(
    iterations: u32,
    email: Seq<u8>,
    password: Seq<u8>,
    credential: Result<Option<Credential>, StoreFault>,
    profile: Result<Option<Profile>, StoreFault>,
) -> Option<AuthError> {
    match (credential, profile) {
        (Err(_), _) => Some(AuthError::InternalError),
        (_, Err(_)) => Some(AuthError::InternalError),
        (Ok(None), _) => Some(AuthError::InvalidCredentials),
        (_, Ok(None)) => Some(AuthError::InvalidCredentials),
        (Ok(Some(c)), Ok(Some(p))) => {
            if c.salt@ != p.salt@ || c.salt@.len() != CREDENTIAL_LEN {
                Some(AuthError::StoreInconsistent)
            } else if !input_fits(password) || !input_fits(c.salt@) || !email_fits(email) {
                Some(AuthError::InvalidCredentials)
            } else if !hash_matches(iterations, password, c.salt@, c.hash@) {
                Some(AuthError::InvalidCredentials)
            } else {
                None
            }
        },
    }
}

fn same_bytes(a: &[u8], b: &[u8]) -> (r: bool)
    ensures
        r == (a@ == b@),
{
    if a.len() != b.len() {
        return false;
    }
    let mut i: usize = 0;
    while i < a.len()
        invariant
            a@.len() == b@.len(),
            i <= a@.len(),
            forall|j: int| 0 <= j < i ==> a@[j] == b@[j],
        decreases a@.len() - i,
    {
        if a[i] != b[i] {
            return false;
        }
        i = i + 1;
    }
    assert(a@ =~= b@);
    true
}

fn public_view(p: &Profile) -> (r: PublicProfile)
    ensures
        shows(r, *p),
{
    PublicProfile { email: p.email.clone(), first_name: p.first_name.clone(), last_name: p.last_name.clone() }
}

/// Decides a login from the answers of the credential and profile stores to a lookup of
/// `email`. On success the profile is shown without its salt and a session is issued
/// for `email` at `now`.
pub fn login(
    hasher: &Hasher,
    sessions: &SessionManager,
    email: &str,
    password: &str,
    credential: Result<Option<Credential>, StoreFault>,
    profile: Result<Option<Profile>, StoreFault>,
    now: u64,
) -> (r: Result<LoginSuccess, AuthError>)
    ensures
        match r {
            Ok(s) => {
                &&& login_refusal(hasher.iteration_count(), email.spec_bytes(), password.spec_bytes(), credential, profile) is None
                &&& profile matches Ok(Some(p)) && shows(s.profile, p)
                &&& is_issued_token(sessions.key_bytes(), email.spec_bytes(), expiry(now, sessions.max_age_secs()), s.token@)
            },
            Err(e) => login_refusal(hasher.iteration_count(), email.spec_bytes(), password.spec_bytes(), credential, profile)
                == Some(e),
        },
{
    let pw = password.as_bytes();
    let (c, p) = match (credential, profile) {
        (Err(_), _) => return Err(AuthError::InternalError),
        (_, Err(_)) => return Err(AuthError::InternalError),
        (Ok(Some(c)), Ok(Some(p))) => (c, p),
        _ => {
            // An unknown email costs one derivation too, as a wrong password does.
            if (pw.len() as u64) < MAX_INPUT_LEN {
                let _spent = hasher.derive_hash(pw, [0u8; CREDENTIAL_LEN].as_slice());
            }
            return Err(AuthError::InvalidCredentials);
        },
    };
    if !same_bytes(c.salt.as_slice(), p.salt.as_slice()) || c.salt.len() != CREDENTIAL_LEN {
        return Err(AuthError::StoreInconsistent);
    }
    let em = email.as_bytes();
    if pw.len() as u64 >= MAX_INPUT_LEN || c.salt.len() as u64 >= MAX_INPUT_LEN
        || em.len() as u64 >= MAX_INPUT_LEN - 8 - TAG_LEN as u64 || em.len() > (usize::MAX / 2) - 8 - TAG_LEN {
        return Err(AuthError::InvalidCredentials);
    }
    if !hasher.verify(pw, c.salt.as_slice(), c.hash.as_slice()) {
        return Err(AuthError::InvalidCredentials);
    }
    let token = sessions.issue(email, now);
    Ok(LoginSuccess { profile: public_view(&p), token })
}

/// The identity of a request: the claim of its session cookie, when there is one that
/// is valid at `now`, else `Unauthenticated`.
pub fn identify(sessions: &SessionManager, cookie: Option<&[u8]>, now: u64) -> (r: Result<SessionClaim, AuthError>)
    ensures
        match cookie {
            None => r == Err::<SessionClaim, AuthError>(AuthError::Unauthenticated),
            Some(t) => match r {
                Ok(c) => session_of(sessions.key_bytes(), t@, now) == Some((c.email@, c.expires_at)),
                Err(e) => e == AuthError::Unauthenticated && session_of(sessions.key_bytes(), t@, now) is None,
            },
        },
{
    match cookie {
        None => Err(AuthError::Unauthenticated),
        Some(t) => match sessions.validate(t, now) {
            Some(c) => Ok(c),
            None => Err(AuthError::Unauthenticated),
        },
    }
}

/// Ends a session. With a valid session the caller clears the cookie; without one the
/// request is refused as `Unauthenticated`, by policy, rather than treated as done.
pub fn logout(sessions: &SessionManager, cookie: Option<&[u8]>, now: u64) -> (r: Result<(), AuthError>)
    ensures
        r is Ok <==> (cookie matches Some(t) && session_of(sessions.key_bytes(), t@, now) is Some),
        r matches Err(e) ==> e == AuthError::Unauthenticated,
{
    match identify(sessions, cookie, now) {
        Ok(_) => Ok(()),
        Err(e) => Err(e),
    }
}

/// How a profile fetch for the session `claim` ends, given the profile store's answer;
/// `None` when it succeeds.
pub open spec fn fetch_refusal(claim_email: Seq<u8>, profile: Result<Option<Profile>, StoreFault>) -> Option<AuthError> {
    match profile {
        Err(_) => Some(AuthError::InternalError),
        Ok(None) => Some(AuthError::Unauthenticated),
        Ok(Some(p)) => if bytes_of(p.email) != claim_email || !email_fits(claim_email) {
            Some(AuthError::InternalError)
        } else {
            None
        },
    }
}

/// Answers a profile fetch by the holder of the session `claim`, given the profile
/// store's answer to a lookup of the claim's email: the profile without its salt, and
/// a renewed token that slides the session's expiry to `now` plus the lifetime.
pub fn fetch_profile(
    sessions: &SessionManager,
    claim: &SessionClaim,
    profile: Result<Option<Profile>, StoreFault>,
    now: u64,
) -> (r: Result<(PublicProfile, Vec<u8>), AuthError>)
    ensures
        match r {
            Ok((q, token)) => {
                &&& fetch_refusal(claim.email@, profile) is None
                &&& profile matches Ok(Some(p)) && shows(q, p)
                &&& is_issued_token(sessions.key_bytes(), claim.email@, expiry(now, sessions.max_age_secs()), token@)
            },
            Err(e) => fetch_refusal(claim.email@, profile) == Some(e),
        },
{
    let p = match profile {
        Err(_) => return Err(AuthError::InternalError),
        Ok(None) => return Err(AuthError::Unauthenticated),
        Ok(Some(p)) => p,
    };
    let em = p.email.as_str().as_bytes();
    if !same_bytes(em, claim.email.as_slice()) {
        return Err(AuthError::InternalError);
    }
    if em.len() as u64 >= MAX_INPUT_LEN - 8 - TAG_LEN as u64 || em.len() > (usize::MAX / 2) - 8 - TAG_LEN {
        return Err(AuthError::InternalError);
    }
    let token = sessions.issue(p.email.as_str(), now);
    Ok((public_view(&p), token))
}

} // verus!
