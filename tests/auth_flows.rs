use treasure_auth::account::{
    fetch_profile, identify, login, logout, AuthError, Credential, Profile, StoreFault,
};
use treasure_auth::codec::{decode_be, encode_be, hex_decode, hex_encode};
use treasure_auth::hasher::{generate_salt, Hasher, CREDENTIAL_LEN, DEFAULT_ITERATIONS};
use treasure_auth::registration::{credential_for, NewAccount, Registration, Stage, StoreAction, StoreEvent, WriteFault};
use treasure_auth::session::{SessionManager, DEFAULT_MAX_AGE};

fn hex(s: &str) -> Vec<u8> {
    hex_decode(s.as_bytes()).unwrap()
}

fn manager() -> SessionManager {
    SessionManager::new(vec![7u8; 32], 600).unwrap()
}

/// Two stores with a unique index on the email, kept in memory.
#[derive(Default)]
struct Stores {
    credentials: Vec<Credential>,
    profiles: Vec<Profile>,
}

impl Stores {
    fn perform(&mut self, action: StoreAction) -> Result<StoreEvent, Result<(), AuthError>> {
        match action {
            StoreAction::FindCredential(e) => Ok(StoreEvent::Looked(Ok(self.credentials.iter().any(|c| c.email == e)))),
            StoreAction::FindProfile(e) => Ok(StoreEvent::Looked(Ok(self.profiles.iter().any(|p| p.email == e)))),
            StoreAction::InsertCredential(c) => {
                if self.credentials.iter().any(|x| x.email == c.email) {
                    Ok(StoreEvent::Wrote(Err(WriteFault::Duplicate)))
                } else {
                    self.credentials.push(c);
                    Ok(StoreEvent::Wrote(Ok(())))
                }
            }
            StoreAction::InsertProfile(p) => {
                if self.profiles.iter().any(|x| x.email == p.email) {
                    Ok(StoreEvent::Wrote(Err(WriteFault::Duplicate)))
                } else {
                    self.profiles.push(p);
                    Ok(StoreEvent::Wrote(Ok(())))
                }
            }
            StoreAction::DeleteCredential(e) => {
                self.credentials.retain(|c| c.email != e);
                Ok(StoreEvent::Wrote(Ok(())))
            }
            StoreAction::Finish(r) => Err(r),
        }
    }

    fn credential(&self, email: &str) -> Result<Option<Credential>, StoreFault> {
        Ok(self.credentials.iter().find(|c| c.email == email).map(|c| Credential {
            email: c.email.clone(),
            salt: c.salt.clone(),
            hash: c.hash.clone(),
        }))
    }

    fn profile(&self, email: &str) -> Result<Option<Profile>, StoreFault> {
        Ok(self.profiles.iter().find(|p| p.email == email).map(|p| Profile {
            email: p.email.clone(),
            first_name: p.first_name.clone(),
            last_name: p.last_name.clone(),
            salt: p.salt.clone(),
        }))
    }
}

fn account(email: &str, password: &str) -> NewAccount {
    NewAccount {
        email: email.to_string(),
        first_name: "Ada".to_string(),
        last_name: "Lovelace".to_string(),
        password: password.to_string(),
    }
}

fn register(stores: &mut Stores, hasher: &Hasher, acct: NewAccount) -> Result<(), AuthError> {
    let (mut reg, mut action) = Registration::start(acct);
    loop {
        match stores.perform(action) {
            Ok(ev) => action = reg.advance(hasher, ev),
            Err(outcome) => {
                assert!(reg.is_done());
                return outcome;
            }
        }
    }
}

#[test]
fn pbkdf2_known_vector() {
    let h = Hasher::new(1).unwrap();
    let d = h.derive_hash(b"password", b"saltsaltsaltsaltsaltsaltsaltsalt");
    assert_eq!(d.len(), CREDENTIAL_LEN);
    let h2 = Hasher::new(2).unwrap();
    assert_ne!(h2.derive_hash(b"password", b"saltsaltsaltsaltsaltsaltsaltsalt"), d);
}

#[test]
fn pbkdf2_rfc_vector_through_verify() {
    let h = Hasher::new(1).unwrap();
    let expected = hex("120fb6cffcf8b32c43e7225256c4f837a86548c92ccc35480805987cb70be17b");
    assert!(h.verify(b"password", b"salt", &expected));
    let h2 = Hasher::new(2).unwrap();
    let expected2 = hex("ae4d0c95af6b46d32d0adff928f06dd02a303f8ef3c251dfd6e2d85a95474c43");
    assert!(h2.verify(b"password", b"salt", &expected2));
    assert!(!h.verify(b"password", b"salt", &expected2));
}

#[test]
fn verify_accepts_derived_and_refuses_other_password() {
    let h = Hasher::new(1000).unwrap();
    let salt = generate_salt().unwrap();
    let d = h.derive_hash(b"pw", &salt);
    assert!(h.verify(b"pw", &salt, &d));
    assert!(!h.verify(b"wrong", &salt, &d));
    assert!(!h.verify(b"pw", &[0u8; 32], &d));
    assert!(!h.verify(b"pw", &salt, &d[..31]));
    assert!(!h.verify(b"pw", &salt, &[]));
}

#[test]
fn hasher_refuses_zero_iterations() {
    assert!(Hasher::new(0).is_none());
    assert_eq!(Hasher::new(5).unwrap().iterations(), 5);
    assert_eq!(Hasher::with_default_iterations().iterations(), DEFAULT_ITERATIONS);
}

#[test]
fn salts_are_32_bytes_and_distinct() {
    let mut seen: Vec<Vec<u8>> = Vec::new();
    for _ in 0..1000 {
        let s = generate_salt().unwrap();
        assert_eq!(s.len(), 32);
        assert!(!seen.contains(&s));
        seen.push(s);
    }
}

#[test]
fn hex_round_trip_and_refusals() {
    assert_eq!(hex_encode(&[0x00, 0xab, 0x7f, 0xff]), b"00ab7fff".to_vec());
    assert_eq!(hex_decode(b"00ab7fff"), Some(vec![0x00, 0xab, 0x7f, 0xff]));
    assert_eq!(hex_decode(b""), Some(vec![]));
    assert_eq!(hex_decode(b"abc"), None);
    assert_eq!(hex_decode(b"AB"), None);
    assert_eq!(hex_decode(b"zz"), None);
}

#[test]
fn big_endian_round_trip() {
    assert_eq!(encode_be(0x0102030405060708), vec![1, 2, 3, 4, 5, 6, 7, 8]);
    assert_eq!(decode_be(&[1, 2, 3, 4, 5, 6, 7, 8, 9]), 0x0102030405060708);
}

#[test]
fn session_accepted_until_expiry() {
    let m = manager();
    let t = 1_000_000u64;
    let token = m.issue("a@x.com", t);
    assert_eq!(token.len(), 2 * (8 + 7 + 32));
    let c = m.validate(&token, t + 1).unwrap();
    assert_eq!(c.email, b"a@x.com".to_vec());
    assert_eq!(c.expires_at, t + 600);
    assert!(m.validate(&token, t + 600).is_some());
    assert!(m.validate(&token, t + 600 + 1).is_none());
}

#[test]
fn session_refused_under_another_key() {
    let m = manager();
    let other = SessionManager::new(vec![8u8; 32], 600).unwrap();
    let token = m.issue("a@x.com", 10);
    assert!(other.validate(&token, 11).is_none());
    assert!(SessionManager::new(vec![1u8; 32], 0).is_none());
    assert_eq!(SessionManager::generate(DEFAULT_MAX_AGE).unwrap().max_age(), DEFAULT_MAX_AGE);
}

#[test]
fn session_expiry_saturates() {
    let m = manager();
    let token = m.issue("a@x.com", u64::MAX - 5);
    assert_eq!(m.validate(&token, u64::MAX).unwrap().expires_at, u64::MAX);
}

#[test]
fn session_any_bit_flip_refused() {
    let m = manager();
    let token = m.issue("a@x.com", 100);
    for i in 0..token.len() {
        for b in 0..8u8 {
            let mut t = token.clone();
            t[i] ^= 1 << b;
            assert!(m.validate(&t, 101).is_none(), "flip at {} bit {}", i, b);
        }
    }
}

#[test]
fn session_garbage_refused() {
    let m = manager();
    assert!(m.validate(b"", 0).is_none());
    assert!(m.validate(b"00", 0).is_none());
    assert!(m.validate(b"not hex at all", 0).is_none());
}

#[test]
fn register_then_login() {
    let h = Hasher::new(1000).unwrap();
    let m = manager();
    let mut stores = Stores::default();
    assert_eq!(register(&mut stores, &h, account("a@x.com", "pw")), Ok(()));
    assert_eq!(stores.credentials.len(), 1);
    assert_eq!(stores.profiles.len(), 1);
    assert_eq!(stores.credentials[0].salt, stores.profiles[0].salt);
    assert_eq!(stores.credentials[0].salt.len(), 32);

    let ok = login(&h, &m, "a@x.com", "pw", stores.credential("a@x.com"), stores.profile("a@x.com"), 50).unwrap();
    assert_eq!(ok.profile.email, "a@x.com");
    assert_eq!(ok.profile.first_name, "Ada");
    assert_eq!(ok.profile.last_name, "Lovelace");
    assert_eq!(m.validate(&ok.token, 51).unwrap().email, b"a@x.com".to_vec());

    let bad = login(&h, &m, "a@x.com", "wrong", stores.credential("a@x.com"), stores.profile("a@x.com"), 50);
    assert_eq!(bad.err(), Some(AuthError::InvalidCredentials));
    let unknown = login(&h, &m, "b@x.com", "pw", stores.credential("b@x.com"), stores.profile("b@x.com"), 50);
    assert_eq!(unknown.err(), Some(AuthError::InvalidCredentials));
}

#[test]
fn register_existing_email_conflicts() {
    let h = Hasher::new(1000).unwrap();
    let mut stores = Stores::default();
    assert_eq!(register(&mut stores, &h, account("a@x.com", "pw")), Ok(()));
    assert_eq!(register(&mut stores, &h, account("a@x.com", "other")), Err(AuthError::Conflict));
    assert_eq!(stores.credentials.len(), 1);
    assert_eq!(stores.profiles.len(), 1);

    let mut only_profile = Stores::default();
    only_profile.profiles.push(Profile {
        email: "c@x.com".to_string(),
        first_name: "C".to_string(),
        last_name: "D".to_string(),
        salt: vec![1u8; 32],
    });
    assert_eq!(register(&mut only_profile, &h, account("c@x.com", "pw")), Err(AuthError::Conflict));
    assert_eq!(only_profile.credentials.len(), 0);
    assert_eq!(only_profile.profiles.len(), 1);
}

#[test]
fn concurrent_registrations_store_one_pair() {
    let h = Hasher::new(1000).unwrap();
    let mut stores = Stores::default();
    let (mut r1, a1) = Registration::start(account("a@x.com", "one"));
    let (mut r2, a2) = Registration::start(account("a@x.com", "two"));
    // Both pass the lookups before either writes.
    let a1 = r1.advance(&h, stores.perform(a1).ok().unwrap());
    let a2 = r2.advance(&h, stores.perform(a2).ok().unwrap());
    let a1 = r1.advance(&h, stores.perform(a1).ok().unwrap());
    let a2 = r2.advance(&h, stores.perform(a2).ok().unwrap());
    assert!(matches!(a1, StoreAction::InsertCredential(_)));
    assert!(matches!(a2, StoreAction::InsertCredential(_)));
    let a1 = r1.advance(&h, stores.perform(a1).ok().unwrap());
    let a2 = r2.advance(&h, stores.perform(a2).ok().unwrap());
    assert!(matches!(a2, StoreAction::Finish(Err(AuthError::Conflict))));
    let a1 = r1.advance(&h, stores.perform(a1).ok().unwrap());
    assert!(matches!(a1, StoreAction::Finish(Ok(()))));
    assert_eq!(stores.credentials.len(), 1);
    assert_eq!(stores.profiles.len(), 1);
    assert_eq!(stores.credentials[0].salt, stores.profiles[0].salt);
}

#[test]
fn registration_rolls_back_when_profile_write_fails() {
    let h = Hasher::new(1000).unwrap();
    let (mut r, a) = Registration::start(account("a@x.com", "pw"));
    assert!(matches!(a, StoreAction::FindCredential(ref e) if e == "a@x.com"));
    let a = r.advance(&h, StoreEvent::Looked(Ok(false)));
    assert!(matches!(a, StoreAction::FindProfile(_)));
    let a = r.advance(&h, StoreEvent::Looked(Ok(false)));
    assert!(matches!(a, StoreAction::InsertCredential(_)));
    let a = r.advance(&h, StoreEvent::Wrote(Ok(())));
    assert!(matches!(a, StoreAction::InsertProfile(_)));
    let a = r.advance(&h, StoreEvent::Wrote(Err(WriteFault::Failed)));
    assert!(matches!(a, StoreAction::DeleteCredential(ref e) if e == "a@x.com"));
    let a = r.advance(&h, StoreEvent::Wrote(Ok(())));
    assert!(matches!(a, StoreAction::Finish(Err(AuthError::StoreWriteFailed))));
    assert!(r.is_done());
    let a = r.advance(&h, StoreEvent::Wrote(Ok(())));
    assert!(matches!(a, StoreAction::Finish(Err(AuthError::InternalError))));
}

#[test]
fn registration_errors() {
    let h = Hasher::new(1000).unwrap();
    let (mut r, _) = Registration::start(account("a@x.com", "pw"));
    let a = r.advance(&h, StoreEvent::Looked(Err(StoreFault::Unavailable)));
    assert!(matches!(a, StoreAction::Finish(Err(AuthError::InternalError))));

    let (mut r, _) = Registration::start(account("a@x.com", "pw"));
    r.advance(&h, StoreEvent::Looked(Ok(false)));
    r.advance(&h, StoreEvent::Looked(Ok(false)));
    let a = r.advance(&h, StoreEvent::Wrote(Err(WriteFault::Failed)));
    assert!(matches!(a, StoreAction::Finish(Err(AuthError::StoreWriteFailed))));

    let (mut r, _) = Registration::start(account("a@x.com", "pw"));
    r.advance(&h, StoreEvent::Looked(Ok(false)));
    r.advance(&h, StoreEvent::Looked(Ok(false)));
    r.advance(&h, StoreEvent::Wrote(Ok(())));
    let a = r.advance(&h, StoreEvent::Wrote(Err(WriteFault::Duplicate)));
    assert!(matches!(a, StoreAction::DeleteCredential(_)));
    let a = r.advance(&h, StoreEvent::Wrote(Err(WriteFault::Failed)));
    assert!(matches!(a, StoreAction::Finish(Err(AuthError::StoreInconsistent))));
}

#[test]
fn login_store_faults_and_inconsistency() {
    let h = Hasher::new(1000).unwrap();
    let m = manager();
    let mut stores = Stores::default();
    register(&mut stores, &h, account("a@x.com", "pw")).unwrap();
    let r = login(&h, &m, "a@x.com", "pw", Err(StoreFault::Unavailable), stores.profile("a@x.com"), 1);
    assert_eq!(r.err(), Some(AuthError::InternalError));
    let r = login(&h, &m, "a@x.com", "pw", stores.credential("a@x.com"), Err(StoreFault::Malformed), 1);
    assert_eq!(r.err(), Some(AuthError::InternalError));
    let r = login(&h, &m, "a@x.com", "pw", stores.credential("a@x.com"), Ok(None), 1);
    assert_eq!(r.err(), Some(AuthError::InvalidCredentials));
    let mut p = stores.profile("a@x.com").unwrap().unwrap();
    p.salt[0] ^= 1;
    let r = login(&h, &m, "a@x.com", "pw", stores.credential("a@x.com"), Ok(Some(p)), 1);
    assert_eq!(r.err(), Some(AuthError::StoreInconsistent));
}

#[test]
fn logout_and_profile_fetch() {
    let m = manager();
    assert_eq!(logout(&m, None, 5), Err(AuthError::Unauthenticated));
    let token = m.issue("a@x.com", 5);
    assert_eq!(logout(&m, Some(&token), 6), Ok(()));
    assert_eq!(logout(&m, Some(&token), 5 + 601), Err(AuthError::Unauthenticated));
    // After logout the client holds no cookie.
    assert_eq!(identify(&m, None, 7).err(), Some(AuthError::Unauthenticated));

    let claim = identify(&m, Some(&token), 7).ok().unwrap();
    let profile = Profile {
        email: "a@x.com".to_string(),
        first_name: "Ada".to_string(),
        last_name: "Lovelace".to_string(),
        salt: vec![3u8; 32],
    };
    let (shown, renewed) = fetch_profile(&m, &claim, Ok(Some(profile)), 300).ok().unwrap();
    assert_eq!(shown.first_name, "Ada");
    assert_eq!(m.validate(&renewed, 300 + 600).unwrap().expires_at, 900);
    assert!(m.validate(&token, 300 + 600).is_none());
    assert_eq!(fetch_profile(&m, &claim, Ok(None), 300).err(), Some(AuthError::Unauthenticated));
    assert_eq!(fetch_profile(&m, &claim, Err(StoreFault::Unavailable), 300).err(), Some(AuthError::InternalError));
    let stranger = Profile {
        email: "b@x.com".to_string(),
        first_name: "B".to_string(),
        last_name: "C".to_string(),
        salt: vec![3u8; 32],
    };
    assert_eq!(fetch_profile(&m, &claim, Ok(Some(stranger)), 300).err(), Some(AuthError::InternalError));
}

#[test]
fn profile_duplicate_rolls_back_to_conflict() {
    let h = Hasher::new(1000).unwrap();
    let mut stores = Stores::default();
    let (mut r, a) = Registration::start(account("a@x.com", "pw"));
    let a = r.advance(&h, stores.perform(a).ok().unwrap());
    let a = r.advance(&h, stores.perform(a).ok().unwrap());
    let a = r.advance(&h, stores.perform(a).ok().unwrap());
    assert!(matches!(a, StoreAction::InsertProfile(_)));
    // Another caller's profile lands first.
    stores.profiles.push(Profile {
        email: "a@x.com".to_string(),
        first_name: "X".to_string(),
        last_name: "Y".to_string(),
        salt: vec![9u8; 32],
    });
    let a = r.advance(&h, stores.perform(a).ok().unwrap());
    assert!(matches!(a, StoreAction::DeleteCredential(_)));
    let a = r.advance(&h, stores.perform(a).ok().unwrap());
    assert!(matches!(a, StoreAction::Finish(Err(AuthError::Conflict))));
    assert_eq!(stores.credentials.len(), 0);
    assert_eq!(stores.profiles.len(), 1);
}

#[test]
fn credential_for_drawn_salt() {
    let h = Hasher::new(1000).unwrap();
    let acct = account("a@x.com", "pw");
    let salt = vec![5u8; 32];
    let (stage, action) = credential_for(&h, &acct, Some(salt.clone()));
    assert!(matches!(stage, Stage::InsertCredential { ref salt } if salt == &vec![5u8; 32]));
    match action {
        StoreAction::InsertCredential(c) => {
            assert_eq!(c.email, "a@x.com");
            assert_eq!(c.salt, salt);
            assert_eq!(c.hash, h.derive_hash(b"pw", &salt));
        }
        _ => panic!("expected a credential insert"),
    }
    let (stage, action) = credential_for(&h, &acct, None);
    assert!(matches!(stage, Stage::Done));
    assert!(matches!(action, StoreAction::Finish(Err(AuthError::DerivationFailed))));
    let (_, action) = credential_for(&h, &acct, Some(vec![5u8; 16]));
    assert!(matches!(action, StoreAction::Finish(Err(AuthError::DerivationFailed))));
}

#[test]
fn login_refuses_short_stored_salt() {
    let h = Hasher::new(1000).unwrap();
    let m = manager();
    let salt = vec![4u8; 16];
    let hash = vec![0u8; 32];
    let c = Credential { email: "a@x.com".to_string(), salt: salt.clone(), hash };
    let p = Profile {
        email: "a@x.com".to_string(),
        first_name: "A".to_string(),
        last_name: "B".to_string(),
        salt,
    };
    let r = login(&h, &m, "a@x.com", "pw", Ok(Some(c)), Ok(Some(p)), 1);
    assert_eq!(r.err(), Some(AuthError::StoreInconsistent));
}
