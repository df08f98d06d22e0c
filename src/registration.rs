use vstd::prelude::*;

use vstd::string::StringSliceAdditionalSpecFns;
use crate::account::{bytes_of, email_fits, login_refusal, AuthError, Credential, Profile, StoreFault};
use crate::hasher::{generate_salt, input_fits, pbkdf2_of, Hasher, CREDENTIAL_LEN, MAX_INPUT_LEN};

verus! {

/// What a new account is registered with.
pub struct NewAccount {
    pub email: String,
    pub first_name: String,
    pub last_name: String,
    pub password: String,
}

/// Why a write to a store was refused.
#[derive(Clone, Copy, Debug, PartialEq, Eq, Structural)]
pub enum WriteFault {
    /// The store's unique index on the email already holds this email.
    Duplicate,
    /// Any other failure, a timeout included.
    Failed,
}

/// What the caller reports back after carrying out an action.
pub enum StoreEvent {
    /// The answer to a lookup: whether the email is present.
    Looked(Result<bool, StoreFault>),
    /// The outcome of an insert or a delete.
    Wrote(Result<(), WriteFault>),
}

/// What the registration asks its caller to do next.
pub enum StoreAction {
    /// Look the email up in the credential store.
    FindCredential(String),
    /// Look the email up in the profile store.
    FindProfile(String),
    /// Insert this record into the credential store.
    InsertCredential(Credential),
    /// Insert this record into the profile store.
    InsertProfile(Profile),
    /// Remove the credential of this email again.
    DeleteCredential(String),
    /// The registration is over, with this outcome.
    Finish(Result<(), AuthError>),
}

/// Where a registration stands.
pub enum Stage {
    CheckCredential,
    CheckProfile,
    InsertCredential { salt: Vec<u8> },
    InsertProfile { salt: Vec<u8> },
    RollBack { cause: AuthError },
    Done,
}

/// A registration in progress. The caller performs each action against the stores and
/// hands the outcome to `advance`, until the action is `Finish`. The credential store's
/// unique index on the email is the authority on duplicates: the two lookups at the start
/// only spare the work of hashing.
pub struct Registration {
    account: NewAccount,
    stage: Stage,
}

/// Whether `a` looks `email` up in the credential store.
pub open spec fn finds_credential(a: StoreAction, email: Seq<char>) -> bool {
    a matches StoreAction::FindCredential(e) && e@ == email
}

/// Whether `a` ends the registration with `outcome`.
pub open spec fn finishes(a: StoreAction, outcome: Result<(), AuthError>) -> bool {
    a matches StoreAction::Finish(o) && o == outcome
}

/// One step of a registration of `acct` with a hasher of `iterations` rounds: from stage
/// `s` and the event `ev` to stage `t` and action `a`. The only freedom is the salt drawn
/// when the lookups found nothing, whatever the random source gave; `after_draw` fixes
/// what follows from it.
pub open spec fn step(iterations: u32, acct: NewAccount, s: Stage, ev: StoreEvent, t: Stage, a: StoreAction) -> bool {
    match (s, ev) {
        (Stage::CheckCredential, StoreEvent::Looked(Ok(false))) =>
            t is CheckProfile && (a matches StoreAction::FindProfile(e) && e@ == acct.email@),
        (Stage::CheckProfile, StoreEvent::Looked(Ok(false))) =>
            exists|drawn: Option<Seq<u8>>| #[trigger] after_draw(iterations, acct, drawn, t, a),
        (Stage::CheckCredential, StoreEvent::Looked(Ok(true))) => t is Done && finishes(a, Err(AuthError::Conflict)),
        (Stage::CheckProfile, StoreEvent::Looked(Ok(true))) => t is Done && finishes(a, Err(AuthError::Conflict)),
        (Stage::InsertCredential { salt }, StoreEvent::Wrote(Ok(()))) =>
            (t matches Stage::InsertProfile { salt: s2 } && s2@ == salt@) && (a matches StoreAction::InsertProfile(p)
                && p.email@ == acct.email@ && p.first_name@ == acct.first_name@ && p.last_name@ == acct.last_name@
                && p.salt@ == salt@),
        (Stage::InsertCredential { salt }, StoreEvent::Wrote(Err(WriteFault::Duplicate))) =>
            t is Done && finishes(a, Err(AuthError::Conflict)),
        (Stage::InsertCredential { salt }, StoreEvent::Wrote(Err(WriteFault::Failed))) =>
            t is Done && finishes(a, Err(AuthError::StoreWriteFailed)),
        (Stage::InsertProfile { salt }, StoreEvent::Wrote(Ok(()))) => t is Done && finishes(a, Ok(())),
        (Stage::InsertProfile { salt }, StoreEvent::Wrote(Err(f))) =>
            t == (Stage::RollBack {
                cause: if f == WriteFault::Duplicate { AuthError::Conflict } else { AuthError::StoreWriteFailed },
            }) && (a matches StoreAction::DeleteCredential(e) && e@ == acct.email@),
        (Stage::RollBack { cause }, StoreEvent::Wrote(Ok(()))) => t is Done && finishes(a, Err(cause)),
        (Stage::RollBack { cause }, StoreEvent::Wrote(Err(_))) =>
            t is Done && finishes(a, Err(AuthError::StoreInconsistent)),
        (Stage::CheckCredential, StoreEvent::Looked(Err(_))) => t is Done && finishes(a, Err(AuthError::InternalError)),
        (Stage::CheckProfile, StoreEvent::Looked(Err(_))) => t is Done && finishes(a, Err(AuthError::InternalError)),
        _ => t is Done && finishes(a, Err(AuthError::InternalError)),
    }
}

/// The bytes of a drawn salt, if one was drawn.
pub open spec fn drawn_view(drawn: Option<Vec<u8>>) -> Option<Seq<u8>> {
    match drawn {
        Some(v) => Some(v@),
        None => None,
    }
}

/// What follows the lookups of `acct` that found nothing, once a salt was drawn (or the
/// random source failed): with a 32-byte salt and a password that can be hashed, stage
/// `t` awaits the insert of the credential that `a` carries, made of that salt and the
/// hash under it; otherwise the registration ends with `DerivationFailed`.
pub open spec fn after_draw(iterations: u32, acct: NewAccount, drawn: Option<Seq<u8>>, t: Stage, a: StoreAction) -> bool {
    if drawn matches Some(s) && s.len() == CREDENTIAL_LEN && input_fits(bytes_of(acct.password)) {
        let s = drawn->Some_0;
        &&& (t matches Stage::InsertCredential { salt } && salt@ == s)
        &&& (a matches StoreAction::InsertCredential(c) && c.email@ == acct.email@ && c.salt@ == s
            && c.hash@.len() == CREDENTIAL_LEN && c.hash@ == pbkdf2_of(iterations, s, bytes_of(acct.password)))
    } else {
        t is Done && finishes(a, Err(AuthError::DerivationFailed))
    }
}

/// The stage and action that follow the drawing of a salt for `account`: the credential
/// to insert, made of the salt and the hash of the password under it, or
/// `DerivationFailed` when no 32-byte salt was drawn or the password is too long.
pub fn credential_for(hasher: &Hasher, account: &NewAccount, drawn: Option<Vec<u8>>) -> (r: (Stage, StoreAction))
    ensures
        after_draw(hasher.iteration_count(), *account, drawn_view(drawn), r.0, r.1),
{
    let pw = account.password.as_str().as_bytes();
    if pw.len() as u64 >= MAX_INPUT_LEN {
        return (Stage::Done, StoreAction::Finish(Err(AuthError::DerivationFailed)));
    }
    let salt = match drawn {
        Some(s) => s,
        None => return (Stage::Done, StoreAction::Finish(Err(AuthError::DerivationFailed))),
    };
    if salt.len() != CREDENTIAL_LEN {
        return (Stage::Done, StoreAction::Finish(Err(AuthError::DerivationFailed)));
    }
    let hash = hasher.derive_hash(pw, salt.as_slice());
    let c = Credential { email: account.email.clone(), salt: salt.clone(), hash };
    (Stage::InsertCredential { salt }, StoreAction::InsertCredential(c))
}

impl Registration {
    /// The account being registered.
    pub closed spec fn account(self) -> NewAccount {
        self.account
    }

    /// The stage reached.
    pub closed spec fn stage(self) -> Stage {
        self.stage
    }

    /// Starts registering `account`: the first action looks its email up in the
    /// credential store.
    pub fn start(account: NewAccount) -> (r: (Registration, StoreAction))
        ensures
            r.0.account() == account,
            r.0.stage() is CheckCredential,
            finds_credential(r.1, account.email@),
    {
        let email = account.email.clone();
        (Registration { account, stage: Stage::CheckCredential }, StoreAction::FindCredential(email))
    }

    /// Whether the registration is over.
    pub fn is_done(&self) -> (r: bool)
        ensures
            r == self.stage() is Done,
    {
        match self.stage {
            Stage::Done => true,
            _ => false,
        }
    }

    /// Takes the outcome of the last action and returns the next one.
    pub fn advance(&mut self, hasher: &Hasher, ev: StoreEvent) -> (a: StoreAction)
        ensures
            final(self).account() == old(self).account(),
            step(hasher.iteration_count(), old(self).account(), old(self).stage(), ev, final(self).stage(), a),
    {
        let mut stage = Stage::Done;
        std::mem::swap(&mut stage, &mut self.stage);
        match (stage, ev) {
            (Stage::CheckCredential, StoreEvent::Looked(Ok(false))) => {
                self.stage = Stage::CheckProfile;
                StoreAction::FindProfile(self.account.email.clone())
            },
            (Stage::CheckProfile, StoreEvent::Looked(Ok(false))) => {
                let pw = self.account.password.as_str().as_bytes();
                // A password that cannot be hashed needs no salt.
                let drawn = if (pw.len() as u64) < MAX_INPUT_LEN {
                    generate_salt()
                } else {
                    None
                };
                let ghost d = drawn_view(drawn);
                let (t, a) = credential_for(hasher, &self.account, drawn);
                self.stage = t;
                assert(after_draw(hasher.iteration_count(), self.account, d, self.stage, a));
                a
            },
            (Stage::CheckCredential, StoreEvent::Looked(Ok(true))) => StoreAction::Finish(Err(AuthError::Conflict)),
            (Stage::CheckProfile, StoreEvent::Looked(Ok(true))) => StoreAction::Finish(Err(AuthError::Conflict)),
            (Stage::InsertCredential { salt }, StoreEvent::Wrote(Ok(()))) => {
                let p = Profile {
                    email: self.account.email.clone(),
                    first_name: self.account.first_name.clone(),
                    last_name: self.account.last_name.clone(),
                    salt: salt.clone(),
                };
                self.stage = Stage::InsertProfile { salt };
                StoreAction::InsertProfile(p)
            },
            (Stage::InsertCredential { salt }, StoreEvent::Wrote(Err(WriteFault::Duplicate))) => {
                StoreAction::Finish(Err(AuthError::Conflict))
            },
            (Stage::InsertCredential { salt }, StoreEvent::Wrote(Err(WriteFault::Failed))) => {
                StoreAction::Finish(Err(AuthError::StoreWriteFailed))
            },
            (Stage::InsertProfile { salt }, StoreEvent::Wrote(Ok(()))) => StoreAction::Finish(Ok(())),
            (Stage::InsertProfile { salt }, StoreEvent::Wrote(Err(f))) => {
                let cause = match f {
                    WriteFault::Duplicate => AuthError::Conflict,
                    WriteFault::Failed => AuthError::StoreWriteFailed,
                };
                self.stage = Stage::RollBack { cause };
                StoreAction::DeleteCredential(self.account.email.clone())
            },
            (Stage::RollBack { cause }, StoreEvent::Wrote(Ok(()))) => StoreAction::Finish(Err(cause)),
            (Stage::RollBack { cause }, StoreEvent::Wrote(Err(_))) => {
                StoreAction::Finish(Err(AuthError::StoreInconsistent))
            },
            (Stage::CheckCredential, StoreEvent::Looked(Err(_))) => StoreAction::Finish(Err(AuthError::InternalError)),
            (Stage::CheckProfile, StoreEvent::Looked(Err(_))) => StoreAction::Finish(Err(AuthError::InternalError)),
            _ => StoreAction::Finish(Err(AuthError::InternalError)),
        }
    }
}

/// A registration whose lookups find the email in the credential store, or find it in
/// the profile store after the credential store, is refused with `Conflict` at once, and
/// the only actions of that run are the two lookups.
pub proof fn lemma_present_email_refused(
    it: u32,
    acct: NewAccount,
    s1: Stage,
    a1: StoreAction,
    in_credentials: bool,
    s2: Stage,
    a2: StoreAction,
)
    requires
        step(it, acct, Stage::CheckCredential, StoreEvent::Looked(Ok(in_credentials)), s1, a1),
        !in_credentials ==> step(it, acct, s1, StoreEvent::Looked(Ok(true)), s2, a2),
    ensures
        in_credentials ==> s1 is Done && finishes(a1, Err(AuthError::Conflict)),
        !in_credentials ==> a1 is FindProfile && s2 is Done && finishes(a2, Err(AuthError::Conflict)),
{
}

/// Once a registration is over, every further event leaves it over and asks for no write.
pub proof fn lemma_done_is_final(it: u32, acct: NewAccount, ev: StoreEvent, t: Stage, a: StoreAction)
    requires
        step(it, acct, Stage::Done, ev, t, a),
    ensures
        t is Done,
        a is Finish,
{
}

/// When the credential store's unique index refuses the credential insert, the
/// registration ends with `Conflict` and writes nothing: of two registrations of one
/// email, the one that loses at the index stores no record.
pub proof fn lemma_duplicate_insert_refused(
    it: u32,
    acct: NewAccount,
    salt: Vec<u8>,
    t: Stage,
    a: StoreAction,
)
    requires
        step(it, acct, Stage::InsertCredential { salt }, StoreEvent::Wrote(Err(WriteFault::Duplicate)), t, a),
    ensures
        t is Done,
        finishes(a, Err(AuthError::Conflict)),
{
}

/// When the profile store's unique index refuses the profile insert, the registration
/// removes the credential it wrote and, once that removal succeeds, ends with `Conflict`;
/// only a failed removal ends with `StoreInconsistent`.
pub proof fn lemma_profile_duplicate_rolled_back(
    it: u32,
    acct: NewAccount,
    salt: Vec<u8>,
    t1: Stage,
    a1: StoreAction,
    removed: Result<(), WriteFault>,
    t2: Stage,
    a2: StoreAction,
)
    requires
        step(it, acct, Stage::InsertProfile { salt }, StoreEvent::Wrote(Err(WriteFault::Duplicate)), t1, a1),
        step(it, acct, t1, StoreEvent::Wrote(removed), t2, a2),
    ensures
        a1 matches StoreAction::DeleteCredential(e) && e@ == acct.email@,
        t2 is Done,
        removed is Ok ==> finishes(a2, Err(AuthError::Conflict)),
        removed is Err ==> finishes(a2, Err(AuthError::StoreInconsistent)),
{
}

/// The profile that a registration inserts carries the email and the salt of the
/// credential it inserted just before.
pub proof fn lemma_profile_matches_credential(
    it: u32,
    acct: NewAccount,
    s0: Stage,
    e0: StoreEvent,
    s1: Stage,
    c: Credential,
    e1: StoreEvent,
    s2: Stage,
    p: Profile,
)
    requires
        step(it, acct, s0, e0, s1, StoreAction::InsertCredential(c)),
        step(it, acct, s1, e1, s2, StoreAction::InsertProfile(p)),
    ensures
        p.salt@ == c.salt@,
        p.email@ == c.email@,
        p.salt@.len() == CREDENTIAL_LEN,
{
}

/// The credential and profile that a registration inserts let the account log in with
/// the password it was registered with.
pub proof fn lemma_registered_account_logs_in(
    it: u32,
    acct: NewAccount,
    s0: Stage,
    e0: StoreEvent,
    s1: Stage,
    c: Credential,
    e1: StoreEvent,
    s2: Stage,
    p: Profile,
)
    requires
        step(it, acct, s0, e0, s1, StoreAction::InsertCredential(c)),
        step(it, acct, s1, e1, s2, StoreAction::InsertProfile(p)),
        email_fits(bytes_of(acct.email)),
    ensures
        login_refusal(it, bytes_of(acct.email), bytes_of(acct.password), Ok(Some(c)), Ok(Some(p))) is None,
{
}

} // verus!
