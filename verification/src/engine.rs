//! The protocol engine: registration, challenge issuance and verification
//! against the credential store and the challenge ledger.

use crate::entropy::random_in_range;
use crate::error::AuthError;
use crate::group::{P, Q};
use crate::ledger::{Challenge, ChallengeLedger, ChallengeRecord};
use crate::protocol::{accepts, answer_is_valid};
use crate::store::CredentialStore;
use crate::token::{fresh_token, is_token};
use vstd::prelude::*;

verus! {

/// The engine's state as mathematics: who is registered with which
/// commitments, and which challenges are open.
pub struct AuthState {
    pub users: Map<Seq<char>, (u64, u64)>,
    pub challenges: Map<Seq<char>, Challenge>,
}

impl AuthState {
    /// Nobody registered, nothing issued.
    pub open spec fn empty() -> AuthState {
        AuthState { users: Map::empty(), challenges: Map::empty() }
    }

    /// The invariant of the two stores: commitments are residues modulo `P`,
    /// challenge scalars are residues modulo `Q`, and every open challenge
    /// belongs to a registered user.
    pub open spec fn wf(self) -> bool {
        &&& forall|name: Seq<char>| #[trigger]
            self.users.contains_key(name) ==> self.users[name].0 < P && self.users[name].1 < P
        &&& forall|id: Seq<char>| #[trigger]
            self.challenges.contains_key(id) ==> {
                let ch = self.challenges[id];
                &&& self.users.contains_key(ch.username)
                &&& ch.r1 < P
                &&& ch.r2 < P
                &&& ch.c < Q
            }
    }

    /// Why a registration is refused, if it is.
    pub open spec fn registration_refusal(y1: u64, y2: u64) -> Option<AuthError> {
        if y1 < P && y2 < P {
            None
        } else {
            Some(AuthError::InvalidInput)
        }
    }

    /// The state after `name` asked to be registered with `(y1, y2)`.
    pub open spec fn after_registration(self, name: Seq<char>, y1: u64, y2: u64) -> AuthState {
        if Self::registration_refusal(y1, y2) is None {
            AuthState { users: self.users.insert(name, (y1, y2)), challenges: self.challenges }
        } else {
            self
        }
    }

    /// Why a request for a challenge is refused, if it is. The username is
    /// looked at first, so an unknown user is reported as such whatever else
    /// is wrong with the request.
    pub open spec fn request_refusal(self, name: Seq<char>, r1: u64, r2: u64) -> Option<AuthError> {
        if !self.users.contains_key(name) {
            Some(AuthError::UserNotFound)
        } else if !(r1 < P && r2 < P) {
            Some(AuthError::InvalidInput)
        } else {
            None
        }
    }

    /// Why issuing the challenge `c` on such a request is refused, if it is.
    pub open spec fn issue_refusal(self, name: Seq<char>, r1: u64, r2: u64, c: u64) -> Option<
        AuthError,
    > {
        if self.request_refusal(name, r1, r2) is Some {
            self.request_refusal(name, r1, r2)
        } else if !(c < Q) {
            Some(AuthError::InvalidInput)
        } else {
            None
        }
    }

    /// The state after the challenge `c` was to be issued under `id`.
    pub open spec fn after_issue(
        self,
        name: Seq<char>,
        r1: u64,
        r2: u64,
        id: Seq<char>,
        c: u64,
    ) -> AuthState {
        if self.issue_refusal(name, r1, r2, c) is None {
            AuthState {
                users: self.users,
                challenges: self.challenges.insert(id, Challenge { username: name, r1, r2, c }),
            }
        } else {
            self
        }
    }

    /// How the answer `s` to the challenge `id` is judged.
    pub open spec fn answer_outcome(self, id: Seq<char>, s: u64) -> Result<(), AuthError> {
        if !self.challenges.contains_key(id) {
            Err(AuthError::ChallengeNotFound)
        } else {
            let ch = self.challenges[id];
            if !self.users.contains_key(ch.username) {
                Err(AuthError::UserNotFound)
            } else {
                let y = self.users[ch.username];
                if accepts(
                    y.0 as nat,
                    y.1 as nat,
                    ch.r1 as nat,
                    ch.r2 as nat,
                    ch.c as nat,
                    s as nat,
                ) {
                    Ok(())
                } else {
                    Err(AuthError::AuthenticationFailure)
                }
            }
        }
    }

    /// The state after an answer to the challenge `id` was judged: the
    /// challenge is gone, whatever the verdict was.
    pub open spec fn after_answer(self, id: Seq<char>) -> AuthState {
        AuthState { users: self.users, challenges: self.challenges.remove(id) }
    }
}

/// Registering an identity keeps the state well formed.
pub proof fn lemma_registration_keeps_wf(st: AuthState, name: Seq<char>, y1: u64, y2: u64)
    requires
        st.wf(),
    ensures
        st.after_registration(name, y1, y2).wf(),
{
    let next = st.after_registration(name, y1, y2);
    if AuthState::registration_refusal(y1, y2) is None {
        assert forall|n: Seq<char>| #[trigger] next.users.contains_key(n) implies next.users[n].0
            < P && next.users[n].1 < P by {
            if n != name {
                assert(st.users.contains_key(n));
            }
        }
        assert forall|id: Seq<char>| #[trigger] next.challenges.contains_key(id) implies {
            let ch = next.challenges[id];
            &&& next.users.contains_key(ch.username)
            &&& ch.r1 < P
            &&& ch.r2 < P
            &&& ch.c < Q
        } by {
            assert(st.challenges.contains_key(id));
        }
    }
}

/// The verifier: a credential store and a challenge ledger, and the three
/// protocol steps that work on them.
///
/// Each step takes the engine by `&mut`, so steps on one engine are
/// serialised by ownership; sharing an engine between sessions is up to the
/// caller. An engine made by [`MyAuth::new`] starts well formed, and every
/// step keeps a well-formed engine well formed.
pub struct MyAuth {
    users: CredentialStore,
    challenges: ChallengeLedger,
}

impl View for MyAuth {
    type V = AuthState;

    closed spec fn view(&self) -> AuthState {
        AuthState { users: self.users@, challenges: self.challenges@ }
    }
}

impl MyAuth {
    /// An engine with an empty store and an empty ledger.
    pub fn new() -> (engine: Self)
        ensures
            engine@ == AuthState::empty(),
            engine@.wf(),
    {
        MyAuth { users: CredentialStore::new(), challenges: ChallengeLedger::new() }
    }

    /// An engine over a store and a ledger that were built elsewhere. The
    /// engine takes both over; from here on only its own steps change them.
    pub fn from_stores(users: CredentialStore, challenges: ChallengeLedger) -> (engine: Self)
        ensures
            engine@ == (AuthState { users: users@, challenges: challenges@ }),
    {
        MyAuth { users, challenges }
    }

    /// The credential store, for reading.
    pub fn users(&self) -> (store: &CredentialStore)
        ensures
            store@ == self@.users,
    {
        &self.users
    }

    /// The challenge ledger, for reading.
    pub fn challenges(&self) -> (ledger: &ChallengeLedger)
        ensures
            ledger@ == self@.challenges,
    {
        &self.challenges
    }

    /// Registers `username` with the commitments `(y1, y2)`; an identity
    /// already registered under that name is overwritten.
    ///
    /// Succeeds for every pair of residues modulo `P`. Any other pair is
    /// refused with `InvalidInput` before anything is changed.
    pub fn register_user(&mut self, username: String, y1: u64, y2: u64) -> (res: Result<
        (),
        AuthError,
    >)
        ensures
            res == (match AuthState::registration_refusal(y1, y2) {
                None => Ok::<(), AuthError>(()),
                Some(e) => Err::<(), AuthError>(e),
            }),
            final(self)@ == old(self)@.after_registration(username@, y1, y2),
            old(self)@.wf() ==> final(self)@.wf(),
    {
        let res = self.users.register(username, y1, y2);
        proof {
            if old(self)@.wf() {
                lemma_registration_keeps_wf(old(self)@, username@, y1, y2);
            }
        }
        res
    }

    /// Issues the challenge `c` under the id `auth_id` to a prover who sent
    /// the commitments `(r1, r2)` for `username`.
    ///
    /// Fails with `UserNotFound` if the username is not registered, and else
    /// with `InvalidInput` if a commitment is not reduced modulo `P` or the
    /// scalar not modulo `Q`. On failure nothing is changed; on success the
    /// ledger holds the new record under `auth_id`.
    pub fn issue_challenge(
        &mut self,
        username: &str,
        r1: u64,
        r2: u64,
        auth_id: String,
        c: u64,
    ) -> (res: Result<(), AuthError>)
        ensures
            res == (match old(self)@.issue_refusal(username@, r1, r2, c) {
                None => Ok::<(), AuthError>(()),
                Some(e) => Err::<(), AuthError>(e),
            }),
            final(self)@ == old(self)@.after_issue(username@, r1, r2, auth_id@, c),
            old(self)@.wf() ==> final(self)@.wf(),
    {
        if !self.users.contains(username) {
            return Err(AuthError::UserNotFound);
        }
        if r1 >= P || r2 >= P {
            return Err(AuthError::InvalidInput);
        }
        let record = ChallengeRecord { username: String::from_str(username), r1, r2, c };
        self.challenges.insert(auth_id, record)
    }

    /// Opens a login for `username`: mints a fresh challenge id, draws the
    /// challenge scalar uniformly from `[0, Q-1]`, records both with the
    /// prover's commitments and returns `(auth_id, c)`.
    ///
    /// Fails with `UserNotFound` if the username is not registered, and else
    /// with `InvalidInput` if a commitment is not reduced modulo `P`; then
    /// nothing is drawn and nothing is recorded. Which id and scalar come back
    /// on success is not determined.
    pub fn create_challenge(&mut self, username: &str, r1: u64, r2: u64) -> (res: Result<
        (String, u64),
        AuthError,
    >)
        ensures
            match res {
                Ok(issued) => {
                    &&& old(self)@.request_refusal(username@, r1, r2) is None
                    &&& issued.1 < Q
                    &&& is_token(issued.0@)
                    &&& final(self)@ == old(self)@.after_issue(
                        username@,
                        r1,
                        r2,
                        issued.0@,
                        issued.1,
                    )
                    &&& final(self)@.challenges.contains_key(issued.0@)
                },
                Err(e) => {
                    &&& old(self)@.request_refusal(username@, r1, r2) == Some(e)
                    &&& final(self)@ == old(self)@
                },
            },
            old(self)@.wf() ==> final(self)@.wf(),
    {
        if !self.users.contains(username) {
            return Err(AuthError::UserNotFound);
        }
        if r1 >= P || r2 >= P {
            return Err(AuthError::InvalidInput);
        }
        let auth_id = fresh_token();
        let c: u64 = random_in_range(0, Q);
        match self.issue_challenge(username, r1, r2, auth_id.clone(), c) {
            Ok(()) => Ok((auth_id, c)),
            Err(e) => Err(e),
        }
    }

    /// Judges the answer `s` to the challenge `auth_id` and consumes the
    /// challenge: it is removed from the ledger whatever the verdict, so the
    /// same id can never be answered twice.
    ///
    /// Fails with `ChallengeNotFound` if the id is not in the ledger, with
    /// `UserNotFound` if the challenge's user is no longer registered, and
    /// with `AuthenticationFailure` unless both verification equations hold.
    pub fn check_answer(&mut self, auth_id: &str, s: u64) -> (res: Result<(), AuthError>)
        ensures
            res == old(self)@.answer_outcome(auth_id@, s),
            final(self)@ == old(self)@.after_answer(auth_id@),
            old(self)@.wf() ==> final(self)@.wf(),
    {
        let record = match self.challenges.consume(auth_id) {
            Some(record) => record,
            None => {
                return Err(AuthError::ChallengeNotFound);
            },
        };
        let y = match self.users.lookup(record.username.as_str()) {
            Some(y) => y,
            None => {
                return Err(AuthError::UserNotFound);
            },
        };
        if answer_is_valid(y.0, y.1, record.r1, record.r2, record.c, s) {
            Ok(())
        } else {
            Err(AuthError::AuthenticationFailure)
        }
    }

    /// Verifies the answer `s` to the challenge `auth_id` and, if it is
    /// accepted, returns a fresh session id.
    ///
    /// The challenge is consumed whatever the verdict. The errors are those of
    /// [`MyAuth::check_answer`]. Which session id comes back on success is not
    /// determined; it is never empty.
    pub fn verify(&mut self, auth_id: &str, s: u64) -> (res: Result<String, AuthError>)
        ensures
            match res {
                Ok(session_id) => {
                    &&& old(self)@.answer_outcome(auth_id@, s) == Ok::<(), AuthError>(())
                    &&& is_token(session_id@)
                    &&& session_id@.len() >= 1
                },
                Err(e) => old(self)@.answer_outcome(auth_id@, s) == Err::<(), AuthError>(e),
            },
            final(self)@ == old(self)@.after_answer(auth_id@),
            old(self)@.wf() ==> final(self)@.wf(),
    {
        match self.check_answer(auth_id, s) {
            Ok(()) => Ok(fresh_token()),
            Err(e) => Err(e),
        }
    }
}

impl Default for MyAuth {
    fn default() -> (engine: Self)
        ensures
            engine@ == AuthState::empty(),
    {
        MyAuth::new()
    }
}

} // verus!
