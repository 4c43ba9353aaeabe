//! The challenge ledger: the challenges that were issued and not answered yet.

use crate::error::AuthError;
use crate::group::{P, Q};
use vstd::hash_map::StringHashMap;
use vstd::prelude::*;

verus! {

/// One issued challenge, as the ledger holds it.
#[derive(Debug)]
pub struct ChallengeRecord {
    /// Who asked for the challenge.
    pub username: String,
    /// The prover's first commitment, `G^k mod P`.
    pub r1: u64,
    /// The prover's second commitment, `H^k mod P`.
    pub r2: u64,
    /// The verifier's challenge scalar, in `[0, Q-1]`.
    pub c: u64,
}

/// The mathematical content of a [`ChallengeRecord`].
pub struct Challenge {
    pub username: Seq<char>,
    pub r1: u64,
    pub r2: u64,
    pub c: u64,
}

impl View for ChallengeRecord {
    type V = Challenge;

    open spec fn view(&self) -> Challenge {
        Challenge { username: self.username@, r1: self.r1, r2: self.r2, c: self.c }
    }
}

/// Challenge records keyed by challenge id. A record is written once, never
/// updated, and leaves the ledger the first time it is consumed.
///
/// The view is the map from challenge id to the record's content.
pub struct ChallengeLedger {
    entries: StringHashMap<ChallengeRecord>,
}

impl View for ChallengeLedger {
    type V = Map<Seq<char>, Challenge>;

    closed spec fn view(&self) -> Map<Seq<char>, Challenge> {
        self.entries@.map_values(|r: ChallengeRecord| r@)
    }
}

impl ChallengeLedger {
    /// A ledger without challenges.
    pub fn new() -> (ledger: Self)
        ensures
            ledger@ == Map::<Seq<char>, Challenge>::empty(),
    {
        let ledger = ChallengeLedger { entries: StringHashMap::new() };
        assert(ledger@ =~= Map::<Seq<char>, Challenge>::empty());
        ledger
    }

    /// Files `record` under `auth_id`. A record already filed under that id
    /// is replaced.
    ///
    /// Commitments that are not reduced modulo `P`, or a scalar that is not
    /// reduced modulo `Q`, are refused and the ledger is left as it was.
    pub fn insert(&mut self, auth_id: String, record: ChallengeRecord) -> (res: Result<
        (),
        AuthError,
    >)
        ensures
            res == (if record.r1 < P && record.r2 < P && record.c < Q {
                Ok::<(), AuthError>(())
            } else {
                Err::<(), AuthError>(AuthError::InvalidInput)
            }),
            final(self)@ == (if record.r1 < P && record.r2 < P && record.c < Q {
                old(self)@.insert(auth_id@, record@)
            } else {
                old(self)@
            }),
    {
        if record.r1 >= P || record.r2 >= P || record.c >= Q {
            return Err(AuthError::InvalidInput);
        }
        self.entries.insert(auth_id, record);
        assert(self@ =~= old(self)@.insert(auth_id@, record@));
        Ok(())
    }

    /// Takes the record filed under `auth_id` out of the ledger and returns
    /// it. Afterwards the id is unknown, so a second call with the same id
    /// finds nothing.
    pub fn consume(&mut self, auth_id: &str) -> (res: Option<ChallengeRecord>)
        ensures
            final(self)@ == old(self)@.remove(auth_id@),
            !final(self)@.contains_key(auth_id@),
            match res {
                Some(record) => old(self)@.contains_key(auth_id@) && record@ == old(self)@[auth_id@],
                None => !old(self)@.contains_key(auth_id@),
            },
    {
        let found = match self.entries.get(auth_id) {
            Some(record) => Some(
                ChallengeRecord {
                    username: record.username.clone(),
                    r1: record.r1,
                    r2: record.r2,
                    c: record.c,
                },
            ),
            None => None,
        };
        self.entries.remove(auth_id);
        assert(self@ =~= old(self)@.remove(auth_id@));
        found
    }

    /// How many challenges are open.
    pub fn len(&self) -> (n: usize)
        ensures
            n == self@.len(),
    {
        broadcast use vstd::hash_map::group_hash_map_axioms;

        assert(self@.dom() =~= self.entries@.dom());
        self.entries.len()
    }

    /// Whether a challenge is filed under `auth_id`.
    pub fn contains(&self, auth_id: &str) -> (open_challenge: bool)
        ensures
            open_challenge == self@.contains_key(auth_id@),
    {
        self.entries.contains_key(auth_id)
    }
}

} // verus!
