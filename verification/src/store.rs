//! The credential store: which commitment pair each username is bound to.

use crate::error::AuthError;
use crate::group::P;
use vstd::hash_map::StringHashMap;
use vstd::prelude::*;

verus! {

/// Identity records keyed by username. A username occurs at most once; the
/// secret behind a commitment pair is never stored.
///
/// The view is the map from username to the pair `(y1, y2)`.
pub struct CredentialStore {
    entries: StringHashMap<(u64, u64)>,
}

impl View for CredentialStore {
    type V = Map<Seq<char>, (u64, u64)>;

    closed spec fn view(&self) -> Map<Seq<char>, (u64, u64)> {
        self.entries@
    }
}

impl CredentialStore {
    /// A store without identities.
    pub fn new() -> (store: Self)
        ensures
            store@ == Map::<Seq<char>, (u64, u64)>::empty(),
    {
        CredentialStore { entries: StringHashMap::new() }
    }

    /// Binds `username` to `(y1, y2)`, replacing an earlier binding of the
    /// same name. No proof of possession is asked for here, and none of the
    /// old secret on replacement: whoever registers a name last owns it.
    ///
    /// A pair that is not reduced modulo `P` is refused and the store is left
    /// as it was.
    pub fn register(&mut self, username: String, y1: u64, y2: u64) -> (res: Result<(), AuthError>)
        ensures
            res == (if y1 < P && y2 < P {
                Ok::<(), AuthError>(())
            } else {
                Err::<(), AuthError>(AuthError::InvalidInput)
            }),
            final(self)@ == (if y1 < P && y2 < P {
                old(self)@.insert(username@, (y1, y2))
            } else {
                old(self)@
            }),
    {
        if y1 >= P || y2 >= P {
            return Err(AuthError::InvalidInput);
        }
        self.entries.insert(username, (y1, y2));
        Ok(())
    }

    /// The commitment pair registered under `username`, if there is one.
    pub fn lookup(&self, username: &str) -> (res: Option<(u64, u64)>)
        ensures
            res == (if self@.contains_key(username@) {
                Some(self@[username@])
            } else {
                None
            }),
    {
        match self.entries.get(username) {
            Some(pair) => Some(*pair),
            None => None,
        }
    }

    /// How many identities are registered.
    pub fn len(&self) -> (n: usize)
        ensures
            n == self@.len(),
    {
        self.entries.len()
    }

    /// Whether an identity is registered under `username`.
    pub fn contains(&self, username: &str) -> (known: bool)
        ensures
            known == self@.contains_key(username@),
    {
        self.entries.contains_key(username)
    }
}

} // verus!
