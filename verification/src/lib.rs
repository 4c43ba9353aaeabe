//! Chaum–Pedersen password authentication over a prime-order subgroup.
//!
//! A prover registers the pair `(G^x, H^x)` for a secret `x`, and later proves
//! knowledge of `x` by answering a one-time challenge; the secret itself never
//! leaves the prover.

pub mod engine;
mod entropy;
pub mod error;
pub mod group;
pub mod laws;
pub mod ledger;
pub mod order;
pub mod protocol;
pub mod store;
pub mod token;

pub use engine::{AuthState, MyAuth};
pub use error::AuthError;
pub use group::{mod_mul, mod_pow, mod_sub, G, H, P, Q};
pub use ledger::{Challenge, ChallengeLedger, ChallengeRecord};
pub use protocol::{answer_is_valid, begin_login, commit, commitment_pair, respond, Ephemeral};
pub use store::CredentialStore;
pub use token::{fresh_token, to_hex};
