//! Word lists for short, human-typable rendezvous codes: drawing a fresh code
//! and completing a partially typed one.
//!
//! A code is a run of words joined by `-`. The words for the even positions of
//! a code come from one list and the words for the odd positions from
//! another, so that the position of a word tells which list it is from.

pub mod lemmas;
pub mod matching;
pub mod password;
pub mod pgp;
pub mod table;
pub mod text;
pub mod wordlist;

pub use matching::Matching;
pub use password::Password;
pub use table::LoadError;
pub use wordlist::Wordlist;
