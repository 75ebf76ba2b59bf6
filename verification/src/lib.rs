//! The core of a command-line keeper of time-based one-time-password
//! secrets.
//!
//! A secret is Base32 text ([`secret`]). It is kept in a credential store
//! under its account's name, and the account names are kept in an index
//! file, one to a line ([`index`], with what holds of it in [`index_laws`]).
//! A code is computed from the secret, an algorithm, a digit count and a
//! period ([`totp`]).
//!
//! The library reads no file and reaches no store. Each command
//! ([`command`]) is a short exchange: it says what is to be done next, the
//! caller does it and hands back the outcome. [`sync`] shows that commands
//! carried out in this way keep the index and the store in step.

pub mod command;
pub mod error;
pub mod index;
pub mod index_laws;
pub mod secret;
pub mod sync;
pub mod text;
pub mod totp;
