//! Switch which local account the Steam client signs into automatically.
//!
//! The crate has four parts:
//!
//! - [`username`]: validation and normalization of the short account name
//!   that selects the active identity.
//! - [`vdf`]: a scanner and recursive-descent parser for the brace-delimited
//!   key-value text format in which Steam records previously-logged-in
//!   accounts, with queries over the parsed document and the extraction of
//!   login records.
//! - [`steam`]: the process-lifecycle layer: translation of the phased
//!   results reported by the privileged OS operations into a typed error
//!   taxonomy, exit-status mapping, stored-identity validation, and the
//!   restart workflow as a state machine.
//! - [`util`]: byte-slice comparison and the error-stopping token stream.
//!
//! The privileged OS operations themselves (registry access, process
//! enumeration and termination, process launch, file opening) live outside
//! this crate; everything here works on plain values handed across that
//! boundary.

pub mod steam;
pub mod username;
pub mod util;
pub mod vdf;

pub use steam::{Error, Result, Steam};
pub use username::{Username, UsernameError};
