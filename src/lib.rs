//! Locating a code site inside a process image, splicing a jump stub into
//! it, and restoring the original bytes afterwards.
//!
//! Target memory is modelled as an owned byte range with bounds checked at
//! every access; the operating-system work (opening the process, changing
//! page protection, copying bytes) is done by the caller around these
//! functions.

pub mod error;
pub mod memory;
pub mod pattern;
pub mod hook;
pub mod ledger;
pub mod process;
pub mod target;
pub mod control;
pub mod setup;
