//! A streaming importer for browser data export archives: it classifies
//! the entries of a zip archive by category, validates the metadata tag
//! embedded in JSON documents, and converts matching records into
//! strictly-shaped output records, aborting each decode the moment its
//! answer is known. Beside it live the utilities for handling vendored
//! third-party crates: version epochs, normalized crate names, and the
//! bookkeeping of a crate's files.

pub mod archive;
pub mod category;
pub mod digits;
pub mod decoder;
pub mod epoch;
pub mod json;
pub mod records;
pub mod vendored;
pub mod text;

use vstd::prelude::*;

verus! {

/// The categories of user data that an export archive may contain.
#[derive(Clone, Copy, PartialEq, Eq, Structural, Debug)]
pub enum FileType {
    Bookmarks,
    History,
    Passwords,
    PaymentCards,
}

} // verus!
