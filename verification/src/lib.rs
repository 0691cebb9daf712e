//! A small note-keeping web service, split into its verified core:
//! an in-memory append-only numeric registry, a note store with
//! create/read/update/delete semantics, a request dispatcher, and the
//! pure response builders of the remaining handlers.

pub mod handlers;
pub mod notes;
pub mod parse;
pub mod registry;
pub mod router;

use vstd::prelude::*;

verus! {

} // verus!
