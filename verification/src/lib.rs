//! Finds the next two daylight-saving transitions of a named time zone.
//!
//! The only thing the search knows of a zone is the DST component of its UTC
//! offset at a given instant. Instants are seconds since the Unix epoch, UTC.

pub mod clock;
pub mod laws;
pub mod record;
pub mod resolve;
pub mod search;
pub mod zone;
