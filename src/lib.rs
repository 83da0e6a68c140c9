//! A small classifieds board: a store of password-protected listings
//! ("dates") that are created with validation, read, extended, deleted and
//! swept away once they expire.

pub mod clock;
pub mod content;
pub mod ids;
pub mod laws;
pub mod service;

pub use content::{validate_time, DateContent, DeleteRequest, InputError};
pub use service::{Date, DatingService};
