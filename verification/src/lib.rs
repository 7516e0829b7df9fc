//! Core of a client for one retail bank's private web session: transcription
//! of a password onto a session-randomized virtual keypad, extraction of
//! challenge tokens and account identifiers from the site's markup, the
//! authenticated-session state machine, and aggregation of quote series.
//!
//! Network transport and the HTTP facade around this crate are collaborators:
//! they fetch and submit pages, and hand this crate plain values.

pub mod account;
pub mod error;
pub mod extract;
pub mod requests;
pub mod session;
pub mod summary;
pub mod text;
pub mod tick;
pub mod virtual_pad;
