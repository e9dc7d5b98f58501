//! What the functions are for: laws over their inputs and results.
//!
//! The contracts of the functions name what they compute. Each law here says of such a result
//! what a user may rely on, in terms of what went in, and is proved of every input.
//!
//! - [`rows`] — what a row holds of its record; [`batches`] — what a query reads by name.
//! - [`scalars`] — how a result cell follows from its row; [`times`] — timestamps.
//! - [`scans`] — what streams and sources yield, and where they can be taken up again.
//! - [`places`], [`arguments`] — from paths and arguments to what is read, and how.
//! - [`texts`], [`descriptions`], [`views`] — the rest.

pub mod arguments;
pub mod batches;
pub mod descriptions;
pub mod places;
pub mod rows;
pub mod scalars;
pub mod scans;
pub mod texts;
pub mod times;
pub mod views;
