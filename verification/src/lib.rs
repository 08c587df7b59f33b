//! A stopwatch that charges the time between labelled checkpoints to the
//! labels, and renders a breakdown of where the time went.
pub mod clock;
pub mod ledger;
pub mod report;
pub mod runs;
pub mod stopwatch;
pub mod text;
