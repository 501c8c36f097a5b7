//! Projected sentence-reduction dates under the French penal-reduction
//! schemes: the automatic credit (CRP), the supplementary reduction (RPS) and
//! the credit for time spent in pre-trial detention or under electronic
//! monitoring.
//!
//! Calendar arithmetic is done by `chrono` and `chronoutil`. Each call into
//! them stands in `date`, behind a function whose contract is stated over the
//! proleptic Gregorian day count defined there. `utils` lets `chrono` read a
//! date from a text, and names what it reads.

pub mod date;
pub mod utils;
pub mod calculate;
pub mod options;
