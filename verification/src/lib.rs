//! A personal budget ledger: a monthly budget, an ordered list of
//! transactions, the totals derived from them, and the rules by which
//! free-text form input becomes ledger entries.
//!
//! Money is held exactly, as a signed count of hundredths of the currency
//! unit.

pub mod text;
pub mod money;
pub mod ledger;
pub mod budget;
