//! Billing records for a small accounting application: clients, products and
//! invoices, with the invoice transaction engine that keeps product stock and
//! client balances in step with every invoice that is created or amended.
//!
//! Money is held in minor currency units, record identifiers as the number
//! their twelve bytes spell, and times as milliseconds since the epoch. A
//! client's outstanding balance is its owed figure, which already nets
//! payments.
//!
//! - `ids`: reading identifiers from text.
//! - `model`: the records.
//! - `pricing`: invoice totals and payment status.
//! - `differ`: the stock movement between an invoice's old and new lines.
//! - `ledger`: the store of records, its stock ledger and billing ledger.
//! - `transaction`: creating and amending invoices as single units of work.
//! - `queries`: reading invoices back, and checking a store's consistency.
//! - `laws`: properties that hold across the operations.
//! - `error`, `logging`, `collections`, `text`: errors, log records,
//!   collection names, numbers written as text.

pub mod collections;
pub mod differ;
pub mod error;
pub mod ids;
pub mod laws;
pub mod ledger;
pub mod logging;
pub mod model;
pub mod pricing;
pub mod queries;
pub mod text;
pub mod transaction;
