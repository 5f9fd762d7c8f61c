//! Extraction, filtering and aggregation of CFDI-style tax invoices.
//!
//! Documents arrive as raw text, loose or inside ZIP containers; each
//! is validated into an exact in-memory invoice, filtered by
//! counterparty RFC and an inclusive date window, and folded into one
//! exact fixed-point total for a chosen monetary field. Every function
//! here carries a contract stating precisely what it returns; the
//! surrounding command-line shell, filesystem walking and XML syntax
//! handling live outside the library.

pub mod amount;
pub mod bill;
pub mod bill_extractor;
pub mod datetime;
pub mod parse;
pub mod reporter;
pub mod reporter_factory;
pub mod xml_extractor;
