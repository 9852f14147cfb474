//! Core of a visit-counting backend: an in-memory counter store that absorbs
//! high-frequency increments and is periodically reconciled into a durable
//! key/value store, a per-entity click ledger with per-day records, a flush
//! scheduler that retries failed writes, and a bootstrap loader that retries
//! a failed startup load exactly once. A small line-search utility used by
//! the accompanying console tool is included as well.

pub mod click_dao;
pub mod controller;
pub mod minigrep;
pub mod scheduler;
pub mod systeminfo;
pub mod systeminfo_dao;
pub mod systeminfo_response;
pub mod utils;
