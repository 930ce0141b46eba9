//! Request and response logic of a grammar-checking HTTP service.
//!
//! The library resolves the locale preference list of a request, turns the
//! request into one backend-agnostic configuration, normalizes the payload a
//! checking backend returns into one stable error schema, keeps the ledger of a
//! bounded worker pool, and maps every failure onto an HTTP status.
pub mod json;
pub mod locale;
pub mod pool;
pub mod request;
pub mod response;
pub mod service;
