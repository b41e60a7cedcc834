//! A verified core for a small financial-tracking service: orders with their
//! invoices, expenses, monthly reports, user accounts and the workflow that
//! rotates the shared registration code.
//!
//! The relational tables are modelled by [`db::Database`]; every service is a
//! set of verified operations on that store.

pub mod config;
pub mod errors;
pub mod date;
pub mod entities;
pub mod table;
pub mod db;
pub mod utils;
pub mod services;
pub mod text;
pub mod middleware;
pub mod handlers;
pub mod validate;
