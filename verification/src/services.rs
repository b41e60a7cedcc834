//! The operations of the service, each on the store it is handed.

pub mod expenses;
pub mod invoices;
pub mod orders;
pub mod registration;
pub mod reports;
pub mod users;
