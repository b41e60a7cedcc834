//! The requests as they arrive, with dates still written as text, and what
//! each of them is answered with.

pub mod expenses;
pub mod invoices;
pub mod orders;
pub mod registration;
pub mod reports;
pub mod users;
