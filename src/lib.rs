//! A custodial ledger: accounts with balances, peer transfers, and
//! bill-payment and withdrawal requests whose status an administrator sets.

pub mod account;
pub mod error;
pub mod laws;
pub mod payvia;
pub mod request;
pub mod request_id;

pub use account::User;
pub use error::PayviaError;
pub use payvia::Payvia;
pub use request::{BillPayment, Withdrawal};
