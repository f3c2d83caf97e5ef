//! A personal ledger: movements of money against accounts, pairs of movements
//! that form a transfer, and balances over a period.
//!
//! Movements are stored as flat JSON documents in a `Storage`, under ids that the
//! store hands out. `codec` turns a movement into a document and back, `ledger`
//! reads, stores, links and removes movements, and `aggregate` lists the movements
//! of an account over a period with its running totals.

pub mod accounts_list;
pub mod aggregate;
pub mod calendar;
pub mod codec;
pub mod document;
pub mod ledger;
pub mod model;
pub mod store;

pub use accounts_list::{Accounts, AccountsItem};
pub use aggregate::{aggregate, StatusFilter, Total};
pub use calendar::{Date, Timestamp};
pub use codec::{decode, encode_at};
pub use model::{Account, Contact, LedgerError, Movimentation, MAX_AMOUNT};
pub use store::Storage;
