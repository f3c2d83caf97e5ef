use crate::calendar::{Date, Timestamp};
use vstd::prelude::*;

verus! {

/// The largest magnitude of an amount, in cents.
pub const MAX_AMOUNT: i64 = 1_000_000_000_000_000;

/// Why an operation on the ledger did not complete.
#[derive(Clone, Copy, Debug, PartialEq, Eq, Structural)]
pub enum LedgerError {
    /// No stored movement has the id.
    NotFound,
    /// A stored document lacks a required field, or holds one that does not read.
    Malformed,
    /// A stored movement names an account that does not exist.
    UnknownAccount,
    /// A stored movement names a contact that does not exist.
    UnknownContact,
    /// A stored movement names a partner movement that does not exist.
    MissingPartner,
    /// A movement with neither a contact nor a partner.
    NoCounterparty,
    /// A linked movement handed to the single-movement save.
    LinkedMovement,
    /// The clock reads an instant outside the years a timestamp can hold.
    ClockOutOfRange,
    /// The store has no id left to hand out.
    IdsExhausted,
}

/// An account that movements are booked against.
#[derive(Clone, Debug)]
pub struct Account {
    pub uuid: String,
    pub name: String,
    /// The balance before any movement, in cents.
    pub open_balance: i64,
}

/// The other party of a movement.
#[derive(Clone, Debug)]
pub struct Contact {
    pub uuid: String,
    pub name: String,
}

/// A movement of money on an account: an income where `value` is not negative,
/// an expense where it is. Amounts are in cents.
#[derive(Clone, Debug)]
pub struct Movimentation {
    /// Empty until the movement is stored.
    pub uuid: String,
    /// The id of the account.
    pub account: String,
    /// The id of the contact.
    pub contact: Option<String>,
    pub description: String,
    pub value: i64,
    pub deadline: Date,
    /// Present once the movement is settled.
    pub paid_in: Option<Date>,
    pub created_at: Timestamp,
    pub updated_at: Option<Timestamp>,
    /// The id of the other leg of a transfer.
    pub transaction: Option<String>,
}

/// A movement as plain values: texts as sequences of characters.
pub struct MovView {
    pub uuid: Seq<char>,
    pub account: Seq<char>,
    pub contact: Option<Seq<char>>,
    pub description: Seq<char>,
    pub value: i64,
    pub deadline: Date,
    pub paid_in: Option<Date>,
    pub created_at: Timestamp,
    pub updated_at: Option<Timestamp>,
    pub transaction: Option<Seq<char>>,
}

pub open spec fn opt_view(s: Option<String>) -> Option<Seq<char>> {
    match s {
        Some(t) => Some(t@),
        None => None,
    }
}

impl View for Movimentation {
    type V = MovView;

    open spec fn view(&self) -> MovView {
        MovView {
            uuid: self.uuid@,
            account: self.account@,
            contact: opt_view(self.contact),
            description: self.description@,
            value: self.value,
            deadline: self.deadline,
            paid_in: self.paid_in,
            created_at: self.created_at,
            updated_at: self.updated_at,
            transaction: opt_view(self.transaction),
        }
    }
}

pub open spec fn amount_ok(v: i64) -> bool {
    -MAX_AMOUNT <= v <= MAX_AMOUNT
}

impl MovView {
    /// Dates and instants in range, and an amount in range.
    pub open spec fn in_range(self) -> bool {
        &&& amount_ok(self.value)
        &&& self.deadline.wf()
        &&& (self.paid_in matches Some(d) ==> d.wf())
        &&& self.created_at.wf()
        &&& (self.updated_at matches Some(t) ==> t.wf())
    }

    /// In range, and with a contact or a partner.
    pub open spec fn wf(self) -> bool {
        self.in_range() && (self.contact is Some || self.transaction is Some)
    }

    pub open spec fn settled(self) -> bool {
        self.paid_in is Some
    }
}

/// A copy of an optional text.
pub fn clone_opt(s: &Option<String>) -> (r: Option<String>)
    ensures
        opt_view(r) == opt_view(*s),
{
    match s {
        Some(t) => Some(t.clone()),
        None => None,
    }
}

impl Movimentation {
    /// A copy with the same view.
    pub fn duplicate(&self) -> (r: Movimentation)
        ensures
            r@ == self@,
    {
        Movimentation {
            uuid: self.uuid.clone(),
            account: self.account.clone(),
            contact: clone_opt(&self.contact),
            description: self.description.clone(),
            value: self.value,
            deadline: self.deadline,
            paid_in: self.paid_in,
            created_at: self.created_at,
            updated_at: self.updated_at,
            transaction: clone_opt(&self.transaction),
        }
    }

    /// A movement not stored yet: no id, no update instant, no partner, not settled.
    pub fn draft(account: String, contact: Option<String>, description: String, value: i64, deadline: Date, created_at: Timestamp) -> (r: Movimentation)
        ensures
            r@ == (MovView {
                uuid: Seq::empty(),
                account: account@,
                contact: opt_view(contact),
                description: description@,
                value,
                deadline,
                paid_in: None,
                created_at,
                updated_at: None,
                transaction: None,
            }),
    {
        Movimentation {
            uuid: String::new(),
            account,
            contact,
            description,
            value,
            deadline,
            paid_in: None,
            created_at,
            updated_at: None,
            transaction: None,
        }
    }

    /// The settled date as `YYYY-MM-DD`, or the text `(payable)` while the movement is not settled.
    pub fn paid_in_formmated(&self) -> (r: String)
        requires
            self.paid_in matches Some(d) ==> d.wf(),
        ensures
            self.paid_in is None ==> r@ == "(payable)"@,
            self.paid_in matches Some(d) ==> r@ == crate::calendar::ymd_text(d.year as int, d.month as int, d.day as int),
    {
        match self.paid_in {
            Some(d) => d.format(),
            None => "(payable)".to_string(),
        }
    }
}

} // verus!
