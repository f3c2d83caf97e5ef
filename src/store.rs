use crate::model::{Account, Contact, LedgerError};
use vstd::prelude::*;

verus! {

/// The decimal text of a number, as `u64`'s `Display` writes it.
pub uninterp spec fn decimal_text(n: u64) -> Seq<char>;

/// Relies on `u64`'s `Display` through `to_string`: the number in decimal digits,
/// which no other number shares.
#[verifier::external_body]
fn id_text(n: u64) -> (r: String)
    ensures
        r@ == decimal_text(n),
        r@.len() > 0,
        forall|k: u64| k != n ==> decimal_text(k) != r@,
{
    n.to_string()
}

/// A stored document under its id.
pub struct Row {
    pub id: String,
    pub doc: json::JsonValue,
}

/// The collection of movement documents, with the accounts and contacts they refer to.
/// `new` builds a well-formed store and every method that changes one keeps it so.
pub struct Storage {
    accounts: Vec<Account>,
    contacts: Vec<Contact>,
    rows: Vec<Row>,
    next_id: u64,
}

impl Storage {
    /// The stored documents, in order, each under its id.
    pub closed spec fn rows(self) -> Seq<(Seq<char>, json::JsonValue)> {
        self.rows@.map_values(|r: Row| (r.id@, r.doc))
    }

    /// No stored id is the text of a number that the store has yet to hand out.
    pub closed spec fn ids_fresh(self) -> bool {
        forall|i: int, k: u64| 0 <= i < self.rows().len() && k >= self.next_id ==> (#[trigger] self.rows()[i]).0
            != #[trigger] decimal_text(k)
    }

    /// How many new ids the store can still hand out.
    pub closed spec fn spare_ids(self) -> int {
        u64::MAX - self.next_id
    }

    /// Each id is non-empty and names one document; new ids are fresh.
    pub open spec fn wf(self) -> bool {
        let rows = self.rows();
        &&& self.ids_fresh()
        &&& forall|i: int| 0 <= i < rows.len() ==> (#[trigger] rows[i]).0.len() > 0
        &&& forall|i: int, j: int|
            0 <= i < rows.len() && 0 <= j < rows.len() && i != j ==> (#[trigger] rows[i]).0
                != (#[trigger] rows[j]).0
    }

    pub open spec fn has_row(self, id: Seq<char>) -> bool {
        exists|i: int| 0 <= i < self.rows().len() && (#[trigger] self.rows()[i]).0 == id
    }

    /// The document stored under `id`, where there is one.
    pub open spec fn doc_of(self, id: Seq<char>) -> json::JsonValue {
        let i = choose|i: int| 0 <= i < self.rows().len() && (#[trigger] self.rows()[i]).0 == id;
        self.rows()[i].1
    }

    /// The ids of the accounts.
    pub closed spec fn account_ids(self) -> Seq<Seq<char>> {
        self.accounts@.map_values(|a: Account| a.uuid@)
    }

    /// The ids of the contacts.
    pub closed spec fn contact_ids(self) -> Seq<Seq<char>> {
        self.contacts@.map_values(|c: Contact| c.uuid@)
    }

    pub open spec fn has_account(self, id: Seq<char>) -> bool {
        self.account_ids().contains(id)
    }

    pub open spec fn has_contact(self, id: Seq<char>) -> bool {
        self.contact_ids().contains(id)
    }

    /// Both registries unchanged.
    pub open spec fn same_parties(self, other: Storage) -> bool {
        self.account_ids() == other.account_ids() && self.contact_ids() == other.contact_ids()
    }

    /// `self` and `other` hold the same documents under every id but `id`.
    pub open spec fn agrees_except(self, other: Storage, id: Seq<char>) -> bool {
        forall|k: Seq<char>| k != id ==> (#[trigger] self.has_row(k) <==> other.has_row(k))
            && (self.has_row(k) ==> self.doc_of(k) == other.doc_of(k))
    }

    /// `self` and `other` hold the same documents under every id but `i1` and `i2`.
    pub open spec fn agrees_except_two(self, other: Storage, i1: Seq<char>, i2: Seq<char>) -> bool {
        forall|k: Seq<char>| k != i1 && k != i2 ==> (#[trigger] self.has_row(k) <==> other.has_row(k))
            && (self.has_row(k) ==> self.doc_of(k) == other.doc_of(k))
    }

    /// Whether the store can hand out `n` more ids.
    pub fn has_spare_ids(&self, n: u64) -> (r: bool)
        ensures
            r == (self.spare_ids() >= n),
    {
        u64::MAX - self.next_id >= n
    }

    proof fn lemma_doc_at(self, i: int)
        requires
            self.wf(),
            0 <= i < self.rows().len(),
        ensures
            self.has_row(self.rows()[i].0),
            self.doc_of(self.rows()[i].0) == self.rows()[i].1,
    {
        let id = self.rows()[i].0;
        assert(self.rows()[i].0 == id);
    }

    /// An empty store.
    pub fn new(accounts: Vec<Account>, contacts: Vec<Contact>) -> (r: Storage)
        ensures
            r.wf(),
            r.rows().len() == 0,
            r.spare_ids() == u64::MAX,
            r.account_ids() == accounts@.map_values(|a: Account| a.uuid@),
            r.contact_ids() == contacts@.map_values(|c: Contact| c.uuid@),
    {
        let r = Storage { accounts, contacts, rows: Vec::new(), next_id: 0 };
        assert(r.rows() =~= Seq::<(Seq<char>, json::JsonValue)>::empty());
        r
    }

    pub fn row_count(&self) -> (r: usize)
        ensures
            r == self.rows().len(),
    {
        self.rows.len()
    }

    /// The document at a position, with its id.
    pub fn row_at(&self, i: usize) -> (r: (&String, &json::JsonValue))
        requires
            i < self.rows().len(),
        ensures
            r.0@ == self.rows()[i as int].0,
            *r.1 == self.rows()[i as int].1,
    {
        let row = &self.rows[i];
        (&row.id, &row.doc)
    }

    /// The position of the document stored under `id`.
    pub fn find_by_id(&self, id: &String) -> (r: Option<usize>)
        ensures
            r is None <==> !self.has_row(id@),
            r matches Some(i) ==> i < self.rows().len() && self.rows()[i as int].0 == id@,
            r matches Some(i) ==> self.wf() ==> self.doc_of(id@) == self.rows()[i as int].1,
    {
        let mut i: usize = 0;
        while i < self.rows.len()
            invariant
                0 <= i <= self.rows@.len(),
                forall|k: int| 0 <= k < i ==> (#[trigger] self.rows()[k]).0 != id@,
            decreases self.rows@.len() - i,
        {
            if self.rows[i].id == *id {
                assert(self.rows()[i as int].0 == id@);
                return Some(i);
            }
            i = i + 1;
        }
        None
    }

    /// The account with the id.
    pub fn account(&self, id: &String) -> (r: Option<&Account>)
        ensures
            r is Some <==> self.has_account(id@),
            r matches Some(a) ==> a.uuid@ == id@,
    {
        let mut i: usize = 0;
        while i < self.accounts.len()
            invariant
                0 <= i <= self.accounts@.len(),
                forall|k: int| 0 <= k < i ==> (#[trigger] self.account_ids()[k]) != id@,
            decreases self.accounts@.len() - i,
        {
            if self.accounts[i].uuid == *id {
                assert(self.account_ids()[i as int] == id@);
                return Some(&self.accounts[i]);
            }
            i = i + 1;
        }
        None
    }

    /// Whether a contact has the id.
    pub fn contact_exists(&self, id: &String) -> (r: bool)
        ensures
            r == self.has_contact(id@),
    {
        let mut i: usize = 0;
        while i < self.contacts.len()
            invariant
                0 <= i <= self.contacts@.len(),
                forall|k: int| 0 <= k < i ==> (#[trigger] self.contact_ids()[k]) != id@,
            decreases self.contacts@.len() - i,
        {
            if self.contacts[i].uuid == *id {
                assert(self.contact_ids()[i as int] == id@);
                return true;
            }
            i = i + 1;
        }
        false
    }

    /// Stores a document under a new id, which it returns.
    pub fn insert(&mut self, doc: json::JsonValue) -> (r: Result<String, LedgerError>)
        requires
            old(self).wf(),
        ensures
            final(self).wf(),
            final(self).same_parties(*old(self)),
            r is Err <==> old(self).spare_ids() == 0,
            r is Err ==> r == Err::<String, LedgerError>(LedgerError::IdsExhausted) && *final(self) == *old(self),
            r is Ok ==> final(self).spare_ids() == old(self).spare_ids() - 1,
            r matches Ok(id) ==> id@.len() > 0 && !old(self).has_row(id@)
                && final(self).rows() == old(self).rows().push((id@, doc)),
            r matches Ok(id) ==> final(self).has_row(id@) && final(self).doc_of(id@) == doc
                && final(self).agrees_except(*old(self), id@),
    {
        if self.next_id == u64::MAX {
            Err(LedgerError::IdsExhausted)
        } else {
            let ghost before = self.rows();
            let id = id_text(self.next_id);
            self.next_id = self.next_id + 1;
            assert(!old(self).has_row(id@)) by {
                if old(self).has_row(id@) {
                    let c = choose|c: int| 0 <= c < before.len() && (#[trigger] before[c]).0 == id@;
                    assert(before[c].0 != decimal_text(old(self).next_id));
                }
            }
            let r = id.clone();
            self.rows.push(Row { id, doc });
            assert(self.rows() =~= before.push((r@, doc)));
            assert forall|i: int, j: int|
                0 <= i < self.rows().len() && 0 <= j < self.rows().len() && i != j
                    implies (#[trigger] self.rows()[i]).0 != (#[trigger] self.rows()[j]).0 by {
                if i < before.len() && j < before.len() {
                    assert(before[i] == self.rows()[i] && before[j] == self.rows()[j]);
                } else if i == before.len() {
                    assert(self.rows()[j] == before[j]);
                } else {
                    assert(self.rows()[i] == before[i]);
                }
            }
            proof {
                let n = before.len() as int;
                self.lemma_doc_at(n);
                assert forall|k: Seq<char>| k != r@ implies (#[trigger] self.has_row(k) <==> old(self).has_row(k))
                    && (self.has_row(k) ==> self.doc_of(k) == old(self).doc_of(k)) by {
                    if self.has_row(k) {
                        let c = choose|c: int| 0 <= c < self.rows().len() && (#[trigger] self.rows()[c]).0 == k;
                        assert(c != n);
                        assert(self.rows()[c] == before[c]);
                        self.lemma_doc_at(c);
                        old(self).lemma_doc_at(c);
                    }
                    if old(self).has_row(k) {
                        let c = choose|c: int| 0 <= c < before.len() && (#[trigger] before[c]).0 == k;
                        assert(self.rows()[c] == before[c]);
                    }
                }
            }
            assert forall|i: int, k: u64| 0 <= i < self.rows().len() && k >= self.next_id implies (#[trigger] self.rows()[i]).0
                != #[trigger] decimal_text(k) by {
                if i < before.len() {
                    assert(self.rows()[i] == before[i]);
                }
            }
            Ok(r)
        }
    }

    /// Replaces the document at a position.
    pub fn replace(&mut self, i: usize, doc: json::JsonValue)
        requires
            old(self).wf(),
            i < old(self).rows().len(),
        ensures
            final(self).wf(),
            final(self).same_parties(*old(self)),
            final(self).rows() == old(self).rows().update(i as int, (old(self).rows()[i as int].0, doc)),
            final(self).spare_ids() == old(self).spare_ids(),
            final(self).has_row(old(self).rows()[i as int].0),
            final(self).doc_of(old(self).rows()[i as int].0) == doc,
            final(self).agrees_except(*old(self), old(self).rows()[i as int].0),
    {
        let ghost before = self.rows();
        let id = self.rows[i].id.clone();
        self.rows.set(i, Row { id, doc });
        assert(self.rows() =~= before.update(i as int, (before[i as int].0, doc)));
        assert forall|a: int, b: int|
            0 <= a < self.rows().len() && 0 <= b < self.rows().len() && a != b
                implies (#[trigger] self.rows()[a]).0 != (#[trigger] self.rows()[b]).0 by {
            assert(self.rows()[a].0 == before[a].0 && self.rows()[b].0 == before[b].0);
        }
        proof {
            let rid = before[i as int].0;
            self.lemma_doc_at(i as int);
            assert forall|k: Seq<char>| k != rid implies (#[trigger] self.has_row(k) <==> old(self).has_row(k))
                && (self.has_row(k) ==> self.doc_of(k) == old(self).doc_of(k)) by {
                if self.has_row(k) {
                    let c = choose|c: int| 0 <= c < self.rows().len() && (#[trigger] self.rows()[c]).0 == k;
                    assert(self.rows()[c] == before[c]);
                    self.lemma_doc_at(c);
                    old(self).lemma_doc_at(c);
                }
                if old(self).has_row(k) {
                    let c = choose|c: int| 0 <= c < before.len() && (#[trigger] before[c]).0 == k;
                    assert(self.rows()[c].0 == before[c].0);
                }
            }
        }
    }

    /// Deletes the document stored under `id`, if there is one.
    pub fn remove_by_id(&mut self, id: &String)
        requires
            old(self).wf(),
        ensures
            final(self).wf(),
            final(self).same_parties(*old(self)),
            !final(self).has_row(id@),
            !old(self).has_row(id@) ==> final(self).rows() == old(self).rows(),
            final(self).spare_ids() == old(self).spare_ids(),
            final(self).agrees_except(*old(self), id@),
            forall|k: Seq<char>| k != id@ ==> (old(self).has_row(k) <==> final(self).has_row(k)),
            forall|k: Seq<char>| k != id@ && old(self).has_row(k) ==> final(self).doc_of(k) == old(self).doc_of(k),
    {
        match self.find_by_id(id) {
            None => {},
            Some(i) => {
                let ghost before = self.rows();
                self.rows.remove(i);
                assert(self.rows() =~= before.remove(i as int));
                assert forall|a: int, b: int|
                    0 <= a < self.rows().len() && 0 <= b < self.rows().len() && a != b
                        implies (#[trigger] self.rows()[a]).0 != (#[trigger] self.rows()[b]).0 by {
                    let a0 = if a < i { a } else { a + 1 };
                    let b0 = if b < i { b } else { b + 1 };
                    assert(self.rows()[a] == before[a0] && self.rows()[b] == before[b0]);
                }
                assert forall|k: Seq<char>| k != id@ implies (old(self).has_row(k) <==> self.has_row(k)) by {
                    if old(self).has_row(k) {
                        let a0 = choose|a: int| 0 <= a < before.len() && (#[trigger] before[a]).0 == k;
                        let a = if a0 < i { a0 } else { a0 - 1 };
                        assert(self.rows()[a] == before[a0]);
                    }
                    if self.has_row(k) {
                        let a = choose|a: int| 0 <= a < self.rows().len() && (#[trigger] self.rows()[a]).0 == k;
                        let a0 = if a < i { a } else { a + 1 };
                        assert(self.rows()[a] == before[a0]);
                    }
                }
                assert forall|k: Seq<char>| k != id@ && old(self).has_row(k)
                    implies self.doc_of(k) == old(self).doc_of(k) by {
                    let a0 = choose|a: int| 0 <= a < before.len() && (#[trigger] before[a]).0 == k;
                    let a = if a0 < i { a0 } else { a0 - 1 };
                    assert(self.rows()[a] == before[a0]);
                    let c = choose|c: int| 0 <= c < self.rows().len() && (#[trigger] self.rows()[c]).0 == k;
                    let c0 = if c < i { c } else { c + 1 };
                    assert(self.rows()[c] == before[c0]);
                }
                assert(!self.has_row(id@)) by {
                    if self.has_row(id@) {
                        let c = choose|c: int| 0 <= c < self.rows().len() && (#[trigger] self.rows()[c]).0 == id@;
                        let c0 = if c < i { c } else { c + 1 };
                        assert(self.rows()[c] == before[c0]);
                    }
                }
            },
        }
    }
}

} // verus!
