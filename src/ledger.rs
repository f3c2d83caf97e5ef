use crate::aggregate::{aggregate, listing, total_spec, views, StatusFilter, Total};
use crate::calendar::{Date, Timestamp};
use crate::codec::{decode, decode_spec, encode_at, parse_doc, same_outcome, stamped};
use crate::model::{amount_ok, Account, LedgerError, MovView, Movimentation};
use crate::store::Storage;
use vstd::prelude::*;

verus! {

/// The document stored under `id` reads as `m`: the same partner id and the same
/// fields, but for the id and the update instant.
pub open spec fn holds(doc: json::JsonValue, id: Seq<char>, m: MovView) -> bool {
    match parse_doc(doc, id) {
        Some((x, t)) => {
            &&& t == m.transaction
            &&& x.uuid == id
            &&& x.account == m.account
            &&& x.contact == m.contact
            &&& x.description == m.description
            &&& x.value == m.value
            &&& x.deadline == m.deadline
            &&& x.paid_in == m.paid_in
            &&& x.created_at == m.created_at
        },
        None => false,
    }
}

/// Two stored movements, each naming the other as its partner.
pub open spec fn linked_pair(s: Storage, a: MovView, b: MovView) -> bool {
    &&& a.uuid.len() > 0
    &&& b.uuid.len() > 0
    &&& a.uuid != b.uuid
    &&& a.transaction == Some(b.uuid)
    &&& b.transaction == Some(a.uuid)
    &&& s.has_row(a.uuid)
    &&& s.has_row(b.uuid)
    &&& holds(s.doc_of(a.uuid), a.uuid, a)
    &&& holds(s.doc_of(b.uuid), b.uuid, b)
}

/// The partner id that the document stored under `id` names.
pub open spec fn partner_named(s: Storage, id: Seq<char>) -> Option<Seq<char>> {
    match parse_doc(s.doc_of(id), id) {
        Some((_, t)) => t,
        None => None,
    }
}

/// After removing `id`: neither it nor the partner that its document named is stored.
pub open spec fn removed(s: Storage, id: Seq<char>, after: Storage) -> bool {
    &&& !after.has_row(id)
    &&& (s.has_row(id) ==> (partner_named(s, id) matches Some(p) ==> !after.has_row(p)))
}

/// Removing either leg of a linked pair leaves neither leg stored.
pub proof fn lemma_remove_linked_leg(s: Storage, a: MovView, b: MovView, after: Storage, id: Seq<char>)
    requires
        linked_pair(s, a, b),
        id == a.uuid || id == b.uuid,
        removed(s, id, after),
    ensures
        !after.has_row(a.uuid),
        !after.has_row(b.uuid),
{
}

/// Every stored document, read with its partner, gives the movement at the same place.
pub open spec fn decoded_all(s: Storage, recs: Seq<MovView>) -> bool {
    recs.len() == s.rows().len() && forall|i: int| 0 <= i < recs.len()
        ==> decode_spec(s, s.rows()[i].1, s.rows()[i].0, true) == Ok::<MovView, LedgerError>(#[trigger] recs[i])
}

/// The document stored under `id` reads back as `m` encoded at `now`.
pub open spec fn stored_as(doc: json::JsonValue, id: Seq<char>, m: MovView, now: Timestamp) -> bool {
    parse_doc(doc, id) == Some((MovView { uuid: id, ..stamped(m, now) }, m.transaction))
}

/// Stores one movement encoded at `now`: a new one under a new id, one stored
/// before in place.
fn save_at(storage: &mut Storage, m: &Movimentation, now: Timestamp) -> (r: Result<String, LedgerError>)
    requires
        old(storage).wf(),
        m@.in_range(),
        now.wf(),
    ensures
        final(storage).wf(),
        final(storage).same_parties(*old(storage)),
        r is Err ==> *final(storage) == *old(storage),
        r matches Err(e) ==> e == LedgerError::NotFound || e == LedgerError::NoCounterparty || e == LedgerError::IdsExhausted,
        r == Err::<String, LedgerError>(LedgerError::NoCounterparty) <==> m.contact is None && m.transaction is None,
        r == Err::<String, LedgerError>(LedgerError::NotFound) <==> (m.contact is Some || m.transaction is Some)
            && m@.uuid.len() > 0 && !old(storage).has_row(m@.uuid),
        r == Err::<String, LedgerError>(LedgerError::IdsExhausted) <==> (m.contact is Some || m.transaction is Some)
            && m@.uuid.len() == 0 && old(storage).spare_ids() == 0,
        r matches Ok(id) ==> {
            &&& id@.len() > 0
            &&& final(storage).has_row(id@)
            &&& stored_as(final(storage).doc_of(id@), id@, m@, now)
            &&& holds(final(storage).doc_of(id@), id@, m@)
            &&& final(storage).agrees_except(*old(storage), id@)
            &&& (m@.uuid.len() > 0 ==> id@ == m@.uuid && final(storage).rows().len() == old(storage).rows().len()
                && final(storage).spare_ids() == old(storage).spare_ids())
            &&& (m@.uuid.len() == 0 ==> !old(storage).has_row(id@) && final(storage).rows().len() == old(storage).rows().len() + 1
                && final(storage).spare_ids() == old(storage).spare_ids() - 1)
        },
{
    if m.contact.is_none() && m.transaction.is_none() {
        return Err(LedgerError::NoCounterparty);
    }
    let pos = if m.uuid.as_str().is_empty() {
        None
    } else {
        match storage.find_by_id(&m.uuid) {
            None => return Err(LedgerError::NotFound),
            Some(i) => Some(i),
        }
    };
    match encode_at(m, now) {
        Err(e) => Err(e),
        Ok(doc) => {
            match pos {
                None => {
                    match storage.insert(doc) {
                        Err(e) => Err(e),
                        Ok(nid) => {
                            assert(parse_doc(doc, nid@) matches Some((x, t)) && x.account == m@.account);
                            Ok(nid)
                        },
                    }
                },
                Some(i) => {
                    storage.replace(i, doc);
                    assert(parse_doc(doc, m.uuid@) matches Some((x, t)) && x.account == m@.account);
                    Ok(m.uuid.clone())
                },
            }
        },
    }
}

/// The value, deadline and settled date that the second leg of a transfer takes from the first.
fn mirror(a: &Movimentation, b: &mut Movimentation)
    requires
        a@.in_range(),
        old(b)@.in_range(),
    ensures
        final(b)@ == (MovView { value: -a.value as i64, deadline: a.deadline, paid_in: a.paid_in, ..old(b)@ }),
        final(b)@.in_range(),
{
    let av = a.value;
    let a_abs = if av < 0 { -av } else { av };
    let b_abs = if b.value < 0 { -b.value } else { b.value };
    if a_abs != b_abs {
        b.value = av;
    }
    if a.deadline != b.deadline {
        b.deadline = a.deadline;
    }
    b.paid_in = a.paid_in;
    if a.value == b.value {
        if av >= 0 {
            b.value = 0 - av;
        } else {
            b.value = a_abs;
        }
    }
}

/// The effect of linking, on the legs and on the store.
pub open spec fn linked_after(s0: Storage, a0: MovView, b0: MovView, s: Storage, a: MovView, b: MovView) -> bool {
    &&& linked_pair(s, a, b)
    &&& a == (MovView { uuid: a.uuid, transaction: a.transaction, ..a0 })
    &&& b == (MovView { uuid: b.uuid, transaction: b.transaction, ..b0 })
    &&& (a0.uuid.len() > 0 ==> a.uuid == a0.uuid)
    &&& (b0.uuid.len() > 0 ==> b.uuid == b0.uuid)
    &&& s.agrees_except_two(s0, a.uuid, b.uuid)
    &&& s.rows().len() == s0.rows().len() + new_legs(a0, b0)
    &&& s.spare_ids() == s0.spare_ids() - new_legs(a0, b0)
    &&& s.same_parties(s0)
    &&& s.wf()
}

/// How many legs of a pair are not stored yet.
pub open spec fn new_legs(a: MovView, b: MovView) -> int {
    (if a.uuid.len() == 0 { 1int } else { 0int }) + (if b.uuid.len() == 0 { 1int } else { 0int })
}

/// The legs that a pair names are stored.
pub open spec fn legs_found(s: Storage, a: MovView, b: MovView) -> bool {
    (a.uuid.len() > 0 ==> s.has_row(a.uuid)) && (b.uuid.len() > 0 ==> s.has_row(b.uuid))
}

/// Stores a pair with at least one new leg: the first leg, then the second naming
/// the first, then the first again naming the second.
fn link_new(storage: &mut Storage, a: &mut Movimentation, b: &mut Movimentation, now: Timestamp) -> (r: Result<(), LedgerError>)
    requires
        old(storage).wf(),
        old(a)@.in_range(),
        old(b)@.in_range(),
        now.wf(),
        old(a)@.uuid.len() > 0 ==> old(a)@.uuid != old(b)@.uuid,
        old(a)@.uuid.len() == 0 || old(b)@.uuid.len() == 0,
        old(a).contact is Some || old(a).transaction is Some,
        legs_found(*old(storage), old(a)@, old(b)@),
        old(storage).spare_ids() >= new_legs(old(a)@, old(b)@),
    ensures
        r is Ok,
        linked_after(*old(storage), old(a)@, old(b)@, *final(storage), final(a)@, final(b)@),
{
    let ghost s0 = *storage;
    let a_id = match save_at(storage, a, now) {
        Err(e) => return Err(e),
        Ok(id) => id,
    };
    a.uuid = a_id;
    b.transaction = Some(a.uuid.clone());
    let ghost s1 = *storage;
    assert(b@.uuid.len() > 0 ==> s1.has_row(b@.uuid));
    let b_id = match save_at(storage, b, now) {
        Err(e) => return Err(e),
        Ok(id) => id,
    };
    assert(b_id@ != a.uuid@);
    b.uuid = b_id;
    a.transaction = Some(b.uuid.clone());
    let ghost s2 = *storage;
    assert(s2.has_row(b.uuid@));
    match save_at(storage, a, now) {
        Err(e) => return Err(e),
        Ok(id) => {
            assert(id@ == a.uuid@);
            assert(storage.agrees_except(s2, id@));
        },
    }
    assert(storage.has_row(b.uuid@) == s2.has_row(b.uuid@));
    assert(storage.agrees_except_two(s0, a.uuid@, b.uuid@));
    Ok(())
}

/// Stores a pair whose legs were both stored before: each names the other.
fn link_stored(storage: &mut Storage, a: &mut Movimentation, b: &mut Movimentation, now: Timestamp) -> (r: Result<(), LedgerError>)
    requires
        old(storage).wf(),
        old(a)@.in_range(),
        old(b)@.in_range(),
        now.wf(),
        old(a)@.uuid.len() > 0,
        old(b)@.uuid.len() > 0,
        old(a)@.uuid != old(b)@.uuid,
        legs_found(*old(storage), old(a)@, old(b)@),
    ensures
        r is Ok,
        linked_after(*old(storage), old(a)@, old(b)@, *final(storage), final(a)@, final(b)@),
{
    let ghost s0 = *storage;
    b.transaction = Some(a.uuid.clone());
    a.transaction = Some(b.uuid.clone());
    match save_at(storage, a, now) {
        Err(e) => return Err(e),
        Ok(_) => {},
    }
    let ghost s1 = *storage;
    assert(s1.has_row(a.uuid@));
    assert(s1.has_row(b.uuid@));
    match save_at(storage, b, now) {
        Err(e) => return Err(e),
        Ok(id) => {
            assert(id@ == b.uuid@);
            assert(storage.agrees_except(s1, id@));
        },
    }
    assert(storage.has_row(a.uuid@) == s1.has_row(a.uuid@));
    assert(storage.agrees_except_two(s0, a.uuid@, b.uuid@));
    Ok(())
}

/// What linking two drafts at some instant does: each error of the library's own
/// exactly where it is due, the store and the legs untouched on error, and on
/// success the mirrored legs, linked and stored, with the rest of the store kept.
pub open spec fn link_outcome(s0: Storage, a0: MovView, b0: MovView, s: Storage, a: MovView, b: MovView, r: Result<(), LedgerError>) -> bool {
    let missing = !legs_found(s0, a0, b0);
    let no_counterparty = !missing && new_legs(a0, b0) > 0 && a0.contact is None && a0.transaction is None;
    let exhausted = !missing && !no_counterparty && s0.spare_ids() < new_legs(a0, b0);
    &&& (r == Err::<(), LedgerError>(LedgerError::NotFound) <==> missing)
    &&& (r == Err::<(), LedgerError>(LedgerError::NoCounterparty) <==> no_counterparty)
    &&& (r == Err::<(), LedgerError>(LedgerError::IdsExhausted) <==> exhausted)
    &&& (r is Ok <==> !missing && !no_counterparty && !exhausted)
    &&& (r is Err ==> s == s0 && a == a0 && b == b0)
    &&& (r is Ok ==> linked_after(s0, a0, mirrored(a0, b0), s, a, b))
}

/// The second leg after it takes the value, deadline and settled date of the first.
pub open spec fn mirrored(a: MovView, b: MovView) -> MovView {
    MovView { value: -a.value as i64, deadline: a.deadline, paid_in: a.paid_in, ..b }
}

impl Movimentation {
    /// The movement stored under `uuid`, read with its partner.
    pub fn get_movimentation(storage: &mut Storage, uuid: String) -> (r: Result<Movimentation, LedgerError>)
        requires
            old(storage).wf(),
        ensures
            *final(storage) == *old(storage),
            !old(storage).has_row(uuid@) ==> r == Err::<Movimentation, LedgerError>(LedgerError::NotFound),
            old(storage).has_row(uuid@) ==> same_outcome(r, decode_spec(*old(storage), old(storage).doc_of(uuid@), uuid@, true)),
    {
        match storage.find_by_id(&uuid) {
            None => Err(LedgerError::NotFound),
            Some(i) => {
                let (_, doc) = storage.row_at(i);
                decode(storage, doc, &uuid, true)
            },
        }
    }

    /// Stores a movement that has no partner: a new one under a new id, one stored
    /// before in place, with the current instant as its update instant. Returns the id.
    pub fn store_movimentation(storage: &mut Storage, movimentation: Movimentation) -> (r: Result<String, LedgerError>)
        requires
            old(storage).wf(),
            movimentation@.in_range(),
        ensures
            final(storage).wf(),
            final(storage).same_parties(*old(storage)),
            r is Err ==> *final(storage) == *old(storage),
            r matches Err(e) ==> e == LedgerError::LinkedMovement || e == LedgerError::NotFound
                || e == LedgerError::NoCounterparty || e == LedgerError::ClockOutOfRange || e == LedgerError::IdsExhausted,
            r == Err::<String, LedgerError>(LedgerError::LinkedMovement) <==> movimentation.transaction is Some,
            r == Err::<String, LedgerError>(LedgerError::NoCounterparty) <==> movimentation.transaction is None
                && movimentation.contact is None,
            r == Err::<String, LedgerError>(LedgerError::NotFound) <==> movimentation.transaction is None
                && movimentation.contact is Some && movimentation@.uuid.len() > 0 && !old(storage).has_row(movimentation@.uuid),
            r == Err::<String, LedgerError>(LedgerError::IdsExhausted) <==> movimentation.transaction is None
                && movimentation.contact is Some && movimentation@.uuid.len() == 0 && old(storage).spare_ids() == 0,
            r == Err::<String, LedgerError>(LedgerError::ClockOutOfRange) ==> movimentation@.uuid.len() > 0
                && old(storage).has_row(movimentation@.uuid),
            movimentation.transaction is None && movimentation.contact is Some && movimentation@.uuid.len() == 0
                && old(storage).spare_ids() > 0 ==> r is Ok,
            r matches Ok(id) ==> {
                &&& final(storage).has_row(id@)
                &&& exists|now: Timestamp| now.wf() && #[trigger] stored_as(final(storage).doc_of(id@), id@, movimentation@, now)
                &&& final(storage).agrees_except(*old(storage), id@)
                &&& (movimentation@.uuid.len() > 0 ==> id@ == movimentation@.uuid
                    && final(storage).rows().len() == old(storage).rows().len())
                &&& (movimentation@.uuid.len() == 0 ==> !old(storage).has_row(id@)
                    && final(storage).rows().len() == old(storage).rows().len() + 1)
            },
    {
        if movimentation.transaction.is_some() {
            return Err(LedgerError::LinkedMovement);
        }
        if movimentation.contact.is_none() {
            return Err(LedgerError::NoCounterparty);
        }
        let now = if movimentation.uuid.as_str().is_empty() {
            // A new movement gets no update instant, so the clock is not read.
            movimentation.created_at
        } else {
            if storage.find_by_id(&movimentation.uuid).is_none() {
                return Err(LedgerError::NotFound);
            }
            match Timestamp::now() {
                Some(t) => t,
                None => return Err(LedgerError::ClockOutOfRange),
            }
        };
        save_at(storage, &movimentation, now)
    }

    /// Makes `other` the mirror of `movimentation` and stores both as a linked pair,
    /// with `now` as the update instant of legs stored before. `other` takes the
    /// deadline and the settled date of `movimentation`; where the magnitudes of the
    /// values differ it first takes the value too, and where the values are then
    /// equal its sign is turned, so that the pair nets to zero. Every check comes
    /// before the first write. A new pair is written in three steps (the first leg,
    /// the second naming the first, the first again naming the second); a pair
    /// stored before in two.
    pub fn store_transaction_at(storage: &mut Storage, movimentation: &mut Movimentation, other: &mut Movimentation, now: Timestamp) -> (r: Result<(), LedgerError>)
        requires
            old(storage).wf(),
            old(movimentation)@.in_range(),
            old(other)@.in_range(),
            now.wf(),
            old(movimentation)@.uuid.len() > 0 ==> old(movimentation)@.uuid != old(other)@.uuid,
        ensures
            link_outcome(*old(storage), old(movimentation)@, old(other)@, *final(storage), final(movimentation)@, final(other)@, r),
    {
        let a_new = movimentation.uuid.as_str().is_empty();
        let b_new = other.uuid.as_str().is_empty();
        if !a_new && storage.find_by_id(&movimentation.uuid).is_none() {
            return Err(LedgerError::NotFound);
        }
        if !b_new && storage.find_by_id(&other.uuid).is_none() {
            return Err(LedgerError::NotFound);
        }
        if (a_new || b_new) && movimentation.contact.is_none() && movimentation.transaction.is_none() {
            return Err(LedgerError::NoCounterparty);
        }
        let needed: u64 = if a_new && b_new { 2 } else if a_new || b_new { 1 } else { 0 };
        if !storage.has_spare_ids(needed) {
            return Err(LedgerError::IdsExhausted);
        }
        mirror(movimentation, other);
        if a_new || b_new {
            link_new(storage, movimentation, other, now)
        } else {
            link_stored(storage, movimentation, other, now)
        }
    }

    /// `store_transaction_at` at the current instant, which is read before any write.
    pub fn store_transaction(storage: &mut Storage, movimentation: &mut Movimentation, other: &mut Movimentation) -> (r: Result<(), LedgerError>)
        requires
            old(storage).wf(),
            old(movimentation)@.in_range(),
            old(other)@.in_range(),
            old(movimentation)@.uuid.len() > 0 ==> old(movimentation)@.uuid != old(other)@.uuid,
        ensures
            r == Err::<(), LedgerError>(LedgerError::ClockOutOfRange) ==> *final(storage) == *old(storage)
                && final(movimentation)@ == old(movimentation)@ && final(other)@ == old(other)@,
            r != Err::<(), LedgerError>(LedgerError::ClockOutOfRange) ==> link_outcome(*old(storage),
                old(movimentation)@, old(other)@, *final(storage), final(movimentation)@, final(other)@, r),
    {
        match Timestamp::now() {
            None => Err(LedgerError::ClockOutOfRange),
            Some(now) => Movimentation::store_transaction_at(storage, movimentation, other, now),
        }
    }

    /// Deletes the movement stored under `uuid` and, first, the partner that it names.
    /// Nothing to delete is no error.
    pub fn remove_movimentation(storage: &mut Storage, uuid: String) -> (r: Result<(), LedgerError>)
        requires
            old(storage).wf(),
        ensures
            final(storage).wf(),
            final(storage).same_parties(*old(storage)),
            r is Err <==> old(storage).has_row(uuid@) && decode_spec(*old(storage), old(storage).doc_of(uuid@), uuid@, true) is Err,
            r matches Err(e) ==> decode_spec(*old(storage), old(storage).doc_of(uuid@), uuid@, true) == Err::<MovView, LedgerError>(e)
                && final(storage).rows() == old(storage).rows(),
            r is Ok ==> removed(*old(storage), uuid@, *final(storage)),
            !old(storage).has_row(uuid@) ==> r is Ok && final(storage).rows() == old(storage).rows(),
            r is Ok ==> final(storage).agrees_except_two(*old(storage), uuid@, match partner_named(*old(storage), uuid@) {
                Some(p) => p,
                None => uuid@,
            }),
    {
        match storage.find_by_id(&uuid) {
            None => {
                storage.remove_by_id(&uuid);
                Ok(())
            },
            Some(i) => {
                let (_, doc) = storage.row_at(i);
                match decode(storage, doc, &uuid, true) {
                    Err(e) => Err(e),
                    Ok(m) => {
                        let ghost s0 = *storage;
                        match &m.transaction {
                            Some(p) => storage.remove_by_id(p),
                            None => {},
                        }
                        let ghost s1 = *storage;
                        storage.remove_by_id(&uuid);
                        proof {
                            let q = match partner_named(s0, uuid@) {
                                Some(p) => p,
                                None => uuid@,
                            };
                            assert forall|k: Seq<char>| k != uuid@ && k != q implies (#[trigger] storage.has_row(k) <==> s0.has_row(k))
                                && (storage.has_row(k) ==> storage.doc_of(k) == s0.doc_of(k)) by {
                                assert(storage.has_row(k) == s1.has_row(k));
                                assert(s1.has_row(k) == s0.has_row(k));
                            }
                        }
                        Ok(())
                    },
                }
            },
        }
    }

    /// Reads every stored movement, with its partner, and aggregates those of `account`
    /// over `[from, to]`: the listing and the six totals of `aggregate`.
    pub fn get_movimentations(storage: &mut Storage, account: Account, from: Date, to: Date, status: StatusFilter) -> (r: Result<(Vec<Movimentation>, Vec<Total>), LedgerError>)
        requires
            old(storage).wf(),
            amount_ok(account.open_balance),
            from.wf(),
            to.wf(),
        ensures
            *final(storage) == *old(storage),
            r is Ok <==> forall|i: int| 0 <= i < old(storage).rows().len()
                ==> (#[trigger] decode_spec(*old(storage), old(storage).rows()[i].1, old(storage).rows()[i].0, true)) is Ok,
            r matches Err(e) ==> exists|i: int| 0 <= i < old(storage).rows().len()
                && (#[trigger] decode_spec(*old(storage), old(storage).rows()[i].1, old(storage).rows()[i].0, true))
                == Err::<MovView, LedgerError>(e),
            r matches Ok((list, totals)) ==> exists|recs: Seq<MovView>| {
                &&& #[trigger] decoded_all(*old(storage), recs)
                &&& views(list@) == listing(recs, account.uuid@, from, to, status)
                &&& totals@.len() == 6
                &&& totals@[4].label@ == "Previous balance"@
                &&& totals@[5].label@ == "Current balance"@
                &&& forall|k: int| 0 <= k < 6 ==> (#[trigger] totals@[k]).value == total_spec(recs, account.uuid@, account.open_balance, from, to, k)
            },
    {
        let mut records: Vec<Movimentation> = Vec::new();
        let n = storage.row_count();
        let mut i: usize = 0;
        while i < n
            invariant
                storage.wf(),
                n == storage.rows().len(),
                0 <= i <= n,
                records@.len() == i,
                forall|q: int| 0 <= q < i ==> (#[trigger] records@[q])@.in_range(),
                forall|q: int| 0 <= q < i ==> decode_spec(*storage, storage.rows()[q].1, storage.rows()[q].0, true)
                    == Ok::<MovView, LedgerError>((#[trigger] records@[q])@),
            decreases n - i,
        {
            let (id, doc) = storage.row_at(i);
            match decode(storage, doc, id, true) {
                Err(e) => {
                    assert(decode_spec(*storage, storage.rows()[i as int].1, storage.rows()[i as int].0, true) == Err::<MovView, LedgerError>(e));
                    return Err(e);
                },
                Ok(m) => {
                    records.push(m);
                },
            }
            i = i + 1;
        }
        let (list, totals) = aggregate(&records, &account, from, to, status);
        assert(decoded_all(*storage, views(records@)));
        assert forall|q: int| 0 <= q < storage.rows().len() implies (#[trigger] decode_spec(*storage, storage.rows()[q].1, storage.rows()[q].0, true)) is Ok by {
            assert(decode_spec(*storage, storage.rows()[q].1, storage.rows()[q].0, true) == Ok::<MovView, LedgerError>(records@[q]@));
        }
        Ok((list, totals))
    }
}

} // verus!
