use crate::calendar::{date_of, timestamp_of, Date, Timestamp};
use crate::document::{
    int_from_parts, int_value, is_object, new_object, number_entries, number_entry, object_check,
    put_int, put_text, text_entries, text_entry,
};
use crate::model::{amount_ok, opt_view, LedgerError, MovView, Movimentation, MAX_AMOUNT};
use crate::store::Storage;
use vstd::prelude::*;

verus! {

/// The fields that a document holds, and the partner id it names, where every
/// required field is there and reads; references are not resolved.
pub open spec fn parse_doc(doc: json::JsonValue, uuid: Seq<char>) -> Option<(MovView, Option<Seq<char>>)> {
    let t = text_entries(doc);
    let n = number_entries(doc);
    if is_object(doc)
        && t.contains_key("description"@)
        && n.contains_key("value"@)
        && int_value(n["value"@]) is Some
        && amount_ok(int_value(n["value"@]).unwrap())
        && t.contains_key("deadline"@)
        && date_of(t["deadline"@]) is Some
        && t.contains_key("account"@)
        && t.contains_key("created_at"@)
        && timestamp_of(t["created_at"@]) is Some
        && (t.contains_key("contact"@) || t.contains_key("transaction"@))
        && (t.contains_key("paid_in"@) ==> date_of(t["paid_in"@]) is Some)
        && (t.contains_key("updated_at"@) ==> timestamp_of(t["updated_at"@]) is Some)
    {
        Some((MovView {
            uuid,
            account: t["account"@],
            contact: if t.contains_key("contact"@) { Some(t["contact"@]) } else { None },
            description: t["description"@],
            value: int_value(n["value"@]).unwrap(),
            deadline: date_of(t["deadline"@]).unwrap(),
            paid_in: if t.contains_key("paid_in"@) { date_of(t["paid_in"@]) } else { None },
            created_at: timestamp_of(t["created_at"@]).unwrap(),
            updated_at: if t.contains_key("updated_at"@) { timestamp_of(t["updated_at"@]) } else { None },
            transaction: None,
        }, if t.contains_key("transaction"@) { Some(t["transaction"@]) } else { None }))
    } else {
        None
    }
}

/// A document read as a movement, its account and contact resolved in the store,
/// without following the link to a partner.
pub open spec fn decode_flat(s: Storage, doc: json::JsonValue, uuid: Seq<char>) -> Result<MovView, LedgerError> {
    match parse_doc(doc, uuid) {
        None => Err(LedgerError::Malformed),
        Some((m, _)) => if !s.has_account(m.account) {
            Err(LedgerError::UnknownAccount)
        } else if m.contact matches Some(c) && !s.has_contact(c) {
            Err(LedgerError::UnknownContact)
        } else {
            Ok(m)
        },
    }
}

/// A document read as a movement. Where `linked` holds and the document names a
/// partner, the partner is read too, one step deep, and the movement keeps its id.
pub open spec fn decode_spec(s: Storage, doc: json::JsonValue, uuid: Seq<char>, linked: bool) -> Result<MovView, LedgerError> {
    match decode_flat(s, doc, uuid) {
        Err(e) => Err(e),
        Ok(m) => match parse_doc(doc, uuid).unwrap().1 {
            Some(p) => if !linked {
                Ok(m)
            } else if !s.has_row(p) {
                Err(LedgerError::MissingPartner)
            } else {
                match decode_flat(s, s.doc_of(p), p) {
                    Err(e) => Err(e),
                    Ok(_) => Ok(MovView { transaction: Some(p), ..m }),
                }
            },
            None => Ok(m),
        },
    }
}

pub open spec fn same_outcome(r: Result<Movimentation, LedgerError>, o: Result<MovView, LedgerError>) -> bool {
    match r {
        Ok(m) => o == Ok::<MovView, LedgerError>(m@),
        Err(e) => o == Err::<MovView, LedgerError>(e),
    }
}

fn read_fields(doc: &json::JsonValue, uuid: &String) -> (r: Option<(Movimentation, Option<String>)>)
    ensures
        match r {
            Some((m, p)) => parse_doc(*doc, uuid@) == Some((m@, opt_view(p))) && m@.in_range(),
            None => parse_doc(*doc, uuid@) is None,
        },
{
    if !object_check(doc) {
        return None;
    }
    let description = match text_entry(doc, "description") {
        Some(s) => s,
        None => return None,
    };
    let value = match number_entry(doc, "value") {
        Some(p) => match int_from_parts(p) {
            Some(v) => v,
            None => return None,
        },
        None => return None,
    };
    if value < -MAX_AMOUNT || value > MAX_AMOUNT {
        return None;
    }
    let deadline = match text_entry(doc, "deadline") {
        Some(s) => match Date::parse(s.as_str()) {
            Some(d) => d,
            None => return None,
        },
        None => return None,
    };
    let account = match text_entry(doc, "account") {
        Some(s) => s,
        None => return None,
    };
    let created_at = match text_entry(doc, "created_at") {
        Some(s) => match Timestamp::parse(s.as_str()) {
            Some(t) => t,
            None => return None,
        },
        None => return None,
    };
    let contact = text_entry(doc, "contact");
    let transaction = text_entry(doc, "transaction");
    if contact.is_none() && transaction.is_none() {
        return None;
    }
    let paid_in = match text_entry(doc, "paid_in") {
        Some(s) => match Date::parse(s.as_str()) {
            Some(d) => Some(d),
            None => return None,
        },
        None => None,
    };
    let updated_at = match text_entry(doc, "updated_at") {
        Some(s) => match Timestamp::parse(s.as_str()) {
            Some(t) => Some(t),
            None => return None,
        },
        None => None,
    };
    let m = Movimentation {
        uuid: uuid.clone(),
        account,
        contact,
        description,
        value,
        deadline,
        paid_in,
        created_at,
        updated_at,
        transaction: None,
    };
    Some((m, transaction))
}

fn decode_resolved(storage: &Storage, doc: &json::JsonValue, uuid: &String) -> (r: Result<(Movimentation, Option<String>), LedgerError>)
    ensures
        match r {
            Ok((m, p)) => decode_flat(*storage, *doc, uuid@) == Ok::<MovView, LedgerError>(m@) && m@.in_range()
                && parse_doc(*doc, uuid@).unwrap().1 == opt_view(p),
            Err(e) => decode_flat(*storage, *doc, uuid@) == Err::<MovView, LedgerError>(e),
        },
{
    match read_fields(doc, uuid) {
        None => Err(LedgerError::Malformed),
        Some((m, p)) => {
            if storage.account(&m.account).is_none() {
                return Err(LedgerError::UnknownAccount);
            }
            match &m.contact {
                Some(c) => {
                    if !storage.contact_exists(c) {
                        return Err(LedgerError::UnknownContact);
                    }
                },
                None => {},
            }
            Ok((m, p))
        },
    }
}

/// Reads the document stored under `uuid` as a movement. With `linked`, a partner
/// that the document names must be stored and read too, and the movement keeps its id.
pub fn decode(storage: &Storage, doc: &json::JsonValue, uuid: &String, linked: bool) -> (r: Result<Movimentation, LedgerError>)
    requires
        storage.wf(),
    ensures
        same_outcome(r, decode_spec(*storage, *doc, uuid@, linked)),
        r matches Ok(m) ==> m@.in_range(),
{
    let (mut m, p) = match decode_resolved(storage, doc, uuid) {
        Err(e) => return Err(e),
        Ok(x) => x,
    };
    if linked {
        match p {
            Some(pid) => {
                match storage.find_by_id(&pid) {
                    None => return Err(LedgerError::MissingPartner),
                    Some(i) => {
                        let (_, pdoc) = storage.row_at(i);
                        match decode_resolved(storage, pdoc, &pid) {
                            Err(e) => return Err(e),
                            Ok(_) => {
                                m.transaction = Some(pid);
                            },
                        }
                    },
                }
            },
            None => {},
        }
    }
    Ok(m)
}

proof fn lemma_keys_distinct()
    ensures
        "account"@.len() == 7 && "account"@[0] == 'a',
        "description"@.len() == 11 && "description"@[0] == 'd',
        "value"@.len() == 5,
        "deadline"@.len() == 8,
        "created_at"@.len() == 10 && "created_at"@[0] == 'c',
        "paid_in"@.len() == 7 && "paid_in"@[0] == 'p',
        "updated_at"@.len() == 10 && "updated_at"@[0] == 'u',
        "contact"@.len() == 7 && "contact"@[0] == 'c',
        "transaction"@.len() == 11 && "transaction"@[0] == 't',
{
    reveal_strlit("account");
    reveal_strlit("description");
    reveal_strlit("value");
    reveal_strlit("deadline");
    reveal_strlit("created_at");
    reveal_strlit("paid_in");
    reveal_strlit("updated_at");
    reveal_strlit("contact");
    reveal_strlit("transaction");
}

/// What a movement reads back as once encoded at `now`: `updated_at` is `now` where
/// the movement was stored before and absent where it is new; the partner id is
/// carried beside it.
pub open spec fn stamped(m: MovView, now: Timestamp) -> MovView {
    MovView { updated_at: if m.uuid.len() > 0 { Some(now) } else { None }, transaction: None, ..m }
}

/// `doc` is what encoding `m` gives, at some instant in range.
pub open spec fn encodes(m: MovView, doc: json::JsonValue) -> bool {
    exists|now: Timestamp| now.wf() && parse_doc(doc, m.uuid) == Some((#[trigger] stamped(m, now), m.transaction))
}

/// The keys of the texts in the document for `m`: the required fields, then each
/// optional one that is present; `updated_at` where the movement was stored before.
pub open spec fn text_keys(m: MovView) -> Set<Seq<char>> {
    set!["account"@, "description"@, "deadline"@, "created_at"@]
        .union(if m.paid_in is Some { set!["paid_in"@] } else { Set::empty() })
        .union(if m.uuid.len() > 0 { set!["updated_at"@] } else { Set::empty() })
        .union(if m.contact is Some { set!["contact"@] } else { Set::empty() })
        .union(if m.transaction is Some { set!["transaction"@] } else { Set::empty() })
}

/// The keys of the numbers in the document for a movement: its value alone.
pub open spec fn number_keys() -> Set<Seq<char>> {
    set!["value"@]
}

/// The document for a movement, with `now` as its update instant where it was stored before.
pub fn encode_at(m: &Movimentation, now: Timestamp) -> (r: Result<json::JsonValue, LedgerError>)
    requires
        m@.in_range(),
        now.wf(),
    ensures
        r is Err <==> m.contact is None && m.transaction is None,
        r is Err ==> r == Err::<json::JsonValue, LedgerError>(LedgerError::NoCounterparty),
        r matches Ok(doc) ==> parse_doc(doc, m.uuid@) == Some((stamped(m@, now), m@.transaction)),
        r matches Ok(doc) ==> text_entries(doc).dom() == text_keys(m@) && number_entries(doc).dom() == number_keys(),
{
    if m.contact.is_none() && m.transaction.is_none() {
        return Err(LedgerError::NoCounterparty);
    }
    proof {
        lemma_keys_distinct();
    }
    let mut doc = new_object();
    put_text(&mut doc, "account", m.account.as_str());
    put_text(&mut doc, "description", m.description.as_str());
    put_int(&mut doc, "value", m.value);
    let deadline = m.deadline.format();
    put_text(&mut doc, "deadline", deadline.as_str());
    let created_at = m.created_at.format();
    put_text(&mut doc, "created_at", created_at.as_str());
    match m.paid_in {
        Some(d) => {
            let text = d.format();
            put_text(&mut doc, "paid_in", text.as_str());
        },
        None => {},
    }
    if !m.uuid.as_str().is_empty() {
        let text = now.format();
        put_text(&mut doc, "updated_at", text.as_str());
    }
    match &m.contact {
        Some(c) => put_text(&mut doc, "contact", c.as_str()),
        None => {},
    }
    match &m.transaction {
        Some(t) => put_text(&mut doc, "transaction", t.as_str()),
        None => {},
    }
    assert(text_entries(doc).dom() =~= text_keys(m@));
    assert(number_entries(doc).dom() =~= number_keys());
    Ok(doc)
}

/// Round trip: the document that encoding gives reads back as the movement, every
/// field kept but `updated_at`, which holds the instant of encoding where the
/// movement was stored before; the partner link comes back where the partner is
/// stored and reads.
pub proof fn lemma_round_trip(s: Storage, m: MovView, now: Timestamp, doc: json::JsonValue)
    requires
        m.wf(),
        now.wf(),
        parse_doc(doc, m.uuid) == Some((stamped(m, now), m.transaction)),
        s.has_account(m.account),
        m.contact matches Some(c) ==> s.has_contact(c),
    ensures
        decode_spec(s, doc, m.uuid, false) == Ok::<MovView, LedgerError>(stamped(m, now)),
        m.transaction is None ==> decode_spec(s, doc, m.uuid, true) == Ok::<MovView, LedgerError>(stamped(m, now)),
        m.transaction matches Some(p) ==> s.has_row(p) && decode_flat(s, s.doc_of(p), p) is Ok
            ==> decode_spec(s, doc, m.uuid, true) == Ok::<MovView, LedgerError>(MovView { transaction: m.transaction, ..stamped(m, now) }),
{
}

impl Movimentation {
    /// The movement as a document to store: its id, whether it is new (its id is
    /// empty), and the document. A movement stored before gets the current instant
    /// as `updated_at`.
    pub fn to_save(self) -> (r: Result<(String, bool, json::JsonValue), LedgerError>)
        requires
            self@.in_range(),
        ensures
            r is Err ==> r == Err::<(String, bool, json::JsonValue), LedgerError>(LedgerError::NoCounterparty)
                || (self@.uuid.len() > 0 && r == Err::<(String, bool, json::JsonValue), LedgerError>(LedgerError::ClockOutOfRange)),
            r == Err::<(String, bool, json::JsonValue), LedgerError>(LedgerError::NoCounterparty)
                <==> self.contact is None && self.transaction is None,
            r matches Ok((id, is_new, doc)) ==> id@ == self@.uuid && is_new == (self@.uuid.len() == 0)
                && encodes(self@, doc),
    {
        let is_new = self.uuid.as_str().is_empty();
        let now = if is_new {
            // A new movement gets no update instant, so the clock is not read.
            self.created_at
        } else {
            if self.contact.is_none() && self.transaction.is_none() {
                return Err(LedgerError::NoCounterparty);
            }
            match Timestamp::now() {
                Some(t) => t,
                None => return Err(LedgerError::ClockOutOfRange),
            }
        };
        match encode_at(&self, now) {
            Err(e) => Err(e),
            Ok(doc) => {
                assert(now.wf() && parse_doc(doc, self@.uuid) == Some((stamped(self@, now), self@.transaction)));
                Ok((self.uuid, is_new, doc))
            },
        }
    }
}

} // verus!
