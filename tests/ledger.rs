use blitz_money::{
    aggregate, decode, encode_at, Account, Accounts, AccountsItem, Contact, Date, LedgerError, Movimentation,
    StatusFilter, Storage, Timestamp,
};

fn date(s: &str) -> Date {
    Date::parse(s).unwrap()
}

fn storage() -> Storage {
    Storage::new(
        vec![
            Account { uuid: "acc".to_string(), name: "Bank".to_string(), open_balance: 1000 },
            Account { uuid: "other".to_string(), name: "Wallet".to_string(), open_balance: 0 },
        ],
        vec![Contact { uuid: "joe".to_string(), name: "Joe".to_string() }],
    )
}

fn mov(account: &str, value: i64, deadline: &str, paid_in: Option<&str>) -> Movimentation {
    Movimentation {
        uuid: String::new(),
        account: account.to_string(),
        contact: Some("joe".to_string()),
        description: "entry".to_string(),
        value,
        deadline: date(deadline),
        paid_in: paid_in.map(date),
        created_at: Timestamp::from_secs(1_700_000_000).unwrap(),
        updated_at: None,
        transaction: None,
    }
}

fn account() -> Account {
    Account { uuid: "acc".to_string(), name: "Bank".to_string(), open_balance: 1000 }
}

fn values(list: &[Movimentation]) -> Vec<i64> {
    list.iter().map(|m| m.value).collect()
}

fn february(storage: &mut Storage, status: StatusFilter) -> (Vec<Movimentation>, Vec<i128>) {
    let (list, totals) =
        Movimentation::get_movimentations(storage, account(), date("2024-02-01"), date("2024-02-28"), status).unwrap();
    (list, totals.iter().map(|t| t.value).collect())
}

#[test]
fn date_parse_and_format() {
    assert_eq!(Date::parse("2024-02-29"), Some(Date { year: 2024, month: 2, day: 29 }));
    assert_eq!(Date::parse("2023-02-29"), None);
    assert_eq!(Date::parse("not a date"), None);
    assert_eq!(date("2024-01-05").format(), "2024-01-05");
    assert_eq!(date("0999-12-31").format(), "0999-12-31");
    assert_eq!(date("2024-01-05").ordinal(), 20240105);
}

#[test]
fn timestamp_round_trip() {
    let t = Timestamp::from_secs(1_700_000_000).unwrap();
    let text = t.format();
    assert_eq!(text, "2023-11-14T22:13:20+00:00");
    assert_eq!(Timestamp::parse(&text), Some(t));
    assert_eq!(Timestamp::parse("2023-11-14T22:13:20+00:00"), Some(t));
    assert_eq!(Timestamp::parse("yesterday"), None);
    assert_eq!(Timestamp::from_secs(-1), None);
    assert!(Timestamp::now().is_some());
}

#[test]
fn paid_in_formatted() {
    assert_eq!(mov("acc", 1, "2024-01-05", None).paid_in_formmated(), "(payable)");
    assert_eq!(mov("acc", 1, "2024-01-05", Some("2024-01-07")).paid_in_formmated(), "2024-01-07");
}

#[test]
fn encode_writes_flat_document() {
    let m = mov("acc", -250, "2024-01-05", Some("2024-01-06"));
    let now = Timestamp::from_secs(1_700_000_100).unwrap();
    let doc = encode_at(&m, now).unwrap();
    assert_eq!(doc["account"].as_str(), Some("acc"));
    assert_eq!(doc["contact"].as_str(), Some("joe"));
    assert_eq!(doc["description"].as_str(), Some("entry"));
    assert_eq!(doc["value"].as_i64(), Some(-250));
    assert_eq!(doc["deadline"].as_str(), Some("2024-01-05"));
    assert_eq!(doc["paid_in"].as_str(), Some("2024-01-06"));
    assert!(doc["updated_at"].is_null());
    assert!(doc["transaction"].is_null());
    let (id, is_new, _) = m.to_save().unwrap();
    assert_eq!(id, "");
    assert!(is_new);
}

#[test]
fn encode_refuses_movement_without_counterparty() {
    let mut m = mov("acc", 10, "2024-01-05", None);
    m.contact = None;
    let now = Timestamp::from_secs(1_700_000_100).unwrap();
    assert_eq!(encode_at(&m, now).err(), Some(LedgerError::NoCounterparty));
}

#[test]
fn round_trip_through_store() {
    let mut s = storage();
    let m = mov("acc", -250, "2024-01-05", Some("2024-01-06"));
    let id = Movimentation::store_movimentation(&mut s, m.clone()).unwrap();
    assert!(!id.is_empty());
    let back = Movimentation::get_movimentation(&mut s, id.clone()).unwrap();
    assert_eq!(back.uuid, id);
    assert_eq!(back.account, m.account);
    assert_eq!(back.contact, m.contact);
    assert_eq!(back.description, m.description);
    assert_eq!(back.value, m.value);
    assert_eq!(back.deadline, m.deadline);
    assert_eq!(back.paid_in, m.paid_in);
    assert_eq!(back.created_at, m.created_at);
    assert_eq!(back.updated_at, None);
    assert_eq!(back.transaction, None);

    let mut changed = back.clone();
    changed.description = "changed".to_string();
    let again = Movimentation::store_movimentation(&mut s, changed).unwrap();
    assert_eq!(again, id);
    let back = Movimentation::get_movimentation(&mut s, id).unwrap();
    assert_eq!(back.description, "changed");
    assert!(back.updated_at.is_some());
    assert_eq!(s.row_count(), 1);
}

#[test]
fn get_unknown_is_not_found() {
    let mut s = storage();
    assert_eq!(Movimentation::get_movimentation(&mut s, "nope".to_string()).err(), Some(LedgerError::NotFound));
}

#[test]
fn store_refuses_linked_movement() {
    let mut s = storage();
    let mut m = mov("acc", 5, "2024-01-05", None);
    m.transaction = Some("x".to_string());
    assert_eq!(Movimentation::store_movimentation(&mut s, m).err(), Some(LedgerError::LinkedMovement));
    assert_eq!(s.row_count(), 0);
}

#[test]
fn store_refuses_movement_without_counterparty() {
    let mut s = storage();
    let mut m = mov("acc", 5, "2024-01-05", None);
    m.contact = None;
    assert_eq!(Movimentation::store_movimentation(&mut s, m).err(), Some(LedgerError::NoCounterparty));
}

#[test]
fn update_of_unstored_id_is_not_found() {
    let mut s = storage();
    let mut m = mov("acc", 5, "2024-01-05", None);
    m.uuid = "ghost".to_string();
    assert_eq!(Movimentation::store_movimentation(&mut s, m).err(), Some(LedgerError::NotFound));
}

#[test]
fn malformed_documents_are_refused() {
    let mut s = storage();
    let mut doc = json::JsonValue::new_object();
    doc.insert("description", "half").unwrap();
    let id = s.insert(doc).unwrap();
    assert_eq!(Movimentation::get_movimentation(&mut s, id).err(), Some(LedgerError::Malformed));

    let mut doc = json::JsonValue::new_object();
    doc.insert("description", "bad date").unwrap();
    doc.insert("value", 5).unwrap();
    doc.insert("deadline", "2024-13-01").unwrap();
    doc.insert("account", "acc").unwrap();
    doc.insert("contact", "joe").unwrap();
    doc.insert("created_at", "2023-11-14T22:13:20+00:00").unwrap();
    let id = s.insert(doc).unwrap();
    assert_eq!(Movimentation::get_movimentation(&mut s, id).err(), Some(LedgerError::Malformed));
}

#[test]
fn unresolved_references_are_refused() {
    let mut s = storage();
    let id = Movimentation::store_movimentation(&mut s, mov("nobody", 5, "2024-01-05", None)).unwrap();
    assert_eq!(Movimentation::get_movimentation(&mut s, id).err(), Some(LedgerError::UnknownAccount));

    let mut s = storage();
    let mut m = mov("acc", 5, "2024-01-05", None);
    m.contact = Some("stranger".to_string());
    let id = Movimentation::store_movimentation(&mut s, m).unwrap();
    assert_eq!(Movimentation::get_movimentation(&mut s, id).err(), Some(LedgerError::UnknownContact));
}

#[test]
fn missing_partner_is_refused() {
    let mut s = storage();
    let mut doc = encode_at(&mov("acc", 5, "2024-01-05", None), Timestamp::from_secs(0).unwrap()).unwrap();
    doc.insert("transaction", "gone").unwrap();
    let id = s.insert(doc).unwrap();
    assert_eq!(Movimentation::get_movimentation(&mut s, id.clone()).err(), Some(LedgerError::MissingPartner));
    assert_eq!(Movimentation::remove_movimentation(&mut s, id).err(), Some(LedgerError::MissingPartner));
    assert_eq!(s.row_count(), 1);
}

#[test]
fn scenario_previous_balance() {
    let mut s = storage();
    Movimentation::store_movimentation(&mut s, mov("acc", -200, "2024-01-05", Some("2024-01-05"))).unwrap();
    let (list, totals) = february(&mut s, StatusFilter::ALL);
    assert_eq!(totals[4], 800);
    assert_eq!(totals[5], 800);
    assert!(list.is_empty());
}

#[test]
fn scenario_settled_in_period() {
    let mut s = storage();
    Movimentation::store_movimentation(&mut s, mov("acc", -200, "2024-01-05", Some("2024-01-05"))).unwrap();
    Movimentation::store_movimentation(&mut s, mov("acc", 300, "2024-02-10", Some("2024-02-10"))).unwrap();
    let (list, totals) = february(&mut s, StatusFilter::PAID);
    assert_eq!(values(&list), vec![300]);
    assert_eq!(totals[3], 300);
    assert_eq!(totals[4], 800);
    assert_eq!(totals[5], 1100);
    let (list, _) = february(&mut s, StatusFilter::ALL);
    assert_eq!(values(&list), vec![300]);
    let (list, _) = february(&mut s, StatusFilter::FORPAY);
    assert!(list.is_empty());
}

#[test]
fn scenario_pending_expense() {
    let mut s = storage();
    Movimentation::store_movimentation(&mut s, mov("acc", -200, "2024-01-05", Some("2024-01-05"))).unwrap();
    Movimentation::store_movimentation(&mut s, mov("acc", 300, "2024-02-10", Some("2024-02-10"))).unwrap();
    Movimentation::store_movimentation(&mut s, mov("acc", -50, "2024-02-15", None)).unwrap();
    let (list, totals) = february(&mut s, StatusFilter::FORPAY);
    assert_eq!(values(&list), vec![-50]);
    assert_eq!(totals, vec![-50, 0, 0, 300, 800, 1100]);
    let (list, _) = february(&mut s, StatusFilter::ALL);
    assert_eq!(values(&list), vec![300, -50]);
    let (list, _) = february(&mut s, StatusFilter::PAID);
    assert_eq!(values(&list), vec![300]);
}

#[test]
fn records_after_period_and_other_accounts_count_nowhere() {
    let mut s = storage();
    Movimentation::store_movimentation(&mut s, mov("acc", 70, "2024-03-01", Some("2024-03-01"))).unwrap();
    Movimentation::store_movimentation(&mut s, mov("other", 90, "2024-02-10", Some("2024-02-10"))).unwrap();
    Movimentation::store_movimentation(&mut s, mov("acc", -30, "2023-12-31", None)).unwrap();
    let (list, totals) = february(&mut s, StatusFilter::ALL);
    assert!(list.is_empty());
    assert_eq!(totals, vec![0, 0, 0, 0, 970, 970]);
}

#[test]
fn listing_is_sorted_and_stable() {
    let records = vec![
        mov("acc", 1, "2024-02-20", None),
        mov("acc", 2, "2024-02-03", Some("2024-02-03")),
        mov("acc", 3, "2024-02-20", Some("2024-02-21")),
        mov("acc", 4, "2024-02-01", None),
        mov("acc", 5, "2024-02-03", None),
    ];
    let (list, totals) = aggregate(&records, &account(), date("2024-02-01"), date("2024-02-28"), StatusFilter::ALL);
    assert_eq!(values(&list), vec![4, 2, 5, 1, 3]);
    let t: Vec<i128> = totals.iter().map(|t| t.value).collect();
    assert_eq!(t, vec![0, 10, 0, 5, 1000, 1005]);
    assert_eq!(totals[0].label, "Expenses(payable)");
    assert_eq!(totals[5].label, "Current balance");
}

#[test]
fn scenario_linking_mirrors_second_leg() {
    let mut s = storage();
    let mut a = mov("acc", 100, "2024-03-01", None);
    let mut b = mov("other", 100, "2024-03-05", None);
    Movimentation::store_transaction(&mut s, &mut a, &mut b).unwrap();
    assert_eq!(b.deadline, date("2024-03-01"));
    assert_eq!(b.value, -100);
    assert_eq!(a.value, 100);
    assert!(!a.uuid.is_empty() && !b.uuid.is_empty());
    assert_ne!(a.uuid, b.uuid);
    assert_eq!(a.transaction, Some(b.uuid.clone()));
    assert_eq!(b.transaction, Some(a.uuid.clone()));
    let sa = Movimentation::get_movimentation(&mut s, a.uuid.clone()).unwrap();
    let sb = Movimentation::get_movimentation(&mut s, b.uuid.clone()).unwrap();
    assert_eq!(sa.transaction, Some(b.uuid.clone()));
    assert_eq!(sb.transaction, Some(a.uuid.clone()));
    assert_eq!(sb.value, -100);
    assert_eq!(s.row_count(), 2);
}

#[test]
fn linking_copies_value_of_other_magnitude() {
    let mut s = storage();
    let mut a = mov("acc", -40, "2024-03-01", Some("2024-03-02"));
    let mut b = mov("other", 15, "2024-03-01", None);
    Movimentation::store_transaction(&mut s, &mut a, &mut b).unwrap();
    assert_eq!(b.value, 40);
    assert_eq!(b.paid_in, Some(date("2024-03-02")));

    let mut c = mov("acc", 25, "2024-03-01", None);
    let mut d = mov("other", -25, "2024-03-01", None);
    Movimentation::store_transaction(&mut s, &mut c, &mut d).unwrap();
    assert_eq!(d.value, -25);
}

#[test]
fn relinking_stored_pair_writes_both() {
    let mut s = storage();
    let mut a = mov("acc", 60, "2024-03-01", None);
    let mut b = mov("other", 60, "2024-03-01", None);
    Movimentation::store_transaction(&mut s, &mut a, &mut b).unwrap();
    let (ida, idb) = (a.uuid.clone(), b.uuid.clone());
    a.value = 80;
    Movimentation::store_transaction(&mut s, &mut a, &mut b).unwrap();
    assert_eq!((a.uuid.clone(), b.uuid.clone()), (ida.clone(), idb.clone()));
    assert_eq!(Movimentation::get_movimentation(&mut s, idb).unwrap().value, -80);
    assert_eq!(Movimentation::get_movimentation(&mut s, ida).unwrap().value, 80);
    assert_eq!(s.row_count(), 2);
}

#[test]
fn removing_either_leg_removes_both() {
    for first in [true, false] {
        let mut s = storage();
        let mut a = mov("acc", 10, "2024-03-01", None);
        let mut b = mov("other", 10, "2024-03-01", None);
        Movimentation::store_transaction(&mut s, &mut a, &mut b).unwrap();
        let keep = Movimentation::store_movimentation(&mut s, mov("acc", 1, "2024-03-01", None)).unwrap();
        let id = if first { a.uuid.clone() } else { b.uuid.clone() };
        Movimentation::remove_movimentation(&mut s, id).unwrap();
        assert_eq!(Movimentation::get_movimentation(&mut s, a.uuid.clone()).err(), Some(LedgerError::NotFound));
        assert_eq!(Movimentation::get_movimentation(&mut s, b.uuid.clone()).err(), Some(LedgerError::NotFound));
        assert!(Movimentation::get_movimentation(&mut s, keep).is_ok());
    }
}

#[test]
fn removing_unknown_id_is_no_error() {
    let mut s = storage();
    assert!(Movimentation::remove_movimentation(&mut s, "none".to_string()).is_ok());
}

#[test]
fn accounts_list_edits_rows() {
    let mut accounts = Accounts::new(vec![AccountsItem { bank: "A".to_string(), id: 1, name: "One".to_string() }]);
    assert_eq!(accounts.row_count(), 1);
    assert!(accounts.set_bank(0, "B".to_string()));
    assert!(accounts.set_id(0, 7));
    assert!(accounts.set_name(0, "Seven".to_string()));
    assert_eq!(accounts.bank(0), "B");
    assert_eq!(accounts.id(0), 7);
    assert_eq!(accounts.name(0), "Seven");
}

#[test]
fn non_object_document_is_malformed() {
    let mut s = storage();
    let id = s.insert(json::JsonValue::from("just text")).unwrap();
    assert_eq!(Movimentation::get_movimentation(&mut s, id).err(), Some(LedgerError::Malformed));
}

#[test]
fn decode_without_link_leaves_partner_unset() {
    let s = storage();
    let mut m = mov("acc", 12, "2024-04-01", None);
    m.contact = None;
    m.transaction = Some("partner".to_string());
    let doc = encode_at(&m, Timestamp::from_secs(5).unwrap()).unwrap();
    let flat = decode(&s, &doc, &"self".to_string(), false).unwrap();
    assert_eq!(flat.uuid, "self");
    assert_eq!(flat.transaction, None);
    assert_eq!(flat.contact, None);
    assert_eq!(flat.value, 12);
    assert_eq!(decode(&s, &doc, &"self".to_string(), true).err(), Some(LedgerError::MissingPartner));
}

#[test]
fn current_balance_is_previous_plus_settled_without_earlier_records() {
    let mut s = storage();
    Movimentation::store_movimentation(&mut s, mov("acc", 300, "2024-02-10", Some("2024-02-10"))).unwrap();
    Movimentation::store_movimentation(&mut s, mov("acc", -120, "2024-02-11", Some("2024-02-12"))).unwrap();
    Movimentation::store_movimentation(&mut s, mov("acc", -50, "2024-02-15", None)).unwrap();
    let (_, totals) = february(&mut s, StatusFilter::ALL);
    assert_eq!(totals, vec![-50, 0, -120, 300, 1000, 1180]);
    assert_eq!(totals[5], totals[4] + 300 - 120);
}

#[test]
fn huge_negative_number_is_malformed() {
    let mut s = storage();
    let mut doc = encode_at(&mov("acc", 5, "2024-01-05", None), Timestamp::from_secs(0).unwrap()).unwrap();
    doc.insert("value", i64::MIN + 1).unwrap();
    let id = s.insert(doc).unwrap();
    assert_eq!(Movimentation::get_movimentation(&mut s, id.clone()).err(), Some(LedgerError::Malformed));
    let parsed = json::parse(r#"{"value": -9223372036854775808}"#).unwrap();
    let mut doc = encode_at(&mov("acc", 5, "2024-01-05", None), Timestamp::from_secs(0).unwrap()).unwrap();
    doc.insert("value", parsed["value"].clone()).unwrap();
    let id = s.insert(doc).unwrap();
    assert_eq!(Movimentation::get_movimentation(&mut s, id).err(), Some(LedgerError::Malformed));
}

#[test]
fn draft_is_new_and_unlinked() {
    let d = Movimentation::draft(
        "acc".to_string(),
        Some("joe".to_string()),
        "rent".to_string(),
        -900,
        date("2024-05-01"),
        Timestamp::from_secs(10).unwrap(),
    );
    assert!(d.uuid.is_empty());
    assert_eq!(d.paid_in, None);
    assert_eq!(d.updated_at, None);
    assert_eq!(d.transaction, None);
    assert_eq!(d.value, -900);
    let mut s = storage();
    let id = Movimentation::store_movimentation(&mut s, d).unwrap();
    let doc = s.row_at(0).1;
    assert!(doc["updated_at"].is_null());
    assert_eq!(Movimentation::get_movimentation(&mut s, id).unwrap().description, "rent");
}

#[test]
fn linking_at_instant_stamps_stored_legs() {
    let mut s = storage();
    let mut a = mov("acc", 100, "2024-03-01", None);
    let mut b = mov("other", 100, "2024-03-05", None);
    let now = Timestamp::from_secs(1_710_000_000).unwrap();
    Movimentation::store_transaction_at(&mut s, &mut a, &mut b, now).unwrap();
    let sa = Movimentation::get_movimentation(&mut s, a.uuid.clone()).unwrap();
    let sb = Movimentation::get_movimentation(&mut s, b.uuid.clone()).unwrap();
    assert_eq!(sa.updated_at, Some(now));
    assert_eq!(sb.updated_at, None);
    assert_eq!(sb.deadline, date("2024-03-01"));
}

#[test]
fn linking_checks_before_writing() {
    let mut s = storage();
    let now = Timestamp::from_secs(1_710_000_000).unwrap();
    let mut a = mov("acc", 100, "2024-03-01", None);
    a.contact = None;
    let mut b = mov("other", 70, "2024-03-05", None);
    assert_eq!(Movimentation::store_transaction_at(&mut s, &mut a, &mut b, now).err(), Some(LedgerError::NoCounterparty));
    assert_eq!(s.row_count(), 0);
    assert_eq!(b.value, 70);

    let mut a = mov("acc", 100, "2024-03-01", None);
    let mut b = mov("other", 70, "2024-03-05", None);
    b.uuid = "missing".to_string();
    assert_eq!(Movimentation::store_transaction_at(&mut s, &mut a, &mut b, now).err(), Some(LedgerError::NotFound));
    assert_eq!(s.row_count(), 0);
    assert!(a.uuid.is_empty());
}
