use vstd::prelude::*;

verus! {

#[verifier::external_type_specification]
#[verifier::external_body]
pub struct ExJsonValue(json::JsonValue);

/// Whether a JSON value is an object.
pub uninterp spec fn is_object(v: json::JsonValue) -> bool;

/// The entries of a JSON object whose value is a string, by key.
pub uninterp spec fn text_entries(v: json::JsonValue) -> Map<Seq<char>, Seq<char>>;

/// The entries of a JSON object whose value is a number, by key, each as the parts
/// that `Number::as_parts` gives: whether it is positive, its mantissa, its exponent.
pub uninterp spec fn number_entries(v: json::JsonValue) -> Map<Seq<char>, (bool, u64, i16)>;

/// The parts that `Number::from` gives an `i64`: its sign, its magnitude and no exponent.
pub open spec fn parts_of(v: i64) -> (bool, u64, i16) {
    if v >= 0 {
        (true, v as u64, 0)
    } else {
        (false, (-(v as int)) as u64, 0)
    }
}

/// The integer that the parts of a number stand for, where it is a whole number
/// whose magnitude fits in an `i64`.
pub open spec fn int_value(p: (bool, u64, i16)) -> Option<i64> {
    if p.2 != 0 || p.1 > i64::MAX as u64 {
        None
    } else if p.0 {
        Some(p.1 as i64)
    } else {
        Some((-(p.1 as i64)) as i64)
    }
}

/// Relies on json's `JsonValue::new_object`: an object with no entries.
#[verifier::external_body]
pub(crate) fn new_object() -> (r: json::JsonValue)
    ensures
        is_object(r),
        text_entries(r).dom() == Set::<Seq<char>>::empty(),
        number_entries(r).dom() == Set::<Seq<char>>::empty(),
{
    json::JsonValue::new_object()
}

/// Relies on json's `JsonValue::is_object`.
#[verifier::external_body]
pub(crate) fn object_check(v: &json::JsonValue) -> (r: bool)
    ensures
        r == is_object(*v),
{
    v.is_object()
}

/// Relies on json's `JsonValue::insert` on an object: the key now holds the string,
/// in place of what it held before.
#[verifier::external_body]
pub(crate) fn put_text(doc: &mut json::JsonValue, key: &str, val: &str)
    requires
        is_object(*old(doc)),
    ensures
        is_object(*final(doc)),
        text_entries(*final(doc)) == text_entries(*old(doc)).insert(key@, val@),
        number_entries(*final(doc)) == number_entries(*old(doc)).remove(key@),
{
    let _ = doc.insert(key, val);
}

/// Relies on json's `JsonValue::insert` of an `i64` on an object: the key now holds the
/// number that `Number::from` makes of it. `Number::from` negates its argument, hence the bound.
#[verifier::external_body]
pub(crate) fn put_int(doc: &mut json::JsonValue, key: &str, val: i64)
    requires
        is_object(*old(doc)),
        val > i64::MIN,
    ensures
        is_object(*final(doc)),
        text_entries(*final(doc)) == text_entries(*old(doc)).remove(key@),
        number_entries(*final(doc)) == number_entries(*old(doc)).insert(key@, parts_of(val)),
{
    let _ = doc.insert(key, val);
}

/// Relies on json's indexing of an object by key and `JsonValue::as_str`.
#[verifier::external_body]
pub(crate) fn text_entry(doc: &json::JsonValue, key: &str) -> (r: Option<String>)
    requires
        is_object(*doc),
    ensures
        r is Some == text_entries(*doc).contains_key(key@),
        r matches Some(s) ==> s@ == text_entries(*doc)[key@],
{
    doc[key].as_str().map(|s| s.to_string())
}

/// Relies on json's indexing of an object by key, `JsonValue::as_number` and `Number::as_parts`.
#[verifier::external_body]
pub(crate) fn number_entry(doc: &json::JsonValue, key: &str) -> (r: Option<(bool, u64, i16)>)
    requires
        is_object(*doc),
    ensures
        r == number_entries(*doc).get(key@),
{
    match doc[key].as_number() {
        Some(n) => Some(n.as_parts()),
        None => None,
    }
}

/// The integer that the parts of a number stand for, as `int_value` says.
pub fn int_from_parts(p: (bool, u64, i16)) -> (r: Option<i64>)
    ensures
        r == int_value(p),
{
    if p.2 != 0 || p.1 > i64::MAX as u64 {
        None
    } else if p.0 {
        Some(p.1 as i64)
    } else {
        Some(-(p.1 as i64))
    }
}

} // verus!
