use vstd::prelude::*;

verus! {

/// `serde_json::Value`, a parsed JSON document. Nothing inside it is
/// visible to the verifier.
#[verifier::external_type_specification]
#[verifier::external_body]
pub struct ExValue(serde_json::Value);

/// `serde_json::Number`, a JSON number. Nothing inside it is visible to the
/// verifier.
#[verifier::external_type_specification]
#[verifier::external_body]
pub struct ExNumber(serde_json::Number);

/// The number that indexing `value` by `key` leads to, if it leads to one.
pub uninterp spec fn member_number(value: serde_json::Value, key: Seq<char>) -> Option<
    serde_json::Number,
>;

/// What `serde_json::Number::as_u64` makes of `number`.
pub uninterp spec fn number_as_u64(number: serde_json::Number) -> Option<u64>;

/// `serde_json::Number::as_u64`: the number as an unsigned integer of 64
/// bits where it is one. The contract claims only that the result depends
/// on the number alone.
pub assume_specification[ serde_json::Number::as_u64 ](number: &serde_json::Number) -> (value:
    Option<u64>)
    ensures
        value == number_as_u64(*number),
;

/// Indexes `value` by `key` through `serde_json::Value`'s `Index`, which
/// gives JSON null instead of panicking where `value` is no object or has no
/// such member, and hands out the number where a number stands there. The
/// contract claims only that the result depends on `value` and `key` alone.
#[verifier::external_body]
fn lookup_number<'a>(value: &'a serde_json::Value, key: &str) -> (found: Option<
    &'a serde_json::Number,
>)
    ensures
        match found {
            Some(number) => member_number(*value, key@) == Some(*number),
            None => member_number(*value, key@) is None,
        },
{
    match &value[key] {
        serde_json::Value::Number(number) => Some(number),
        _ => None,
    }
}

/// What a payload holds under a key that should name an unsigned number.
#[derive(Copy, Clone, Debug, PartialEq, Eq, Structural)]
pub enum NumberField {
    /// No number stands under the key.
    Missing,
    /// A number stands there, but not an unsigned integer of 64 bits.
    NotUnsigned,
    /// The unsigned integer that stands there.
    Unsigned(u64),
}

/// What `value` holds under `key`, read as an unsigned number.
pub open spec fn number_field(value: serde_json::Value, key: Seq<char>) -> NumberField {
    match member_number(value, key) {
        None => NumberField::Missing,
        Some(number) => match number_as_u64(number) {
            None => NumberField::NotUnsigned,
            Some(n) => NumberField::Unsigned(n),
        },
    }
}

/// Reads the member `key` of `value` as an unsigned number.
pub fn read_number_field(value: &serde_json::Value, key: &str) -> (field: NumberField)
    ensures
        field == number_field(*value, key@),
{
    match lookup_number(value, key) {
        None => NumberField::Missing,
        Some(number) => match number.as_u64() {
            None => NumberField::NotUnsigned,
            Some(n) => NumberField::Unsigned(n),
        },
    }
}

} // verus!
