//! JSON values, as `serde_json` has them.

use vstd::prelude::*;

verus! {

/// `serde_json::Value`, of which [`content`] tells what it holds.
#[verifier::external_type_specification]
#[verifier::external_body]
pub struct ExValue(serde_json::Value);

/// `serde_json::Error`, which is handed on and not looked into.
#[verifier::external_type_specification]
#[verifier::external_body]
pub struct ExError(serde_json::Error);

/// What a JSON value holds.
pub enum Content {
    Null,
    Bool(bool),
    /// A number written without fraction or exponent, and in reach of a machine integer.
    Whole(int),
    /// Any other number, as the pattern of a double.
    Fraction(u64),
    Text(Seq<char>),
    List(Seq<serde_json::Value>),
    /// Keys, each of them once, and values, in the order in which the map is walked.
    Record(Seq<(Seq<char>, serde_json::Value)>),
}

/// What a JSON value holds.
pub uninterp spec fn content(value: serde_json::Value) -> Content;

/// The value that a text denotes, if it denotes one.
pub uninterp spec fn denoted(text: Seq<u8>) -> Option<serde_json::Value>;

/// The pattern of the double nearest to a whole number.
pub uninterp spec fn nearest_double(n: int) -> u64;

/// Whether every whole number of this size or less is a double.
pub open spec fn exact(n: int) -> bool {
    -0x20_0000_0000_0000 <= n <= 0x20_0000_0000_0000
}

impl Content {
    /// The value under a key of a record, which holds each key once; without the key, null.
    pub open spec fn under(self, key: Seq<char>) -> Content {
        match self {
            Content::Record(entries) => if exists|i: int|
                0 <= i < entries.len() && (#[trigger] entries[i]).0 == key {
                let i = choose|i: int| 0 <= i < entries.len() && (#[trigger] entries[i]).0 == key;
                content(entries[i].1)
            } else {
                Content::Null
            },
            _ => Content::Null,
        }
    }

    /// The whole number that this is, if it fits.
    pub open spec fn as_i64(self) -> Option<i64> {
        match self {
            Content::Whole(n) => if i64::MIN <= n <= i64::MAX {
                Some(n as i64)
            } else {
                None
            },
            _ => None,
        }
    }

    /// The whole number that this is, if it fits.
    pub open spec fn as_u64(self) -> Option<u64> {
        match self {
            Content::Whole(n) => if 0 <= n <= u64::MAX {
                Some(n as u64)
            } else {
                None
            },
            _ => None,
        }
    }

    /// The pattern of the double that this number is read as.
    pub open spec fn as_double(self) -> Option<u64> {
        match self {
            Content::Whole(n) => Some(nearest_double(n)),
            Content::Fraction(bits) => Some(bits),
            _ => None,
        }
    }

    /// The text that this is.
    pub open spec fn as_text(self) -> Option<Seq<char>> {
        match self {
            Content::Text(text) => Some(text),
            _ => None,
        }
    }
}

/// `serde_json::from_slice`: the value that the text denotes, or an error where it is not JSON.
/// What a given text denotes is left to that function.
#[verifier::external_body]
pub(crate) fn parse(text: &[u8]) -> (r: Result<serde_json::Value, serde_json::Error>)
    ensures
        match r {
            Ok(value) => denoted(text@) == Some(value),
            Err(_) => denoted(text@) is None,
        },
{
    serde_json::from_slice(text)
}

/// Indexing a `serde_json::Value` by a string: the value under the key, and null where the value
/// is no object or has no such key.
#[verifier::external_body]
pub(crate) fn member(value: &serde_json::Value, key: &str) -> (r: serde_json::Value)
    ensures
        content(r) == content(*value).under(key@),
{
    value[key].clone()
}

/// `serde_json::Value::as_object`: the keys and values of an object in the order in which its map
/// is walked, and nothing for other values.
#[verifier::external_body]
pub(crate) fn entries(value: &serde_json::Value) -> (r: Option<Vec<(String, serde_json::Value)>>)
    ensures
        match content(*value) {
            Content::Record(entries) => {
                &&& r matches Some(list)
                &&& list.len() == entries.len()
                &&& forall|i: int|
                    0 <= i < entries.len() ==> (#[trigger] list@[i]).0@ == entries[i].0
                        && list@[i].1 == entries[i].1
            },
            _ => r is None,
        },
{
    value.as_object().map(|map| map.iter().map(|(k, v)| (k.clone(), v.clone())).collect())
}

/// `serde_json::Value::as_array`: the values of an array, and nothing for other values.
#[verifier::external_body]
pub(crate) fn items(value: &serde_json::Value) -> (r: Option<Vec<serde_json::Value>>)
    ensures
        match content(*value) {
            Content::List(items) => r matches Some(list) && list@ == items,
            _ => r is None,
        },
{
    value.as_array().cloned()
}

/// `serde_json::Value::as_i64`: the number, where it is whole and an `i64`.
#[verifier::external_body]
pub(crate) fn as_i64(value: &serde_json::Value) -> (r: Option<i64>)
    ensures
        r == content(*value).as_i64(),
{
    value.as_i64()
}

/// `serde_json::Value::as_u64`: the number, where it is whole and a `u64`.
#[verifier::external_body]
pub(crate) fn as_u64(value: &serde_json::Value) -> (r: Option<u64>)
    ensures
        r == content(*value).as_u64(),
{
    value.as_u64()
}

/// `serde_json::Value::as_f64`: the pattern of the number as a double. A whole number gives the
/// double nearest to it, which is the number itself up to two to the power of fifty-three, and for
/// zero the pattern of positive zero.
#[verifier::external_body]
pub(crate) fn as_double(value: &serde_json::Value) -> (r: Option<u64>)
    ensures
        match content(*value) {
            Content::Whole(n) => {
                &&& r == Some(nearest_double(n))
                &&& exact(n) ==> crate::number::double(r->0) == n as real
                &&& n == 0 ==> r == Some(0u64)
            },
            Content::Fraction(bits) => r == Some(bits),
            _ => r is None,
        },
{
    value.as_f64().map(|number| number.to_bits())
}

/// `serde_json::Value::as_str`: the text of a string, and nothing for other values.
#[verifier::external_body]
pub(crate) fn as_text(value: &serde_json::Value) -> (r: Option<String>)
    ensures
        match content(*value).as_text() {
            Some(text) => r matches Some(s) && s@ == text,
            None => r is None,
        },
{
    value.as_str().map(|text| text.to_string())
}

} // verus!
