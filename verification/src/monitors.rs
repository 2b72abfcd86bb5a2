//! Extracting monitor names from the compositor's JSON monitor listing.
//!
//! The compositor reports its monitors as a JSON array of objects, each with
//! a `name` string. The application obtains that text; this module parses it
//! through serde_json and collects the `name` field of every element that
//! has one, in order.

use vstd::prelude::*;

verus! {

#[verifier::external_type_specification]
#[verifier::external_body]
pub struct ExJsonValue(serde_json::Value);

/// Relies on serde_json::from_str: parses JSON text into a value, `None`
/// when the text is not valid JSON.
#[verifier::external_body]
fn parse_json(text: &str) -> (r: Option<serde_json::Value>) {
    serde_json::from_str(text).ok()
}

/// Relies on serde_json::Value::as_array: the value's elements when it is a
/// JSON array, `None` otherwise.
#[verifier::external_body]
fn json_as_array(value: &serde_json::Value) -> (r: Option<Vec<serde_json::Value>>) {
    value.as_array().cloned()
}

/// Relies on serde_json::Value::get: the member under `key` when the value
/// is a JSON object that has one, `None` otherwise.
#[verifier::external_body]
fn json_get<'a>(value: &'a serde_json::Value, key: &str) -> (r: Option<&'a serde_json::Value>) {
    value.get(key)
}

/// Relies on serde_json::Value::as_str: the text when the value is a JSON
/// string, `None` otherwise.
#[verifier::external_body]
fn json_as_str(value: &serde_json::Value) -> (r: Option<String>) {
    match value.as_str() {
        Some(s) => Some(s.to_owned()),
        None => None,
    }
}

/// The monitor names in the compositor's JSON listing: the `name` string of
/// each array element that has one, in order. `None` when the text is not a
/// JSON array at all. What each name is comes from serde_json; this function
/// fixes only how the listing is walked.
pub fn monitor_names_from_json(text: &str) -> (r: Option<Vec<String>>) {
    let parsed = match parse_json(text) {
        Some(v) => v,
        None => {
            return None;
        },
    };
    let entries = match json_as_array(&parsed) {
        Some(a) => a,
        None => {
            return None;
        },
    };
    let mut names: Vec<String> = Vec::new();
    let n = entries.len();
    let mut i: usize = 0;
    while i < n
        invariant
            i <= n,
            n == entries@.len(),
        decreases n - i,
    {
        if let Some(member) = json_get(&entries[i], "name") {
            if let Some(name) = json_as_str(member) {
                names.push(name);
            }
        }
        i += 1;
    }
    Some(names)
}

/// The monitor a bare invocation targets: the first one listed, if any.
pub fn first_monitor(names: &Vec<String>) -> (r: Option<String>)
    ensures
        match r {
            Some(m) => names@.len() > 0 && m@ == names@[0]@,
            None => names@.len() == 0,
        },
{
    if names.len() == 0 {
        None
    } else {
        Some(names[0].clone())
    }
}

} // verus!
