//! Replies of cross-contract calls. A call either failed or returned the
//! JSON text of its result; the library reads that text with the JSON
//! reader of the NEAR SDK.
use vstd::prelude::*;

verus! {

/// The outcome of a cross-contract call as the runtime reports it.
#[derive(Debug)]
pub enum CallOutcome {
    /// The call succeeded and returned these bytes.
    Success(Vec<u8>),
    /// The call failed.
    Failure,
}

/// What `serde_json::from_slice::<u128>` reads from `bytes`, `None` when it
/// refuses them.
pub uninterp spec fn json_u128(bytes: Seq<u8>) -> Option<u128>;

/// JSON whitespace: space, line feed, tab or carriage return.
pub open spec fn is_json_space(b: u8) -> bool {
    b == 32 || b == 10 || b == 9 || b == 13
}

/// `bytes` is `word` with nothing but JSON whitespace before and after it.
pub open spec fn json_padded(bytes: Seq<u8>, word: Seq<u8>) -> bool {
    exists|i: int|
        #![trigger bytes.subrange(i, i + word.len())]
        0 <= i && i + word.len() <= bytes.len() && (forall|j: int| 0 <= j < i ==> is_json_space(#[trigger] bytes[j]))
            && bytes.subrange(i, i + word.len()) == word && (forall|j: int|
            i + word.len() <= j < bytes.len() ==> is_json_space(#[trigger] bytes[j]))
}

/// What `serde_json::from_slice::<bool>` reads from `bytes`: `true` or
/// `false` with only whitespace around it, `None` for anything else.
pub open spec fn json_bool(bytes: Seq<u8>) -> Option<bool> {
    if json_padded(bytes, seq![116u8, 114u8, 117u8, 101u8]) {
        Some(true)
    } else if json_padded(bytes, seq![102u8, 97u8, 108u8, 115u8, 101u8]) {
        Some(false)
    } else {
        None
    }
}

/// What `serde_json::from_slice::<Vec<u128>>` reads from `bytes`.
pub uninterp spec fn json_u128_list(bytes: Seq<u8>) -> Option<Seq<u128>>;

/// What `serde_json::from_slice::<U128>` reads from `bytes` (a decimal
/// number written as a JSON string).
pub uninterp spec fn json_u128_text(bytes: Seq<u8>) -> Option<u128>;

/// Reads a JSON number as a `u128` with `near_sdk::serde_json::from_slice`;
/// the result is whatever that reader gives for these bytes.
#[verifier::external_body]
pub(crate) fn read_u128(bytes: &[u8]) -> (r: Option<u128>)
    ensures
        r == json_u128(bytes@),
{
    near_sdk::serde_json::from_slice::<u128>(bytes).ok()
}

/// Reads a JSON boolean with `near_sdk::serde_json::from_slice`, which
/// accepts exactly `true` or `false` between optional whitespace.
#[verifier::external_body]
pub(crate) fn read_bool(bytes: &[u8]) -> (r: Option<bool>)
    ensures
        r == json_bool(bytes@),
{
    near_sdk::serde_json::from_slice::<bool>(bytes).ok()
}

/// Reads a JSON array of numbers as `Vec<u128>` with
/// `near_sdk::serde_json::from_slice`.
#[verifier::external_body]
pub(crate) fn read_u128_list(bytes: &[u8]) -> (r: Option<Vec<u128>>)
    ensures
        match r {
            Some(v) => json_u128_list(bytes@) == Some(v@),
            None => json_u128_list(bytes@) is None,
        },
{
    near_sdk::serde_json::from_slice::<Vec<u128>>(bytes).ok()
}

/// Reads a `near_sdk::json_types::U128` (a decimal number in a JSON string)
/// with `near_sdk::serde_json::from_slice` and unwraps it.
#[verifier::external_body]
pub(crate) fn read_u128_text(bytes: &[u8]) -> (r: Option<u128>)
    ensures
        r == json_u128_text(bytes@),
{
    near_sdk::serde_json::from_slice::<near_sdk::json_types::U128>(bytes).ok().map(|v| v.0)
}

} // verus!
