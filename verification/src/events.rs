//! Event handler bookkeeping.
//!
//! React's handlers live in JS; the runtime package gives each one an
//! integer id, and Rust only ever sees ids. When nodes go away, the ids are
//! handed back to JS (`__host_free_handlers`) as a JSON array.
use vstd::prelude::*;

use crate::text::to_owned_string;

verus! {

/// The decimal digits of `n`, without leading zeros.
pub open spec fn decimal(n: nat) -> Seq<char>
    decreases n,
{
    let d = seq!['0', '1', '2', '3', '4', '5', '6', '7', '8', '9'][(n % 10) as int];
    if n < 10 {
        seq![d]
    } else {
        decimal(n / 10).push(d)
    }
}

/// The numbers of `ids` in decimal, separated by commas.
pub open spec fn decimals_joined(ids: Seq<u32>) -> Seq<char>
    decreases ids.len(),
{
    if ids.len() == 0 {
        seq![]
    } else if ids.len() == 1 {
        decimal(ids[0] as nat)
    } else {
        decimals_joined(ids.drop_last()) + seq![','] + decimal(ids.last() as nat)
    }
}

/// Compact JSON of an array of integers: `[1,2,3]`.
pub open spec fn json_u32_array(ids: Seq<u32>) -> Seq<char> {
    seq!['['] + decimals_joined(ids) + seq![']']
}

/// `serde_json::to_string(ids)`, as an option. serde_json's compact writer
/// puts the array in brackets and separates the elements with commas (no
/// white space), and writes each integer with `itoa`, in decimal without
/// leading zeros. Its errors come from the writer and from `Serialize`
/// impls; the writer here is a `Vec<u8>`, which grows as needed, and the
/// impls for slices and `u32` pass the serializer's results on without
/// failing themselves, so the call succeeds.
#[verifier::external_body]
fn ids_to_json(ids: &[u32]) -> (r: Option<String>)
    ensures
        r is Some,
        r matches Some(s) ==> s@ == json_u32_array(ids@),
{
    serde_json::to_string(ids).ok()
}

/// The payload of `__host_free_handlers` for `ids`: `None` when there is
/// nothing to free (no call is made), else the ids as a compact JSON array
/// (`[]` would stand in for a serialisation failure).
pub fn free_handlers(ids: &[u32]) -> (r: Option<String>)
    ensures
        ids@.len() == 0 ==> r is None,
        ids@.len() > 0 ==> (r matches Some(p) && p@ == json_u32_array(ids@)),
{
    if ids.len() == 0 {
        return None;
    }
    match ids_to_json(ids) {
        Some(s) => Some(s),
        None => Some(to_owned_string("[]")),
    }
}

} // verus!
