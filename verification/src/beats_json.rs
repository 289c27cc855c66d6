use vstd::prelude::*;
use vstd::string::StringExecFns;

verus! {

/// The ASCII digit for `d` (0 to 9).
pub open spec fn digit_char(d: nat) -> char {
    (48 + d) as char
}

/// The decimal text of `n`, without leading zeros.
pub open spec fn decimal_text(n: nat) -> Seq<char>
    decreases n,
{
    if n < 10 {
        seq![digit_char(n)]
    } else {
        decimal_text(n / 10).push(digit_char(n % 10))
    }
}

/// The decimal texts of `s`, separated by commas.
pub open spec fn comma_separated(s: Seq<u64>) -> Seq<char>
    decreases s.len(),
{
    if s.len() == 0 {
        Seq::empty()
    } else if s.len() == 1 {
        decimal_text(s[0] as nat)
    } else {
        comma_separated(s.drop_last()) + ","@ + decimal_text(s.last() as nat)
    }
}

/// The compact JSON array text of a list of beat times, as `[120,480,960]`.
pub open spec fn json_array_text(s: Seq<u64>) -> Seq<char> {
    "["@ + comma_separated(s) + "]"@
}

/// What `serde_json::from_str::<Vec<u64>>` gives for a text: the numbers of a
/// JSON array of unsigned integers, or `None` when the text is not one.
pub uninterp spec fn json_u64_list(text: Seq<char>) -> Option<Seq<u64>>;

/// Calls `serde_json::to_string` on a list of beat times. Claimed, from
/// serde_json's source and documentation: it succeeds (a list of integers
/// holds no map and no fallible value), writes the compact array text, and
/// `serde_json::from_str` reads that text back as the same list.
#[verifier::external_body]
fn serde_json_to_string(beats: &[u64]) -> (r: Result<String, ()>)
    ensures
        r is Ok,
        r matches Ok(s) ==> s@ == json_array_text(beats@),
        r matches Ok(s) ==> json_u64_list(s@) == Some(beats@),
{
    match serde_json::to_string(beats) {
        Ok(s) => Ok(s),
        Err(_) => Err(()),
    }
}

/// Calls `serde_json::from_str::<Vec<u64>>` on a text and drops the error.
/// Claimed: the result is what the name `json_u64_list` gives for the text.
#[verifier::external_body]
fn serde_json_from_str(text: &str) -> (r: Option<Vec<u64>>)
    ensures
        match r {
            Some(v) => json_u64_list(text@) == Some(v@),
            None => json_u64_list(text@) is None,
        },
{
    match serde_json::from_str::<Vec<u64>>(text) {
        Ok(v) => Some(v),
        Err(_) => None,
    }
}

/// The text under which a list of beat times is stored: its compact JSON
/// array. Reading that text back with `beats_from_json` gives the list again.
pub fn beats_to_json(beats: &[u64]) -> (r: String)
    ensures
        r@ == json_array_text(beats@),
        json_u64_list(r@) == Some(beats@),
{
    match serde_json_to_string(beats) {
        Ok(s) => s,
        Err(_) => String::from_str("[]"),
    }
}

/// The beat times in a stored text, if there is a text and it is a JSON
/// array of unsigned integers.
pub fn beats_from_json(stored: Option<&str>) -> (r: Option<Vec<u64>>)
    ensures
        match stored {
            None => r is None,
            Some(s) => match json_u64_list(s@) {
                Some(b) => r matches Some(v) && v@ == b,
                None => r is None,
            },
        },
{
    match stored {
        None => None,
        Some(s) => serde_json_from_str(s),
    }
}

} // verus!
