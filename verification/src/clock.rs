//! Times as texts: what the drivers take from `chrono`.
use vstd::prelude::*;

use crate::text::{refuse, text_option, Refusal};

verus! {

/// The RFC 3339 text of a number of milliseconds since the Unix epoch, none when the
/// number is out of the range of dates.
pub uninterp spec fn rfc3339_text(millis: int) -> Option<Seq<char>>;

/// The milliseconds since the Unix epoch that an RFC 3339 text names, or the words
/// with which its parser refuses it.
pub uninterp spec fn rfc3339_instant(text: Seq<char>) -> Result<int, Seq<char>>;

/// `chrono::DateTime::from_timestamp_millis`, its date written by `to_rfc3339`: a
/// function of the milliseconds alone.
#[verifier::external_body]
fn date_text(millis: i64) -> (text: Option<String>)
    ensures
        text_option(text) == rfc3339_text(millis as int),
{
    chrono::DateTime::from_timestamp_millis(millis).map(|date| date.to_rfc3339())
}

/// `chrono::DateTime::parse_from_rfc3339`, its date taken as `timestamp_millis`: a
/// function of the text alone.
#[verifier::external_body]
fn date_millis(text: &str) -> (millis: Result<i64, String>)
    ensures
        match millis {
            Ok(m) => rfc3339_instant(text@) == Ok::<int, Seq<char>>(m as int),
            Err(words) => rfc3339_instant(text@) == Err::<int, Seq<char>>(words@),
        },
{
    match chrono::DateTime::parse_from_rfc3339(text) {
        Ok(date) => Ok(date.timestamp_millis()),
        Err(error) => Err(error.to_string()),
    }
}

/// The text of an instant that a record carries, or why it has none.
pub open spec fn instant_text(millis: int) -> Result<Seq<char>, Seq<char>> {
    if millis > i64::MAX {
        Err("out of range integral type conversion attempted"@)
    } else {
        match rfc3339_text(millis) {
            Some(text) => Ok(text),
            None => Err("runtime timestamp is out of range"@),
        }
    }
}

/// Whether a text came out as it should.
pub open spec fn written(
    outcome: Result<String, Refusal>,
    text: Result<Seq<char>, Seq<char>>,
) -> bool {
    match (outcome, text) {
        (Ok(value), Ok(chars)) => value@ == chars,
        (Err(refusal), Err(words)) => refusal@ == words,
        _ => false,
    }
}

/// Writes the instant that a record carries.
pub fn rfc3339_millis(millis: u64) -> (outcome: Result<String, Refusal>)
    ensures
        written(outcome, instant_text(millis as int)),
{
    if millis > 0x7fff_ffff_ffff_ffffu64 {
        return Err(refuse("out of range integral type conversion attempted"));
    }
    match date_text(millis as i64) {
        Some(text) => Ok(text),
        None => Err(refuse("runtime timestamp is out of range")),
    }
}

/// The instant a provider's identity was created, or why it is refused.
pub open spec fn creation_instant(text: Seq<char>) -> Result<int, Seq<char>> {
    match rfc3339_instant(text) {
        Err(words) => Err(words),
        Ok(millis) => if millis < 0 {
            Err("runtime presence trust anchor creation time predates Unix epoch"@)
        } else {
            Ok(millis)
        },
    }
}

/// Reads the instant a provider's identity was created.
pub fn creation_millis(text: &str) -> (outcome: Result<u64, Refusal>)
    ensures
        match outcome {
            Ok(millis) => creation_instant(text@) == Ok::<int, Seq<char>>(millis as int),
            Err(refusal) => creation_instant(text@) == Err::<int, Seq<char>>(refusal@),
        },
{
    match date_millis(text) {
        Err(words) => Err(Refusal { text: words }),
        Ok(millis) => if millis < 0 {
            Err(refuse("runtime presence trust anchor creation time predates Unix epoch"))
        } else {
            Ok(millis as u64)
        },
    }
}

} // verus!
