//! What the operating system of a managed host says of a process. Only one kind of system
//! is asked; elsewhere every question is refused.
use vstd::prelude::*;

use crate::scan::{decimal, decimal_of};
use crate::text::{cat3, check, judged, refuse, unless, Refusal};

verus! {

/// What a process is: when it was created, from what image, in which session, and how it
/// ended, if it did.
#[derive(Clone, Debug, PartialEq, Eq)]
pub struct ProcessFacts {
    pub creation_time: u64,
    pub image_path: String,
    pub session_id: u32,
    pub exit_code: Option<u32>,
}

/// Asks for a process where no process can be observed.
pub fn process_facts(_pid: u32) -> (outcome: Result<Option<ProcessFacts>, Refusal>)
    ensures
        judged(outcome, Some("idunn-host observes processes on Windows only"@)),
{
    Err(refuse("idunn-host observes processes on Windows only"))
}

/// Ends a process where no process can be ended.
pub fn terminate(_pid: u32, _creation_time: u64) -> (outcome: Result<(), Refusal>)
    ensures
        judged(outcome, Some("idunn-host stops processes on Windows only"@)),
{
    Err(refuse("idunn-host stops processes on Windows only"))
}

/// Asks for the user where no user is known.
pub fn current_user_sid() -> (outcome: Result<String, Refusal>)
    ensures
        judged(outcome, Some("idunn-host runs on Windows only"@)),
{
    Err(refuse("idunn-host runs on Windows only"))
}

/// Why a process may not be ended, if so: it is not the one that was meant.
pub open spec fn termination_refusal(
    pid: u32,
    creation_time: u64,
    found: Option<ProcessFacts>,
) -> Option<Seq<char>> {
    match found {
        None => None,
        Some(facts) => unless(
            facts.creation_time == creation_time,
            "refusing to terminate pid "@ + decimal(pid as nat) + ": it is now another process"@,
        ),
    }
}

/// Decides whether a process is still to be ended: it is the one that was meant, and it
/// has not ended by itself.
pub fn must_terminate(pid: u32, creation_time: u64, found: &Option<ProcessFacts>) -> (outcome:
    Result<bool, Refusal>)
    ensures
        judged(outcome, termination_refusal(pid, creation_time, *found)),
        outcome matches Ok(must) ==> must == (found matches Some(facts) && facts.exit_code is None),
{
    match found {
        None => Ok(false),
        Some(facts) => {
            let number = decimal_of(pid as u64);
            let words = cat3(
                "refusing to terminate pid ",
                number.as_str(),
                ": it is now another process",
            );
            check(facts.creation_time == creation_time, words.as_str())?;
            Ok(facts.exit_code.is_none())
        },
    }
}

} // verus!
