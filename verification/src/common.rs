//! Plain values shared across the library, and the text of the messages
//! that end a run.
use crate::text::{chars_of, decimal, push_all, push_decimal, split, split_on, string_of, trim, trim_chars};
use vstd::prelude::*;

verus! {

/// A point in time in UTC: whole seconds since the Unix epoch and the
/// nanoseconds within that second.
#[derive(Clone, Copy, Debug, PartialEq, Eq, Structural)]
pub struct UtcTimestamp {
    pub seconds: i64,
    pub nanoseconds: u32,
}


/// The message that reports how long a run took: whole minutes, the
/// remaining seconds, and the milliseconds of the last second.
pub open spec fn spec_exec_duration_message(duration_secs: nat, subsec_millis: nat) -> Seq<char> {
    "TOTAL EXECUTION TIME: "@ + decimal(duration_secs / 60) + " minutes, "@ + decimal(duration_secs % 60)
        + " seconds, and "@ + decimal(subsec_millis) + " milliseconds"@
}

/// The message that reports how long a run took, from the whole seconds of
/// the duration and its milliseconds beyond them.
pub fn exec_duration_message(duration_secs: u64, subsec_millis: u32) -> (r: String)
    ensures
        r@ == spec_exec_duration_message(duration_secs as nat, subsec_millis as nat),
{
    let minutes = duration_secs / 60;
    let seconds = duration_secs % 60;
    let mut out = chars_of("TOTAL EXECUTION TIME: ");
    push_decimal(&mut out, minutes);
    push_all(&mut out, &chars_of(" minutes, "));
    push_decimal(&mut out, seconds);
    push_all(&mut out, &chars_of(" seconds, and "));
    push_decimal(&mut out, subsec_millis as u64);
    push_all(&mut out, &chars_of(" milliseconds"));
    string_of(&out)
}

/// The paths of a comma-separated list of report files, each trimmed of
/// whitespace.
pub fn report_file_paths(file_paths: &str) -> (r: Vec<String>)
    ensures
        r@.len() == split(file_paths@, ',').len(),
        forall|k: int| 0 <= k < r@.len() ==> (#[trigger] r@[k])@ == trim(split(file_paths@, ',')[k]),
{
    let pieces = split_on(&chars_of(file_paths), ',');
    let mut out: Vec<String> = Vec::new();
    let mut i: usize = 0;
    while i < pieces.len()
        invariant
            i <= pieces@.len(),
            pieces@.len() == split(file_paths@, ',').len(),
            forall|k: int| 0 <= k < pieces@.len() ==> (#[trigger] pieces@[k])@ == split(file_paths@, ',')[k],
            out@.len() == i,
            forall|k: int| 0 <= k < i ==> (#[trigger] out@[k])@ == trim(split(file_paths@, ',')[k]),
        decreases pieces@.len() - i,
    {
        let t = trim_chars(&pieces[i]);
        out.push(string_of(&t));
        i = i + 1;
    }
    out
}

} // verus!
