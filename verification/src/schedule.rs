//! When an automatic run should actually renew: only once the last
//! successful run lies far enough back.
use vstd::prelude::*;
use vstd::string::*;

use crate::text::spec_starts_with;
use crate::text::starts_with_chars;
use crate::text::to_chars;

verus! {

/// How long after a success the next automatic run waits, in seconds.
pub const RERUN_AFTER_SECS: i64 = 82800;

/// The timestamp of the last log entry whose message reports a success,
/// read from position `i` backwards.
pub open spec fn spec_last_success(entries: Seq<(i64, Seq<char>)>, i: int) -> Option<i64>
    decreases i,
    when 0 <= i <= entries.len()
{
    if i <= 0 {
        None
    } else if spec_starts_with(entries[i - 1].1, "SUCCESS"@) {
        Some(entries[i - 1].0)
    } else {
        spec_last_success(entries, i - 1)
    }
}

/// Whether an automatic run should renew now: yes when no run ever
/// succeeded, and otherwise only when the last success lies at least the
/// rerun interval back.
pub open spec fn spec_should_run(entries: Seq<(i64, Seq<char>)>, now: i64) -> bool {
    match spec_last_success(entries, entries.len() as int) {
        None => true,
        Some(ts) => now - ts >= RERUN_AFTER_SECS,
    }
}

/// Decide whether an automatic run renews, from the run log's entries —
/// each a timestamp in seconds with its message — and the time now.
pub fn should_run(entries: &Vec<(i64, String)>, now: i64) -> (r: bool)
    ensures
        r == spec_should_run(
            entries@.map_values(|e: (i64, String)| (e.0, e.1@)),
            now,
        ),
{
    let ghost es = entries@.map_values(|e: (i64, String)| (e.0, e.1@));
    let mut i: usize = entries.len();
    while i > 0
        invariant
            i <= entries@.len(),
            es == entries@.map_values(|e: (i64, String)| (e.0, e.1@)),
            es.len() == entries@.len(),
            spec_last_success(es, es.len() as int) == spec_last_success(es, i as int),
        decreases i,
    {
        proof {
            assert(es[i - 1] == (entries@[i - 1].0, entries@[i - 1].1@));
        }
        let msg = to_chars(entries[i - 1].1.as_str());
        if starts_with_chars(&msg, "SUCCESS") {
            let ts = entries[i - 1].0;
            let diff: i128 = (now as i128) - (ts as i128);
            return diff >= (RERUN_AFTER_SECS as i128);
        }
        i = i - 1;
    }
    true
}

} // verus!
