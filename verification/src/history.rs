//! Conversion history: what each entry holds and how the list is capped.

use vstd::prelude::*;

verus! {

/// How many history entries are kept: the newest ones.
pub const MAX_ENTRIES: usize = 100;

/// One finished conversion, successful or not.
#[derive(Debug, PartialEq, Eq)]
pub struct HistoryEntry {
    pub input: String,
    pub output: Option<String>,
    /// Target extension.
    pub to: String,
    pub success: bool,
    pub error: Option<String>,
    /// Unix timestamp (seconds).
    pub timestamp: u64,
}

/// Seconds elapsed since the Unix epoch by the system clock
/// (`SystemTime::elapsed` on `UNIX_EPOCH`), or 0 when the clock is set
/// before it. Nothing is stated of the value: it is the clock's.
#[verifier::external_body]
fn unix_now() -> u64 {
    std::time::UNIX_EPOCH.elapsed().map_or(0, |d| d.as_secs())
}

impl HistoryEntry {
    /// An entry recorded at `timestamp`; it counts as a success exactly when
    /// there is no error.
    pub fn at(
        input: String,
        output: Option<String>,
        to: String,
        error: Option<String>,
        timestamp: u64,
    ) -> (e: Self)
        ensures
            e.input == input,
            e.output == output,
            e.to == to,
            e.success == (error is None),
            e.error == error,
            e.timestamp == timestamp,
    {
        let success = error.is_none();
        HistoryEntry { input, output, to, success, error, timestamp }
    }

    /// An entry recorded now; it counts as a success exactly when there is
    /// no error.
    pub fn now(input: String, output: Option<String>, to: String, error: Option<String>) -> (e: Self)
        ensures
            e.input == input,
            e.output == output,
            e.to == to,
            e.success == (error is None),
            e.error == error,
    {
        Self::at(input, output, to, error, unix_now())
    }
}

/// The list after appending `e` to `s` and keeping only the newest
/// `MAX_ENTRIES`.
pub open spec fn spec_append_capped(s: Seq<HistoryEntry>, e: HistoryEntry) -> Seq<HistoryEntry> {
    let all = s.push(e);
    if all.len() > MAX_ENTRIES {
        all.skip(all.len() - MAX_ENTRIES)
    } else {
        all
    }
}

/// Append an entry, keeping only the newest `MAX_ENTRIES`.
pub fn append_capped(entries: &mut Vec<HistoryEntry>, entry: HistoryEntry)
    ensures
        final(entries)@ == spec_append_capped(old(entries)@, entry),
        final(entries)@.len() <= MAX_ENTRIES,
        final(entries)@.last() == entry,
{
    let ghost all = old(entries)@.push(entry);
    entries.push(entry);
    let ghost mut dropped: int = 0;
    while entries.len() > MAX_ENTRIES
        invariant
            entries@ == all.skip(dropped),
            0 <= dropped <= all.len(),
            all.len() > MAX_ENTRIES ==> dropped <= all.len() - MAX_ENTRIES,
            all.len() <= MAX_ENTRIES ==> dropped == 0,
        decreases entries@.len(),
    {
        entries.remove(0);
        proof {
            assert(all.skip(dropped).drop_first() =~= all.skip(dropped + 1));
            dropped = dropped + 1;
        }
    }
    assert(entries@ == spec_append_capped(old(entries)@, entry));
}

} // verus!
