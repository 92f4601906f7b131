//! The creation quota: how many pastes one client identity may create in a day.
//!
//! The store keeps one record for each identity and applies `consume_slot` to
//! it in a single atomic step, so that no two requests of one identity see the
//! same record. The window does not slide: it starts with the first creation
//! and, once it is over, starts anew with the next one. A client can therefore
//! create up to twice the limit in a short time around the end of a window.

use vstd::prelude::*;
use crate::error::PasteError;

verus! {

/// Length of the quota window: 24 hours, in microseconds.
pub const WINDOW_MICROS: i64 = 86_400_000_000;

/// The number of creations that one identity has in one window.
pub const DAILY_LIMIT: i32 = 5;

/// The largest count that a record holds.
pub const MAX_COUNT: i32 = 0x7fff_ffff;

/// What the store keeps for one identity.
#[derive(Clone, Copy, Debug, PartialEq, Eq, Structural)]
pub struct QuotaRecord {
    /// Creations since `last_reset`, this one included.
    pub count: i32,
    /// Start of the current window, in microseconds since the Unix epoch.
    pub last_reset: i64,
}

impl QuotaRecord {
    /// A record exists only once a creation was counted.
    pub open spec fn wf(self) -> bool {
        self.count >= 1
    }
}

/// Whether the window that began at `last_reset` is over at `now`.
pub open spec fn window_over(last_reset: i64, now: i64) -> bool {
    last_reset < now - WINDOW_MICROS
}

/// The record of an identity after a creation at `now`.
pub open spec fn slot_after(existing: Option<QuotaRecord>, now: i64) -> Result<
    QuotaRecord,
    PasteError,
> {
    match existing {
        None => Ok(QuotaRecord { count: 1, last_reset: now }),
        Some(record) => if window_over(record.last_reset, now) {
            Ok(QuotaRecord { count: 1, last_reset: now })
        } else if record.count < MAX_COUNT {
            Ok(QuotaRecord { count: (record.count + 1) as i32, last_reset: record.last_reset })
        } else {
            Err(PasteError::StoreFailure)
        },
    }
}

/// What the caller does with a count: it refuses the creation that goes over
/// the limit.
pub open spec fn verdict(count: i32) -> Result<(), PasteError> {
    if count > DAILY_LIMIT {
        Err(PasteError::QuotaExceeded)
    } else {
        Ok(())
    }
}

/// Counts a creation at `now` for an identity whose record is `existing`, and
/// returns the record to store; its `count` is the number to judge.
///
/// Without a record, or with one whose window is over, the count starts at 1
/// and the window at `now`. Otherwise the count goes up by one and the window
/// stays. Fails with `StoreFailure` where the count cannot go up any more.
pub fn consume_slot(existing: Option<QuotaRecord>, now: i64) -> (r: Result<QuotaRecord, PasteError>)
    ensures
        r == slot_after(existing, now),
        (existing matches Some(record) ==> record.wf()) ==> (r matches Ok(next) ==> next.wf()),
{
    match existing {
        None => Ok(QuotaRecord { count: 1, last_reset: now }),
        Some(record) => {
            if (record.last_reset as i128) < (now as i128) - (WINDOW_MICROS as i128) {
                Ok(QuotaRecord { count: 1, last_reset: now })
            } else if record.count < MAX_COUNT {
                Ok(QuotaRecord { count: record.count + 1, last_reset: record.last_reset })
            } else {
                Err(PasteError::StoreFailure)
            }
        },
    }
}

/// Judges the count that `consume_slot` gave: `QuotaExceeded` exactly when it
/// is over the limit.
pub fn check_rate_limit(count: i32) -> (r: Result<(), PasteError>)
    ensures
        r == verdict(count),
{
    if count > DAILY_LIMIT {
        Err(PasteError::QuotaExceeded)
    } else {
        Ok(())
    }
}

/// The record of an identity after creations at each of `times`, one after
/// the other, where `start` was its record before the first.
pub open spec fn replay(start: Option<QuotaRecord>, times: Seq<i64>) -> Result<
    Option<QuotaRecord>,
    PasteError,
>
    decreases times.len(),
{
    if times.len() == 0 {
        Ok(start)
    } else {
        match replay(start, times.drop_last()) {
            Err(e) => Err(e),
            Ok(before) => match slot_after(before, times.last()) {
                Ok(record) => Ok(Some(record)),
                Err(e) => Err(e),
            },
        }
    }
}

/// Whether no creation of `times` comes more than a window after the first.
pub open spec fn within_window(times: Seq<i64>) -> bool {
    forall|i: int| 0 <= i < times.len() ==> #[trigger] times[i] - times[0] <= WINDOW_MICROS
}

/// Once a record's window is over, the next creation starts the count at 1
/// and the window at the time of that creation.
pub proof fn lemma_window_reset(record: QuotaRecord, now: i64)
    requires
        now - record.last_reset > WINDOW_MICROS,
    ensures
        slot_after(Some(record), now) == Ok::<QuotaRecord, PasteError>(
            QuotaRecord { count: 1, last_reset: now },
        ),
{
}

/// Within its window a record keeps the start of the window, and its count
/// goes up by exactly one.
pub proof fn lemma_window_stays(record: QuotaRecord, now: i64)
    requires
        now - record.last_reset <= WINDOW_MICROS,
        record.count < MAX_COUNT,
    ensures
        slot_after(Some(record), now) == Ok::<QuotaRecord, PasteError>(
            QuotaRecord { count: (record.count + 1) as i32, last_reset: record.last_reset },
        ),
{
}

/// Every creation is counted: an identity without a record that creates at
/// each of `times`, all within a window of the first, ends with a count of
/// exactly their number, in whatever order the creations reach the store.
pub proof fn lemma_every_creation_counts(times: Seq<i64>)
    requires
        1 <= times.len() <= MAX_COUNT,
        within_window(times),
    ensures
        replay(None, times) == Ok::<Option<QuotaRecord>, PasteError>(
            Some(QuotaRecord { count: times.len() as i32, last_reset: times[0] }),
        ),
    decreases times.len(),
{
    let earlier = times.drop_last();
    if times.len() == 1 {
        assert(earlier.len() == 0);
        assert(replay(None, earlier) == Ok::<Option<QuotaRecord>, PasteError>(None));
    } else {
        assert forall|i: int| 0 <= i < earlier.len() implies #[trigger] earlier[i] - earlier[0]
            <= WINDOW_MICROS by {
            assert(earlier[i] == times[i]);
            assert(times[i] - times[0] <= WINDOW_MICROS);
        }
        lemma_every_creation_counts(earlier);
        assert(earlier[0] == times[0]);
        assert(times.last() - times[0] <= WINDOW_MICROS);
    }
}

/// The creations of a fresh identity within one window are counted 1, 2, 3
/// and so on, and the caller refuses exactly those after the limit.
pub proof fn lemma_counts_in_turn(times: Seq<i64>, k: int)
    requires
        1 <= k <= times.len(),
        k <= MAX_COUNT,
        within_window(times),
    ensures
        replay(None, times.take(k)) == Ok::<Option<QuotaRecord>, PasteError>(
            Some(QuotaRecord { count: k as i32, last_reset: times[0] }),
        ),
        verdict(k as i32) is Err <==> k > DAILY_LIMIT,
{
    let first = times.take(k);
    assert forall|i: int| 0 <= i < first.len() implies #[trigger] first[i] - first[0]
        <= WINDOW_MICROS by {
        assert(first[i] == times[i]);
        assert(times[i] - times[0] <= WINDOW_MICROS);
    }
    lemma_every_creation_counts(first);
}

} // verus!
