//! The laws of the engine: how the three operations behave on whole classes
//! of traces.

use vstd::prelude::*;

use crate::model::best_effort_read_spec;
use crate::model::call_positions;
use crate::model::exact_read_spec;
use crate::model::exact_write_spec;
use crate::model::is_positive_transfer;
use crate::model::keeps_looping;
use crate::model::read_model;
use crate::model::transfer_sum;
use crate::model::write_model;
use crate::model::ReadModel;
use crate::model::WriteModel;
use crate::types::Event;
use crate::types::PioError;

verus! {

/// A trace never transfers a negative number of bytes.
proof fn lemma_transfer_sum_nonneg<E>(events: Seq<Event<E>>)
    ensures
        transfer_sum(events) >= 0,
    decreases events.len(),
{
    if events.len() > 0 {
        lemma_transfer_sum_nonneg(events.skip(1));
    }
}

/// There is one call position per event of the trace.
proof fn lemma_call_positions_len<E>(base: int, events: Seq<Event<E>>)
    ensures
        call_positions(base, events).len() == events.len(),
    decreases events.len(),
{
    if events.len() > 0 {
        let next = match events[0] {
            Event::Transferred(n) => base + n as int,
            Event::Interrupted => base,
            Event::Failed(_) => base,
        };
        lemma_call_positions_len(next, events.skip(1));
    }
}

/// On a trace of only positive transfers, the calls land at strictly
/// increasing positions.
proof fn lemma_call_positions_increasing<E>(base: int, events: Seq<Event<E>>)
    requires
        forall|j: int| 0 <= j < events.len() ==> is_positive_transfer(#[trigger] events[j]),
    ensures
        forall|j: int|
            0 <= j < events.len() - 1 ==> #[trigger] call_positions(base, events)[j]
                < call_positions(base, events)[j + 1],
    decreases events.len(),
{
    lemma_call_positions_len(base, events);
    if events.len() > 1 {
        let n = match events[0] {
            Event::Transferred(m) => m,
            Event::Interrupted => 0,
            Event::Failed(_) => 0,
        };
        let rest = call_positions(base + n as int, events.skip(1));
        assert forall|j: int| 0 <= j < events.skip(1).len() implies is_positive_transfer(
            #[trigger] events.skip(1)[j],
        ) by {
            assert(events.skip(1)[j] == events[j + 1]);
        }
        lemma_call_positions_increasing(base + n as int, events.skip(1));
        lemma_call_positions_len(base + n as int, events.skip(1));
        let pos = call_positions(base, events);
        assert forall|j: int| 0 <= j < events.len() - 1 implies #[trigger] pos[j] < pos[j
            + 1] by {
            if j == 0 {
                assert(events.skip(1).len() > 0);
                assert(rest[0] == base + n as int);
                assert(pos[1] == rest[0]);
                assert(is_positive_transfer(events[0]));
            } else {
                assert(pos[j] == rest[j - 1]);
                assert(pos[j + 1] == rest[j]);
                assert(rest[j - 1] < rest[j]);
            }
        }
    }
}

/// On a trace of positive transfers that together supply exactly the bytes
/// still missing, both loops run to completion.
proof fn lemma_positive_run<E>(len: int, total: int, events: Seq<Event<E>>)
    requires
        forall|j: int| 0 <= j < events.len() ==> is_positive_transfer(#[trigger] events[j]),
        total + transfer_sum(events) == len,
    ensures
        read_model(len, total, events) == ReadModel::<E>::Filled(len),
        write_model(len, total, events) == WriteModel::<E>::Complete,
    decreases events.len(),
{
    if events.len() == 0 {
        assert(transfer_sum(events) == 0);
    } else {
        assert(is_positive_transfer(events[0]));
        match events[0] {
            Event::Transferred(n) => {
                assert forall|j: int| 0 <= j < events.skip(1).len() implies is_positive_transfer(
                    #[trigger] events.skip(1)[j],
                ) by {
                    assert(events.skip(1)[j] == events[j + 1]);
                }
                lemma_transfer_sum_nonneg(events.skip(1));
                assert(total < len);
                lemma_positive_run(len, total + n as int, events.skip(1));
            },
            Event::Interrupted => {
                assert(false);
            },
            Event::Failed(_) => {
                assert(false);
            },
        }
    }
}

/// For every requested length and every trace of positive transfers that
/// sum to exactly that length, with no zero transfer before completion,
/// both the exact read and the exact write succeed, transferring exactly
/// the requested bytes, and the best-effort read returns the full length;
/// the underlying calls land at strictly increasing positions, in offset
/// order.
pub proof fn lemma_exact_transfers_succeed<E>(len: int, base: int, events: Seq<Event<E>>)
    requires
        forall|j: int| 0 <= j < events.len() ==> is_positive_transfer(#[trigger] events[j]),
        transfer_sum(events) == len,
    ensures
        exact_read_spec(len, events) == Some(Ok::<(), PioError<E>>(())),
        best_effort_read_spec(len, events) == Some(Ok::<int, PioError<E>>(len)),
        exact_write_spec(len, events) == Some(Ok::<(), PioError<E>>(())),
        call_positions(base, events).len() == events.len(),
        forall|j: int|
            0 <= j < events.len() - 1 ==> #[trigger] call_positions(base, events)[j]
                < call_positions(base, events)[j + 1],
{
    lemma_positive_run(len, 0, events);
    lemma_call_positions_len(base, events);
    lemma_call_positions_increasing(base, events);
}

/// Skipping an interrupted call changes nothing for a loop that has
/// already accumulated `total` bytes: a trace with an interrupted event
/// spliced in anywhere leads to the very same end state as the trace
/// without it.
proof fn lemma_interrupted_skipped<E>(
    len: int,
    total: int,
    events: Seq<Event<E>>,
    i: int,
)
    requires
        0 <= i <= events.len(),
    ensures
        read_model(len, total, events.insert(i, Event::Interrupted)) == read_model(
            len,
            total,
            events,
        ),
        write_model(len, total, events.insert(i, Event::Interrupted)) == write_model(
            len,
            total,
            events,
        ),
    decreases i,
{
    let spliced = events.insert(i, Event::<E>::Interrupted);
    events.insert_ensures(i, Event::<E>::Interrupted);
    if total >= len {
    } else if i == 0 {
        assert(spliced[0] == Event::<E>::Interrupted);
        assert(spliced.skip(1) =~= events);
    } else {
        assert(spliced[0] == events[0]);
        assert(spliced.skip(1) =~= events.skip(1).insert(i - 1, Event::<E>::Interrupted)) by {
            events.skip(1).insert_ensures(i - 1, Event::<E>::Interrupted);
            assert forall|j: int| 0 <= j < spliced.len() - 1 implies spliced.skip(1)[j]
                == events.skip(1).insert(i - 1, Event::<E>::Interrupted)[j] by {
                assert(spliced.skip(1)[j] == spliced[j + 1]);
                if j < i - 1 {
                    assert(spliced[j + 1] == events[j + 1]);
                    assert(events.skip(1)[j] == events[j + 1]);
                } else if j == i - 1 {
                } else {
                    assert(spliced[j + 1] == events[j]);
                    assert(events.skip(1)[j - 1] == events[j]);
                }
            }
        }
        match events[0] {
            Event::Transferred(n) => {
                if n > 0 {
                    lemma_interrupted_skipped(len, total + n as int, events.skip(1), i - 1);
                }
            },
            Event::Interrupted => {
                lemma_interrupted_skipped(len, total, events.skip(1), i - 1);
            },
            Event::Failed(_) => {},
        }
    }
}

/// If any underlying call of the trace reports the interrupted condition,
/// each of the three operations ends in the same state as on the trace
/// with that call skipped: the retry is idempotent, and no byte is read or
/// written twice.
pub proof fn lemma_interrupted_transparent<E>(len: int, events: Seq<Event<E>>, i: int)
    requires
        0 <= i <= events.len(),
    ensures
        exact_read_spec(len, events.insert(i, Event::Interrupted)) == exact_read_spec(
            len,
            events,
        ),
        best_effort_read_spec(len, events.insert(i, Event::Interrupted)) == best_effort_read_spec(
            len,
            events,
        ),
        exact_write_spec(len, events.insert(i, Event::Interrupted)) == exact_write_spec(
            len,
            events,
        ),
{
    lemma_interrupted_skipped(len, 0, events, i);
}

/// Both loops run straight through a prefix of non-terminal events,
/// accumulating exactly the bytes the prefix transfers, as long as that
/// leaves the request unfilled.
proof fn lemma_run_through_prefix<E>(len: int, total: int, events: Seq<Event<E>>, k: int)
    requires
        0 <= k <= events.len(),
        forall|j: int| 0 <= j < k ==> keeps_looping(#[trigger] events[j]),
        total + transfer_sum(events.take(k)) < len,
    ensures
        read_model(len, total, events) == read_model(
            len,
            total + transfer_sum(events.take(k)),
            events.skip(k),
        ),
        write_model(len, total, events) == write_model(
            len,
            total + transfer_sum(events.take(k)),
            events.skip(k),
        ),
    decreases k,
{
    if k == 0 {
        assert(events.take(0).len() == 0);
        assert(events.skip(0) =~= events);
    } else {
        let prefix = events.take(k);
        let tail = events.skip(1);
        assert(keeps_looping(events[0]));
        assert(prefix[0] == events[0]);
        assert(prefix.skip(1) =~= tail.take(k - 1));
        assert(transfer_sum(prefix) == (match events[0] {
            Event::Transferred(n) => n as int,
            Event::Interrupted => 0,
            Event::Failed(_) => 0,
        }) + transfer_sum(tail.take(k - 1)));
        assert forall|j: int| 0 <= j < k - 1 implies keeps_looping(#[trigger] tail[j]) by {
            assert(tail[j] == events[j + 1]);
        }
        lemma_transfer_sum_nonneg(tail.take(k - 1));
        assert(tail.skip(k - 1) =~= events.skip(k));
        match events[0] {
            Event::Transferred(n) => {
                assert(total < len) by {
                    lemma_transfer_sum_nonneg(prefix);
                }
                lemma_run_through_prefix(len, total + n as int, tail, k - 1);
            },
            Event::Interrupted => {
                assert(total < len) by {
                    lemma_transfer_sum_nonneg(prefix);
                }
                lemma_run_through_prefix(len, total, tail, k - 1);
            },
            Event::Failed(_) => {
                assert(false);
            },
        }
    }
}

/// If the source is exhausted before the requested length is read — the
/// call at position `k` transfers zero bytes while fewer bytes than
/// requested have accumulated — the exact read fails with the
/// unexpected-end-of-file error, while the best-effort read succeeds and
/// returns the lesser accumulated count.
pub proof fn lemma_source_exhausted<E>(len: int, events: Seq<Event<E>>, k: int)
    requires
        0 <= k < events.len(),
        forall|j: int| 0 <= j < k ==> keeps_looping(#[trigger] events[j]),
        events[k] == Event::<E>::Transferred(0),
        transfer_sum(events.take(k)) < len,
    ensures
        exact_read_spec(len, events) == Some(Err::<(), PioError<E>>(PioError::UnexpectedEof)),
        best_effort_read_spec(len, events) == Some(
            Ok::<int, PioError<E>>(transfer_sum(events.take(k))),
        ),
{
    lemma_run_through_prefix(len, 0, events, k);
    lemma_transfer_sum_nonneg(events.take(k));
    let t = transfer_sum(events.take(k));
    assert(events.skip(k)[0] == events[k]);
    assert(read_model(len, t, events.skip(k)) == ReadModel::<E>::Eof(t));
}

/// If an underlying write call transfers zero bytes while the buffer is
/// still non-empty — whatever bytes earlier calls of the operation already
/// wrote — the exact write fails with the zero-progress error.
pub proof fn lemma_write_zero_progress<E>(len: int, events: Seq<Event<E>>, k: int)
    requires
        0 <= k < events.len(),
        forall|j: int| 0 <= j < k ==> keeps_looping(#[trigger] events[j]),
        events[k] == Event::<E>::Transferred(0),
        transfer_sum(events.take(k)) < len,
    ensures
        exact_write_spec(len, events) == Some(Err::<(), PioError<E>>(PioError::WriteZero)),
{
    lemma_run_through_prefix(len, 0, events, k);
    lemma_transfer_sum_nonneg(events.take(k));
    let t = transfer_sum(events.take(k));
    assert(events.skip(k)[0] == events[k]);
    assert(write_model(len, t, events.skip(k)) == WriteModel::<E>::ZeroProgress);
}

/// A zero-length request succeeds at once, for every trace: no underlying
/// call is consumed, the exact operations return success, and the
/// best-effort read returns a count of zero.
pub proof fn lemma_zero_length_trivial<E>(events: Seq<Event<E>>)
    ensures
        exact_read_spec(0, events) == Some(Ok::<(), PioError<E>>(())),
        best_effort_read_spec(0, events) == Some(Ok::<int, PioError<E>>(0)),
        exact_write_spec(0, events) == Some(Ok::<(), PioError<E>>(())),
{
}

} // verus!
