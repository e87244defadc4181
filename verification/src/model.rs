//! The mathematical model of the retry/accumulation engine.
//!
//! An operation is modelled as a fold over a trace: the sequence of
//! [`Event`]s that the underlying positional calls would report, in order.
//! The fold mirrors the engine's loop exactly: it accumulates positive
//! transfers, skips interrupted calls, and stops at the first terminal
//! event (a zero transfer or a fatal failure) or once the requested length
//! is reached.

use vstd::prelude::*;

use crate::types::Event;
use crate::types::PioError;

verus! {

/// The terminal analysis of a read loop over a trace of events.
pub enum ReadModel<E> {
    /// The buffer was filled; the payload is the accumulated byte count.
    Filled(int),
    /// A zero transfer ended the loop before the buffer was filled; the
    /// payload is the byte count accumulated up to that point.
    Eof(int),
    /// A non-interrupted failure aborted the loop.
    Fatal(E),
    /// The trace ended while the loop still wanted more events; the payload
    /// is the byte count accumulated so far.
    Pending(int),
}

/// The terminal analysis of a write loop over a trace of events.
pub enum WriteModel<E> {
    /// Every requested byte was written.
    Complete,
    /// The underlying call wrote zero bytes while data remained.
    ZeroProgress,
    /// A non-interrupted failure aborted the loop.
    Fatal(E),
    /// The trace ended while the loop still wanted more events; the payload
    /// is the byte count accumulated so far.
    Pending(int),
}

/// How a read loop that has already accumulated `total` of `len` requested
/// bytes terminates on the trace `events`.
pub open spec fn read_model<E>(len: int, total: int, events: Seq<Event<E>>) -> ReadModel<E>
    decreases events.len(),
{
    if total >= len {
        ReadModel::Filled(total)
    } else if events.len() == 0 {
        ReadModel::Pending(total)
    } else {
        match events[0] {
            Event::Transferred(n) => if n == 0 {
                ReadModel::Eof(total)
            } else {
                read_model(len, total + n as int, events.skip(1))
            },
            Event::Interrupted => read_model(len, total, events.skip(1)),
            Event::Failed(e) => ReadModel::Fatal(e),
        }
    }
}

/// How a write loop that has already accumulated `total` of `len` requested
/// bytes terminates on the trace `events`.
pub open spec fn write_model<E>(len: int, total: int, events: Seq<Event<E>>) -> WriteModel<E>
    decreases events.len(),
{
    if total >= len {
        WriteModel::Complete
    } else if events.len() == 0 {
        WriteModel::Pending(total)
    } else {
        match events[0] {
            Event::Transferred(n) => if n == 0 {
                WriteModel::ZeroProgress
            } else {
                write_model(len, total + n as int, events.skip(1))
            },
            Event::Interrupted => write_model(len, total, events.skip(1)),
            Event::Failed(e) => WriteModel::Fatal(e),
        }
    }
}

/// What an exact read of `len` bytes returns on the trace `events`, or
/// `None` if the trace ends before the operation terminates.
pub open spec fn exact_read_spec<E>(len: int, events: Seq<Event<E>>) -> Option<
    Result<(), PioError<E>>,
> {
    match read_model(len, 0, events) {
        ReadModel::Filled(_) => Some(Ok(())),
        ReadModel::Eof(_) => Some(Err(PioError::UnexpectedEof)),
        ReadModel::Fatal(e) => Some(Err(PioError::Underlying(e))),
        ReadModel::Pending(_) => None,
    }
}

/// What a best-effort read of up to `len` bytes returns on the trace
/// `events`: the accumulated count both when the buffer is filled and when
/// the source is exhausted early, or the failure; `None` if the trace ends
/// before the operation terminates.
pub open spec fn best_effort_read_spec<E>(len: int, events: Seq<Event<E>>) -> Option<
    Result<int, PioError<E>>,
> {
    match read_model(len, 0, events) {
        ReadModel::Filled(t) => Some(Ok(t)),
        ReadModel::Eof(t) => Some(Ok(t)),
        ReadModel::Fatal(e) => Some(Err(PioError::Underlying(e))),
        ReadModel::Pending(_) => None,
    }
}

/// What an exact write of `len` bytes returns on the trace `events`, or
/// `None` if the trace ends before the operation terminates.
pub open spec fn exact_write_spec<E>(len: int, events: Seq<Event<E>>) -> Option<
    Result<(), PioError<E>>,
> {
    match write_model(len, 0, events) {
        WriteModel::Complete => Some(Ok(())),
        WriteModel::ZeroProgress => Some(Err(PioError::WriteZero)),
        WriteModel::Fatal(e) => Some(Err(PioError::Underlying(e))),
        WriteModel::Pending(_) => None,
    }
}

/// A trace is well formed for a request of `len` bytes with `total` already
/// accumulated when no single call transfers more than the bytes then
/// remaining — the guarantee the host environment gives, since each call is
/// issued on exactly the remaining region of the buffer.
pub open spec fn wf_trace<E>(len: int, total: int, events: Seq<Event<E>>) -> bool
    decreases events.len(),
{
    events.len() == 0 || match events[0] {
        Event::Transferred(n) => total + n as int <= len && wf_trace(
            len,
            total + n as int,
            events.skip(1),
        ),
        Event::Interrupted => wf_trace(len, total, events.skip(1)),
        Event::Failed(_) => wf_trace(len, total, events.skip(1)),
    }
}

/// The number of bytes the trace transfers in total.
pub open spec fn transfer_sum<E>(events: Seq<Event<E>>) -> int
    decreases events.len(),
{
    if events.len() == 0 {
        0
    } else {
        (match events[0] {
            Event::Transferred(n) => n as int,
            Event::Interrupted => 0,
            Event::Failed(_) => 0,
        }) + transfer_sum(events.skip(1))
    }
}

/// Whether the event keeps the loop running: an interrupted call, or a
/// transfer of at least one byte.
pub open spec fn keeps_looping<E>(ev: Event<E>) -> bool {
    match ev {
        Event::Transferred(n) => n > 0,
        Event::Interrupted => true,
        Event::Failed(_) => false,
    }
}

/// Whether the event is a transfer of at least one byte.
pub open spec fn is_positive_transfer<E>(ev: Event<E>) -> bool {
    match ev {
        Event::Transferred(n) => n > 0,
        Event::Interrupted => false,
        Event::Failed(_) => false,
    }
}

/// The file position of each underlying call when a loop that starts at
/// position `base` consumes the whole trace: every event advances the
/// position by the bytes it transferred, so call `i` lands at `base` plus
/// the bytes transferred before it.
pub open spec fn call_positions<E>(base: int, events: Seq<Event<E>>) -> Seq<int>
    decreases events.len(),
{
    if events.len() == 0 {
        Seq::empty()
    } else {
        let next = match events[0] {
            Event::Transferred(n) => base + n as int,
            Event::Interrupted => base,
            Event::Failed(_) => base,
        };
        seq![base] + call_positions(next, events.skip(1))
    }
}

} // verus!
