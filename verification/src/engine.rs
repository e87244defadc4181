//! The executable engine: the per-event decisions a host I/O loop drives,
//! and the full retry/accumulation loops run over a recorded trace.

use vstd::prelude::*;

use crate::model::best_effort_read_spec;
use crate::model::exact_read_spec;
use crate::model::exact_write_spec;
use crate::model::read_model;
use crate::model::wf_trace;
use crate::model::write_model;
use crate::model::ReadModel;
use crate::model::WriteModel;
use crate::types::Event;
use crate::types::PioError;
use crate::types::ReadStep;
use crate::types::WriteStep;

verus! {

/// The position of the next underlying call: the operation's starting
/// offset advanced by the bytes accumulated so far.
pub fn next_offset(base: u64, total: usize) -> (r: u64)
    requires
        base + total <= u64::MAX,
    ensures
        r == base + total,
{
    base + (total as u64)
}

/// Decide how a read operation proceeds after one underlying call reported
/// `ev`, with `total` of `len` requested bytes accumulated so far.
pub fn read_step<E>(len: usize, total: usize, ev: Event<E>) -> (r: ReadStep<E>)
    requires
        total < len,
        ev matches Event::Transferred(n) ==> total + n <= len,
    ensures
        r == (match ev {
            Event::Transferred(n) => if n == 0 {
                ReadStep::<E>::Eof
            } else {
                ReadStep::<E>::Advanced((total + n) as usize)
            },
            Event::Interrupted => ReadStep::<E>::Retry,
            Event::Failed(e) => ReadStep::<E>::Abort(e),
        }),
{
    match ev {
        Event::Transferred(n) => if n == 0 {
            ReadStep::Eof
        } else {
            ReadStep::Advanced(total + n)
        },
        Event::Interrupted => ReadStep::Retry,
        Event::Failed(e) => ReadStep::Abort(e),
    }
}

/// Decide how a write operation proceeds after one underlying call reported
/// `ev`, with `total` of `len` requested bytes accumulated so far.
pub fn write_step<E>(len: usize, total: usize, ev: Event<E>) -> (r: WriteStep<E>)
    requires
        total < len,
        ev matches Event::Transferred(n) ==> total + n <= len,
    ensures
        r == (match ev {
            Event::Transferred(n) => if n == 0 {
                WriteStep::<E>::ZeroProgress
            } else {
                WriteStep::<E>::Advanced((total + n) as usize)
            },
            Event::Interrupted => WriteStep::<E>::Retry,
            Event::Failed(e) => WriteStep::<E>::Abort(e),
        }),
{
    match ev {
        Event::Transferred(n) => if n == 0 {
            WriteStep::ZeroProgress
        } else {
            WriteStep::Advanced(total + n)
        },
        Event::Interrupted => WriteStep::Retry,
        Event::Failed(e) => WriteStep::Abort(e),
    }
}

/// Run the exact-read retry loop over the recorded trace `events`: read
/// exactly `len` bytes or fail. The trace must be well formed and long
/// enough to decide the operation.
pub fn exact_read_over<E>(len: usize, events: Vec<Event<E>>) -> (r: Result<(), PioError<E>>)
    requires
        wf_trace(len as int, 0, events@),
        exact_read_spec(len as int, events@) is Some,
    ensures
        Some(r) == exact_read_spec(len as int, events@),
{
    let ghost trace: Seq<Event<E>> = events@;
    let mut evs = events;
    let mut total: usize = 0;
    #[verifier::loop_isolation(false)]
    while total < len
        invariant
            total <= len,
            wf_trace(len as int, total as int, evs@),
            read_model(len as int, total as int, evs@) == read_model(len as int, 0, trace),
            exact_read_spec(len as int, trace) is Some,
        decreases evs@.len(),
    {
        proof {
            if evs@.len() == 0 {
                assert(read_model(len as int, total as int, evs@) == ReadModel::<E>::Pending(
                    total as int,
                ));
            }
        }
        let ghost before: Seq<Event<E>> = evs@;
        let ev = evs.remove(0);
        proof {
            assert(evs@ =~= before.skip(1));
        }
        match read_step(len, total, ev) {
            ReadStep::Advanced(t) => {
                total = t;
            },
            ReadStep::Retry => {},
            ReadStep::Eof => {
                return Err(PioError::UnexpectedEof);
            },
            ReadStep::Abort(e) => {
                return Err(PioError::Underlying(e));
            },
        }
    }
    Ok(())
}

/// Run the best-effort-read retry loop over the recorded trace `events`:
/// read up to `len` bytes, returning the count accumulated when the buffer
/// is filled or the source is exhausted, whichever comes first. The trace
/// must be well formed and long enough to decide the operation.
pub fn best_effort_read_over<E>(len: usize, events: Vec<Event<E>>) -> (r: Result<
    usize,
    PioError<E>,
>)
    requires
        wf_trace(len as int, 0, events@),
        best_effort_read_spec(len as int, events@) is Some,
    ensures
        best_effort_read_spec(len as int, events@) == (match r {
            Ok(t) => Some(Ok::<int, PioError<E>>(t as int)),
            Err(e) => Some(Err::<int, PioError<E>>(e)),
        }),
{
    let ghost trace: Seq<Event<E>> = events@;
    let mut evs = events;
    let mut total: usize = 0;
    #[verifier::loop_isolation(false)]
    while total < len
        invariant
            total <= len,
            wf_trace(len as int, total as int, evs@),
            read_model(len as int, total as int, evs@) == read_model(len as int, 0, trace),
            best_effort_read_spec(len as int, trace) is Some,
        decreases evs@.len(),
    {
        proof {
            if evs@.len() == 0 {
                assert(read_model(len as int, total as int, evs@) == ReadModel::<E>::Pending(
                    total as int,
                ));
            }
        }
        let ghost before: Seq<Event<E>> = evs@;
        let ev = evs.remove(0);
        proof {
            assert(evs@ =~= before.skip(1));
        }
        match read_step(len, total, ev) {
            ReadStep::Advanced(t) => {
                total = t;
            },
            ReadStep::Retry => {},
            ReadStep::Eof => {
                return Ok(total);
            },
            ReadStep::Abort(e) => {
                return Err(PioError::Underlying(e));
            },
        }
    }
    Ok(total)
}

/// Run the exact-write retry loop over the recorded trace `events`: write
/// exactly `len` bytes or fail, treating a zero transfer as an
/// unconditional failure. The trace must be well formed and long enough to
/// decide the operation.
pub fn exact_write_over<E>(len: usize, events: Vec<Event<E>>) -> (r: Result<(), PioError<E>>)
    requires
        wf_trace(len as int, 0, events@),
        exact_write_spec(len as int, events@) is Some,
    ensures
        Some(r) == exact_write_spec(len as int, events@),
{
    let ghost trace: Seq<Event<E>> = events@;
    let mut evs = events;
    let mut total: usize = 0;
    #[verifier::loop_isolation(false)]
    while total < len
        invariant
            total <= len,
            wf_trace(len as int, total as int, evs@),
            write_model(len as int, total as int, evs@) == write_model(len as int, 0, trace),
            exact_write_spec(len as int, trace) is Some,
        decreases evs@.len(),
    {
        proof {
            if evs@.len() == 0 {
                assert(write_model(len as int, total as int, evs@) == WriteModel::<E>::Pending(
                    total as int,
                ));
            }
        }
        let ghost before: Seq<Event<E>> = evs@;
        let ev = evs.remove(0);
        proof {
            assert(evs@ =~= before.skip(1));
        }
        match write_step(len, total, ev) {
            WriteStep::Advanced(t) => {
                total = t;
            },
            WriteStep::Retry => {},
            WriteStep::ZeroProgress => {
                return Err(PioError::WriteZero);
            },
            WriteStep::Abort(e) => {
                return Err(PioError::Underlying(e));
            },
        }
    }
    Ok(())
}

} // verus!
