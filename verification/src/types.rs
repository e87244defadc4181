//! The values exchanged between the engine and the host loop that performs
//! the underlying positional I/O calls.

use vstd::prelude::*;

verus! {

/// What one underlying positional transfer call reported.
///
/// The error type `E` is whatever failure value the host environment
/// produces; the engine never inspects it, it only classifies and
/// propagates it.
#[derive(Debug, Clone, Copy, PartialEq, Eq)]
pub enum Event<E> {
    /// The call transferred `n` bytes. For reads, `n == 0` means the source
    /// is exhausted (true end-of-file); for writes, `n == 0` means no
    /// progress can be made.
    Transferred(usize),
    /// The transient interrupted condition: the same call must be reissued
    /// without advancing any state.
    Interrupted,
    /// Any other failure: fatal to the operation, passed through unchanged.
    Failed(E),
}

/// A failure surfaced by one of the three operations.
#[derive(Debug, Clone, Copy, PartialEq, Eq)]
pub enum PioError<E> {
    /// An exact read reached end-of-file before the requested length was
    /// filled.
    UnexpectedEof,
    /// An exact write saw the underlying call transfer zero bytes while
    /// data remained to be written.
    WriteZero,
    /// A non-interrupted failure of the underlying call, unchanged.
    Underlying(E),
}

/// The engine's decision after one underlying read call, for both the
/// exact and the best-effort read operations.
#[derive(Debug, Clone, Copy, PartialEq, Eq)]
pub enum ReadStep<E> {
    /// `n > 0` bytes arrived: the accumulated total becomes the payload,
    /// and the loop continues if the buffer is still unfilled.
    Advanced(usize),
    /// The call was interrupted: reissue it without advancing state.
    Retry,
    /// Zero bytes arrived: the source is exhausted, stop looping.
    Eof,
    /// A fatal failure: abort the operation and propagate it.
    Abort(E),
}

/// The engine's decision after one underlying write call.
#[derive(Debug, Clone, Copy, PartialEq, Eq)]
pub enum WriteStep<E> {
    /// `n > 0` bytes were written: the accumulated total becomes the
    /// payload, and the loop continues if data remains.
    Advanced(usize),
    /// The call was interrupted: reissue it without advancing state.
    Retry,
    /// Zero bytes were written while data remained: always fatal.
    ZeroProgress,
    /// A fatal failure: abort the operation and propagate it.
    Abort(E),
}

} // verus!
