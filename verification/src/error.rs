//! The failures of an endpoint, and the rules that sort what the platform and
//! the codec report into them.

use vstd::prelude::*;

verus! {

/// Why a call on an endpoint failed. `source` is the cause as the platform
/// (type `P`) or the codec (type `C`) reported it, `id` the segment's id. The
/// rules below never look into a cause: they hand it on as it came.
#[allow(inconsistent_fields)]
#[derive(Debug, PartialEq, Eq)]
pub enum IpcError<P, C> {
    /// The segment could not be created.
    ShmemCreateError { source: P, id: u64 },
    /// The segment could not be opened.
    ShmemOpenError { source: P, id: u64 },
    /// A segment with this id is there already and belongs to someone else.
    FileExistsError { id: u64 },
    /// The segment's lock could not be taken.
    ShmemWriteError { source: P, id: u64 },
    /// The ring buffer stayed full. No function of this crate gives up on a
    /// full buffer, so none returns this: it is for a driver that bounds the
    /// time it waits for room.
    OutOfMemortError { id: u64 },
    /// The value could not be turned into bytes.
    SerializationError { source: C },
    /// The bytes received could not be turned into a value.
    DeserializationError { source: C },
}

/// Why the platform did not create a segment.
#[derive(Debug, PartialEq, Eq)]
pub enum CreateFailure<P> {
    /// A segment with this id is there already.
    Exists,
    /// Anything else, with the platform's cause.
    Other(P),
}

/// Judges an attempt to create the segment `id`. The platform either hands
/// over the segment together with whether this endpoint owns it, or says why
/// it created none. A segment that is there already, whether the platform
/// refused to create a second one or attached this endpoint to the first
/// without making it the owner, is `FileExistsError`, never
/// `ShmemCreateError`; a segment that was handed over is then let go.
pub fn created<T, P, C>(id: u64, attempt: Result<(T, bool), CreateFailure<P>>) -> (outcome: Result<
    T,
    IpcError<P, C>,
>)
    ensures
        outcome == (match attempt {
            Ok(pair) => if pair.1 {
                Ok::<T, IpcError<P, C>>(pair.0)
            } else {
                Err(IpcError::FileExistsError { id })
            },
            Err(CreateFailure::Exists) => Err(IpcError::FileExistsError { id }),
            Err(CreateFailure::Other(cause)) => Err(IpcError::ShmemCreateError { source: cause, id }),
        }),
{
    match attempt {
        Ok(pair) => {
            if pair.1 {
                Ok(pair.0)
            } else {
                Err(IpcError::FileExistsError { id })
            }
        },
        Err(CreateFailure::Exists) => Err(IpcError::FileExistsError { id }),
        Err(CreateFailure::Other(cause)) => Err(IpcError::ShmemCreateError { source: cause, id }),
    }
}

/// Judges an attempt to open the segment `id`: the segment passes through, a
/// failure becomes `ShmemOpenError` with the platform's cause.
pub fn opened<T, P, C>(id: u64, attempt: Result<T, P>) -> (outcome: Result<T, IpcError<P, C>>)
    ensures
        outcome == (match attempt {
            Ok(segment) => Ok::<T, IpcError<P, C>>(segment),
            Err(cause) => Err(IpcError::ShmemOpenError { source: cause, id }),
        }),
{
    match attempt {
        Ok(segment) => Ok(segment),
        Err(cause) => Err(IpcError::ShmemOpenError { source: cause, id }),
    }
}

/// Judges an attempt to take the lock of the segment `id`: the guard passes
/// through, a failure becomes `ShmemWriteError` with the platform's cause.
pub fn locked<T, P, C>(id: u64, attempt: Result<T, P>) -> (outcome: Result<T, IpcError<P, C>>)
    ensures
        outcome == (match attempt {
            Ok(guard) => Ok::<T, IpcError<P, C>>(guard),
            Err(cause) => Err(IpcError::ShmemWriteError { source: cause, id }),
        }),
{
    match attempt {
        Ok(guard) => Ok(guard),
        Err(cause) => Err(IpcError::ShmemWriteError { source: cause, id }),
    }
}

/// Judges what the codec made of a value to send: the bytes pass through, a
/// failure becomes `SerializationError` with the codec's cause.
pub fn encoded<P, C>(attempt: Result<Vec<u8>, C>) -> (outcome: Result<Vec<u8>, IpcError<P, C>>)
    ensures
        outcome == (match attempt {
            Ok(bytes) => Ok::<Vec<u8>, IpcError<P, C>>(bytes),
            Err(cause) => Err(IpcError::SerializationError { source: cause }),
        }),
{
    match attempt {
        Ok(bytes) => Ok(bytes),
        Err(cause) => Err(IpcError::SerializationError { source: cause }),
    }
}

/// Judges what the codec made of the bytes received: the value passes
/// through, a failure becomes `DeserializationError` with the codec's cause.
pub fn decoded<T, P, C>(attempt: Result<T, C>) -> (outcome: Result<T, IpcError<P, C>>)
    ensures
        outcome == (match attempt {
            Ok(value) => Ok::<T, IpcError<P, C>>(value),
            Err(cause) => Err(IpcError::DeserializationError { source: cause }),
        }),
{
    match attempt {
        Ok(value) => Ok(value),
        Err(cause) => Err(IpcError::DeserializationError { source: cause }),
    }
}

} // verus!
