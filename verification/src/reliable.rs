//! Collecting a reliable client event from the chunks of its stream, up to
//! a size limit.
use vstd::prelude::*;

verus! {

/// The largest reliable client event, in bytes.
pub const MAX_RELIABLE_EVENT_SIZE: usize = 64 * 1024;

/// Why a reliable client event was refused.
#[derive(Clone, Copy, Debug, PartialEq, Eq, Structural)]
pub enum ReliableEventError {
    /// The event exceeded `MAX_RELIABLE_EVENT_SIZE` bytes.
    TooLarge,
}

/// Appends the next chunk read from a reliable stream to the event payload
/// collected so far, refusing the event (and leaving the payload as it was)
/// when the payload would exceed `MAX_RELIABLE_EVENT_SIZE` bytes.
pub fn append_reliable_chunk(payload: &mut Vec<u8>, chunk: &[u8]) -> (r: Result<
    (),
    ReliableEventError,
>)
    ensures
        r is Err <==> old(payload)@.len() + chunk@.len() > MAX_RELIABLE_EVENT_SIZE,
        r is Ok ==> final(payload)@ == old(payload)@ + chunk@,
        r is Ok ==> final(payload)@.len() <= MAX_RELIABLE_EVENT_SIZE,
        r is Err ==> final(payload)@ == old(payload)@,
{
    if payload.len() > MAX_RELIABLE_EVENT_SIZE || chunk.len() > MAX_RELIABLE_EVENT_SIZE
        - payload.len() {
        return Err(ReliableEventError::TooLarge);
    }
    let ghost before = payload@;
    let mut i: usize = 0;
    while i < chunk.len()
        invariant
            i <= chunk@.len(),
            payload@ == before + chunk@.take(i as int),
        decreases chunk@.len() - i,
    {
        payload.push(chunk[i]);
        assert(chunk@.take(i + 1) =~= chunk@.take(i as int).push(chunk@[i as int]));
        i = i + 1;
    }
    assert(chunk@.take(chunk@.len() as int) =~= chunk@);
    Ok(())
}

} // verus!
