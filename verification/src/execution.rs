//! What a table scan hands to the operator that pulls from it.

use vstd::prelude::*;

use crate::arrays::batch::Batch;
use crate::error::RayexecError;

verus! {

/// The outcome of pulling from a scan.
#[derive(Debug, PartialEq)]
pub enum PollPull {
    /// Successfully received a data batch.
    Batch(Batch),
    /// A batch could not be be retrieved right now.
    Pending,
    /// The scan has been exhausted for this partition.
    Exhausted,
}

/// What polling the stream under a scan gave.
#[derive(Debug, PartialEq)]
pub enum StreamEvent {
    /// The stream is ready: with a batch, with an error, or with its end.
    Ready(Option<Result<Batch, RayexecError>>),
    /// The stream has nothing yet.
    Pending,
}

/// What a scan answers for what its stream gave: the batch, the error, the
/// end of the scan, or that nothing is there yet.
pub fn poll_pull(event: StreamEvent) -> (r: Result<PollPull, RayexecError>)
    ensures
        r == (match event {
            StreamEvent::Ready(Some(Ok(batch))) => Ok::<PollPull, RayexecError>(
                PollPull::Batch(batch),
            ),
            StreamEvent::Ready(Some(Err(e))) => Err::<PollPull, RayexecError>(e),
            StreamEvent::Ready(None) => Ok::<PollPull, RayexecError>(PollPull::Exhausted),
            StreamEvent::Pending => Ok::<PollPull, RayexecError>(PollPull::Pending),
        }),
{
    match event {
        StreamEvent::Ready(Some(Ok(batch))) => Ok(PollPull::Batch(batch)),
        StreamEvent::Ready(Some(Err(e))) => Err(e),
        StreamEvent::Ready(None) => Ok(PollPull::Exhausted),
        StreamEvent::Pending => Ok(PollPull::Pending),
    }
}

} // verus!
