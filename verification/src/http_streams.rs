//! What one poll of a stream's end means for the stream.
use vstd::prelude::*;

verus! {

/// What a producer does after polling its source.
pub enum ProduceStep<T> {
    /// Hand this item to the reader; more may follow.
    Deliver(T),
    /// The source is closed: end the stream.
    Ended,
    /// Nothing yet.
    Wait,
}

/// What a consumer does when it is polled.
#[derive(Debug, Clone, Copy, PartialEq, Eq, Structural)]
pub enum ConsumeStep {
    /// Stop without reading: the writer asked to wrap up.
    Cancel,
    /// Nothing to read: the source is drained.
    Drop,
    /// Read everything that is available.
    Read,
}

/// What a poll of the caller's frames means for the response body: each frame is
/// one batch of bytes, the end ends the body.
pub fn response_body_step(polled: Option<Option<Vec<u8>>>) -> (step: ProduceStep<Vec<u8>>)
    ensures
        match polled {
            None => step is Wait,
            Some(None) => step is Ended,
            Some(Some(frame)) => step matches ProduceStep::Deliver(bytes) && bytes == frame,
        },
{
    match polled {
        None => ProduceStep::Wait,
        Some(None) => ProduceStep::Ended,
        Some(Some(frame)) => ProduceStep::Deliver(frame),
    }
}

/// What a consumer of the guest's body or trailers does with `available` items,
/// where `finish` asks it to wrap up.
pub fn consume_step(finish: bool, available: usize) -> (step: ConsumeStep)
    ensures
        step == (if finish {
            ConsumeStep::Cancel
        } else if available == 0 {
            ConsumeStep::Drop
        } else {
            ConsumeStep::Read
        }),
{
    if finish {
        return ConsumeStep::Cancel;
    }
    if available == 0 {
        return ConsumeStep::Drop;
    }
    ConsumeStep::Read
}

/// Each frame of the caller is one batch of the body, unchanged; the end of its
/// stream ends the body, and nothing else does.
pub proof fn law_frames_are_the_body(
    polled: Option<Option<Vec<u8>>>,
    step: ProduceStep<Vec<u8>>,
)
    requires
        call_ensures(response_body_step, (polled,), step),
    ensures
        step is Wait <==> polled is None,
        step is Ended <==> polled == Some(None::<Vec<u8>>),
        polled matches Some(Some(frame)) ==> step matches ProduceStep::Deliver(bytes) && bytes@
            == frame@,
{
}

/// A consumer reads whenever there is something and it is not asked to wrap up.
pub proof fn law_consumer_reads_what_there_is(finish: bool, available: usize, step: ConsumeStep)
    requires
        call_ensures(consume_step, (finish, available), step),
    ensures
        step is Cancel <==> finish,
        step is Drop <==> !finish && available == 0,
        step is Read <==> !finish && available > 0,
{
}

} // verus!
