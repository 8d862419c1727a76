//! The stages of extracting an archive that comes as a stream.
//!
//! An archive can be unpacked while it is read. Where that does not work, the
//! stream is read into a buffer first, and whatever an earlier attempt has left
//! behind is removed. Either way the hashes and the size are those of the whole
//! stream.
use crate::digest;
use crate::digest::ExtractResult;
use crate::error::{ExtractError, IoError, IoErrorKind};
use crate::extraction::Node;
use vstd::prelude::*;
use vstd::string::*;

verus! {

/// How a stream is extracted.
#[derive(Debug, Clone, Copy, PartialEq, Eq, Structural)]
pub enum Method {
    /// It is unpacked while it is read.
    Streaming,
    /// It is read into a buffer and unpacked from there.
    Buffering,
}

/// What is done next.
#[derive(Debug, PartialEq, Eq)]
pub enum Stage {
    /// It is checked whether the destination exists.
    CheckDestination,
    /// The destination is removed, with everything in it.
    RemoveDestination,
    /// The destination is made, with the directories it is in.
    CreateDestination,
    /// The stream is read into a buffer, and hashed.
    Buffer,
    /// The buffer is set back to its beginning.
    Rewind(ExtractResult),
    /// The buffer is unpacked.
    UnpackBuffer(ExtractResult),
    /// The stream is unpacked, and hashed.
    UnpackStream,
    /// What is left of the stream is read, and hashed.
    Drain,
    /// The extraction is over.
    Finished(Result<ExtractResult, ExtractError>),
}

/// What came of a stage.
#[derive(Debug, PartialEq, Eq)]
pub enum Event {
    /// It was done.
    Done,
    /// The destination exists, or does not.
    Exists(bool),
    /// The whole stream was read, with these hashes and this size.
    AllRead(ExtractResult),
    /// It failed.
    Failed(IoError),
    /// Unpacking failed.
    UnpackFailed(ExtractError),
}

/// The first stage.
pub open spec fn first(method: Method) -> Stage {
    match method {
        Method::Streaming => Stage::CreateDestination,
        Method::Buffering => Stage::CheckDestination,
    }
}

/// Whether a stage is the end of an extraction that read nothing.
pub open spec fn is_truncated(stage: Stage) -> bool {
    stage matches Stage::Finished(Err(ExtractError::IoError(e))) && e.says(
        IoErrorKind::UnexpectedEof,
        "no data was read from the package stream - the stream may have been truncated"@,
    )
}

/// Whether a stage is the one behind another, with what came of that one. A
/// stage stays where it is when what came does not belong to it.
pub open spec fn follows(method: Method, stage: Stage, event: Event, next: Stage) -> bool {
    match (stage, event) {
        (Stage::CheckDestination, Event::Exists(there)) => next == if there {
            Stage::RemoveDestination
        } else {
            Stage::CreateDestination
        },
        (Stage::CheckDestination, Event::Failed(e)) => next == Stage::Finished(
            Err(ExtractError::IoError(e)),
        ),
        (Stage::RemoveDestination, Event::Done) => next == Stage::CreateDestination,
        (Stage::RemoveDestination, Event::Failed(e)) => next == Stage::Finished(
            Err(ExtractError::CouldNotCreateDestination(e)),
        ),
        (Stage::CreateDestination, Event::Done) => next == match method {
            Method::Streaming => Stage::UnpackStream,
            Method::Buffering => Stage::Buffer,
        },
        (Stage::CreateDestination, Event::Failed(e)) => next == Stage::Finished(
            Err(ExtractError::CouldNotCreateDestination(e)),
        ),
        (Stage::Buffer, Event::AllRead(result)) => if result.total_size == 0 {
            is_truncated(next)
        } else {
            next == Stage::Rewind(result)
        },
        (Stage::Buffer, Event::Failed(e)) => next == Stage::Finished(
            Err(ExtractError::IoError(e)),
        ),
        (Stage::Rewind(result), Event::Done) => next == Stage::UnpackBuffer(result),
        (Stage::Rewind(_), Event::Failed(e)) => next == Stage::Finished(
            Err(ExtractError::IoError(e)),
        ),
        (Stage::UnpackBuffer(result), Event::Done) => next == Stage::Finished(Ok(result)),
        (Stage::UnpackBuffer(_), Event::UnpackFailed(e)) => next == Stage::Finished(Err(e)),
        (Stage::UnpackStream, Event::Done) => next == Stage::Drain,
        (Stage::UnpackStream, Event::UnpackFailed(e)) => next == Stage::Finished(Err(e)),
        (Stage::Drain, Event::AllRead(result)) => if result.total_size == 0 {
            is_truncated(next)
        } else {
            next == Stage::Finished(Ok(result))
        },
        (Stage::Drain, Event::Failed(e)) => next == Stage::Finished(Err(ExtractError::IoError(e))),
        _ => next == stage,
    }
}

/// The first stage of extracting a stream.
pub fn first_stage(method: Method) -> (stage: Stage)
    ensures
        stage == first(method),
{
    match method {
        Method::Streaming => Stage::CreateDestination,
        Method::Buffering => Stage::CheckDestination,
    }
}

/// The failure of a stream that nothing was read from.
fn truncated() -> (stage: Stage)
    ensures
        is_truncated(stage),
{
    Stage::Finished(
        Err(
            ExtractError::IoError(
                IoError::new(
                    IoErrorKind::UnexpectedEof,
                    "no data was read from the package stream - the stream may have been truncated",
                ),
            ),
        ),
    )
}

/// Decides which stage is behind another, given what came of that one.
pub fn next_stage(method: Method, stage: Stage, event: Event) -> (next: Stage)
    ensures
        follows(method, stage, event, next),
{
    match (stage, event) {
        (Stage::CheckDestination, Event::Exists(there)) => if there {
            Stage::RemoveDestination
        } else {
            Stage::CreateDestination
        },
        (Stage::CheckDestination, Event::Failed(e)) => Stage::Finished(
            Err(ExtractError::IoError(e)),
        ),
        (Stage::RemoveDestination, Event::Done) => Stage::CreateDestination,
        (Stage::RemoveDestination, Event::Failed(e)) => Stage::Finished(
            Err(ExtractError::CouldNotCreateDestination(e)),
        ),
        (Stage::CreateDestination, Event::Done) => match method {
            Method::Streaming => Stage::UnpackStream,
            Method::Buffering => Stage::Buffer,
        },
        (Stage::CreateDestination, Event::Failed(e)) => Stage::Finished(
            Err(ExtractError::CouldNotCreateDestination(e)),
        ),
        (Stage::Buffer, Event::AllRead(result)) => if result.total_size == 0 {
            truncated()
        } else {
            Stage::Rewind(result)
        },
        (Stage::Buffer, Event::Failed(e)) => Stage::Finished(Err(ExtractError::IoError(e))),
        (Stage::Rewind(result), Event::Done) => Stage::UnpackBuffer(result),
        (Stage::Rewind(_), Event::Failed(e)) => Stage::Finished(Err(ExtractError::IoError(e))),
        (Stage::UnpackBuffer(result), Event::Done) => Stage::Finished(Ok(result)),
        (Stage::UnpackBuffer(_), Event::UnpackFailed(e)) => Stage::Finished(Err(e)),
        (Stage::UnpackStream, Event::Done) => Stage::Drain,
        (Stage::UnpackStream, Event::UnpackFailed(e)) => Stage::Finished(Err(e)),
        (Stage::Drain, Event::AllRead(result)) => if result.total_size == 0 {
            truncated()
        } else {
            Stage::Finished(Ok(result))
        },
        (Stage::Drain, Event::Failed(e)) => Stage::Finished(Err(ExtractError::IoError(e))),
        (unchanged, _) => unchanged,
    }
}

/// The stages of an extraction from the first one on, with what came of each
/// but the last.
pub open spec fn is_extraction(method: Method, stages: Seq<Stage>, events: Seq<Event>) -> bool {
    &&& stages.len() == events.len() + 1
    &&& stages[0] == first(method)
    &&& forall|i: int|
        0 <= i < events.len() ==> follows(
            method,
            #[trigger] stages[i],
            #[trigger] events[i],
            stages[i + 1],
        )
}

/// Whether the result is that of a stream that something was read from.
pub open spec fn holds_data(stage: Stage) -> bool {
    match stage {
        Stage::Rewind(result) => result.total_size > 0,
        Stage::UnpackBuffer(result) => result.total_size > 0,
        Stage::Finished(Ok(result)) => result.total_size > 0,
        _ => true,
    }
}

/// No extraction succeeds that read nothing from the stream.
pub proof fn law_nothing_read_is_no_success(
    method: Method,
    stages: Seq<Stage>,
    events: Seq<Event>,
    i: int,
)
    requires
        is_extraction(method, stages, events),
        0 <= i < stages.len(),
    ensures
        holds_data(stages[i]),
    decreases i,
{
    if i > 0 {
        law_nothing_read_is_no_success(method, stages, events, i - 1);
        assert(follows(method, stages[i - 1], events[i - 1], stages[i]));
    }
}

/// Whether the result that a stage holds is one that came of reading the whole
/// stream, before the stage.
pub open spec fn holds_what_was_read(stage: Stage, before: Seq<Event>) -> bool {
    match stage {
        Stage::Rewind(result) => before.contains(Event::AllRead(result)),
        Stage::UnpackBuffer(result) => before.contains(Event::AllRead(result)),
        Stage::Finished(Ok(result)) => before.contains(Event::AllRead(result)),
        _ => true,
    }
}

/// The hashes and the size that an extraction ends with are those that were
/// taken of the whole stream.
pub proof fn law_result_is_what_was_read(
    method: Method,
    stages: Seq<Stage>,
    events: Seq<Event>,
    i: int,
)
    requires
        is_extraction(method, stages, events),
        0 <= i < stages.len(),
    ensures
        holds_what_was_read(stages[i], events.take(i)),
    decreases i,
{
    if i > 0 {
        law_result_is_what_was_read(method, stages, events, i - 1);
        assert(follows(method, stages[i - 1], events[i - 1], stages[i]));
        let before = events.take(i - 1);
        let now = events.take(i);
        assert(now[i - 1] == events[i - 1]);
        assert forall|e: Event| before.contains(e) implies now.contains(e) by {
            let k = choose|k: int| 0 <= k < before.len() && before[k] == e;
            assert(now[k] == e);
        }
    }
}

/// Whether nothing was at the destination, or what was there has been removed,
/// before some stage.
pub open spec fn was_cleared(stages: Seq<Stage>, events: Seq<Event>, i: int) -> bool {
    exists|k: int|
        0 <= k < i && ((#[trigger] stages[k] == Stage::CheckDestination && events[k]
            == Event::Exists(false)) || (stages[k] == Stage::RemoveDestination && events[k]
            == Event::Done))
}

/// An extraction through a buffer makes the destination, and unpacks to it, only
/// once nothing is left there of an earlier attempt.
pub proof fn law_buffering_starts_clean(stages: Seq<Stage>, events: Seq<Event>, i: int)
    requires
        is_extraction(Method::Buffering, stages, events),
        0 <= i < stages.len(),
    ensures
        match stages[i] {
            Stage::CheckDestination | Stage::RemoveDestination => true,
            Stage::Finished(Err(_)) => true,
            _ => was_cleared(stages, events, i),
        },
    decreases i,
{
    if i > 0 {
        law_buffering_starts_clean(stages, events, i - 1);
        assert(follows(Method::Buffering, stages[i - 1], events[i - 1], stages[i]));
        if was_cleared(stages, events, i - 1) {
            let k = choose|k: int|
                0 <= k < i - 1 && ((#[trigger] stages[k] == Stage::CheckDestination && events[k]
                    == Event::Exists(false)) || (stages[k] == Stage::RemoveDestination
                    && events[k] == Event::Done));
        }
    }
}

/// What lies at the destination behind a stage, if something does: it is gone
/// once it was removed, it is there once it was made, and holds what was
/// unpacked over what it held before.
pub open spec fn destination_behind(
    stage: Stage,
    event: Event,
    destination: Option<Map<Seq<char>, Node>>,
    unpacked: Map<Seq<char>, Node>,
) -> Option<Map<Seq<char>, Node>> {
    let held = match destination {
        Some(tree) => tree,
        None => Map::empty(),
    };
    match (stage, event) {
        (Stage::RemoveDestination, Event::Done) => None,
        (Stage::CreateDestination, Event::Done) => Some(held),
        (Stage::UnpackStream, Event::Done) => Some(held.union_prefer_right(unpacked)),
        (Stage::UnpackBuffer(_), Event::Done) => Some(held.union_prefer_right(unpacked)),
        _ => destination,
    }
}

/// The destination at each stage of an extraction, from what lies there in the
/// beginning. Whether it exists is told as it is.
pub open spec fn are_destinations(
    stages: Seq<Stage>,
    events: Seq<Event>,
    destinations: Seq<Option<Map<Seq<char>, Node>>>,
    unpacked: Map<Seq<char>, Node>,
) -> bool {
    &&& destinations.len() == stages.len()
    &&& forall|i: int|
        #![trigger events[i]]
        0 <= i < events.len() ==> {
            &&& destinations[i + 1] == destination_behind(
                stages[i],
                events[i],
                destinations[i],
                unpacked,
            )
            &&& stages[i] is CheckDestination ==> (events[i] matches Event::Exists(there) ==> there
                == (destinations[i] is Some))
        }
}

/// What lies at the destination at a stage, whatever lay there in the
/// beginning, if the stream is read into a buffer first. If it is not, nothing
/// has to lie there in the beginning.
pub open spec fn is_clean(
    method: Method,
    stage: Stage,
    destination: Option<Map<Seq<char>, Node>>,
    unpacked: Map<Seq<char>, Node>,
) -> bool {
    match stage {
        Stage::CheckDestination | Stage::RemoveDestination => method == Method::Buffering,
        Stage::CreateDestination => destination is None,
        Stage::Buffer | Stage::Rewind(_) | Stage::UnpackBuffer(_) => destination == Some(
            Map::<Seq<char>, Node>::empty(),
        ) && method == Method::Buffering,
        Stage::UnpackStream => destination == Some(Map::<Seq<char>, Node>::empty()) && method
            == Method::Streaming,
        Stage::Drain => destination == Some(unpacked),
        Stage::Finished(Ok(_)) => destination == Some(unpacked),
        Stage::Finished(Err(_)) => true,
    }
}

/// The destination is clean at every stage.
proof fn lemma_clean(
    method: Method,
    stages: Seq<Stage>,
    events: Seq<Event>,
    destinations: Seq<Option<Map<Seq<char>, Node>>>,
    unpacked: Map<Seq<char>, Node>,
    i: int,
)
    requires
        is_extraction(method, stages, events),
        are_destinations(stages, events, destinations, unpacked),
        method == Method::Streaming ==> destinations[0] is None,
        0 <= i < stages.len(),
    ensures
        is_clean(method, stages[i], destinations[i], unpacked),
    decreases i,
{
    if i > 0 {
        lemma_clean(method, stages, events, destinations, unpacked, i - 1);
        assert(follows(method, stages[i - 1], events[i - 1], stages[i]));
        assert(Map::<Seq<char>, Node>::empty().union_prefer_right(unpacked) == unpacked);
    }
}

/// Extracting a stream through a buffer ends with the same hashes, the same
/// size and the same files as extracting it while it is read, whatever lay at
/// the destination before: the hashes and the size are those of the stream,
/// which is not empty, and nothing but what was unpacked lies there.
pub proof fn law_both_ways_extract_the_same(
    stream: Seq<u8>,
    unpacked: Map<Seq<char>, Node>,
    streamed: (Seq<Stage>, Seq<Event>, Seq<Option<Map<Seq<char>, Node>>>),
    buffered: (Seq<Stage>, Seq<Event>, Seq<Option<Map<Seq<char>, Node>>>),
    r1: ExtractResult,
    r2: ExtractResult,
)
    requires
        is_extraction(Method::Streaming, streamed.0, streamed.1),
        is_extraction(Method::Buffering, buffered.0, buffered.1),
        forall|r: ExtractResult| #[trigger]
            streamed.1.contains(Event::AllRead(r)) ==> digest::is_result_of(r, stream),
        forall|r: ExtractResult| #[trigger]
            buffered.1.contains(Event::AllRead(r)) ==> digest::is_result_of(r, stream),
        are_destinations(streamed.0, streamed.1, streamed.2, unpacked),
        are_destinations(buffered.0, buffered.1, buffered.2, unpacked),
        streamed.2[0] is None,
        streamed.0.last() == Stage::Finished(Ok(r1)),
        buffered.0.last() == Stage::Finished(Ok(r2)),
    ensures
        r1.sha256@ == r2.sha256@,
        r1.md5@ == r2.md5@,
        r1.total_size == r2.total_size,
        r1.total_size == stream.len(),
        r1.total_size > 0,
        streamed.2.last() == Some(unpacked),
        buffered.2.last() == Some(unpacked),
{
    let n = streamed.0.len() - 1;
    let m = buffered.0.len() - 1;
    law_nothing_read_is_no_success(Method::Streaming, streamed.0, streamed.1, n);
    law_result_is_what_was_read(Method::Streaming, streamed.0, streamed.1, n);
    law_result_is_what_was_read(Method::Buffering, buffered.0, buffered.1, m);
    assert(streamed.1.take(n) == streamed.1);
    assert(buffered.1.take(m) == buffered.1);
    assert(streamed.1.contains(Event::AllRead(r1)));
    assert(buffered.1.contains(Event::AllRead(r2)));
    lemma_clean(Method::Streaming, streamed.0, streamed.1, streamed.2, unpacked, n);
    lemma_clean(Method::Buffering, buffered.0, buffered.1, buffered.2, unpacked, m);
}

/// An extraction that is over stays over.
pub proof fn law_finished_stays_finished(method: Method, stage: Stage, event: Event, next: Stage)
    requires
        stage is Finished,
        follows(method, stage, event, next),
    ensures
        next == stage,
{
}

} // verus!
