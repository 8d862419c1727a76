//! How an extraction goes on, and what is known of the stream at its end.
use crate::digest;
use crate::digest::{ExtractResult, StreamDigest};
use crate::error::{ExtractError, IoError, IoErrorKind};
use crate::stages;
use crate::stages::{Event, Method, Stage};
use vstd::prelude::*;
use vstd::string::*;

verus! {

/// A stream that is unpacked while it is read: the destination is made, the
/// stream is unpacked, what is left of it is read, and the extraction ends with
/// what was taken of the stream.
pub proof fn law_streaming(
    first: Stage,
    second: Stage,
    third: Stage,
    last: Stage,
    result: ExtractResult,
)
    requires
        call_ensures(stages::first_stage, (Method::Streaming,), first),
        call_ensures(stages::next_stage, (Method::Streaming, first, Event::Done), second),
        call_ensures(stages::next_stage, (Method::Streaming, second, Event::Done), third),
        call_ensures(
            stages::next_stage,
            (Method::Streaming, third, Event::AllRead(result)),
            last,
        ),
        result.total_size > 0,
    ensures
        first == Stage::CreateDestination,
        second == Stage::UnpackStream,
        third == Stage::Drain,
        last == Stage::Finished(Ok(result)),
{
}

/// A stream that is read into a buffer first: whatever is at the destination is
/// removed, the destination is made, the stream is read, and the buffer is
/// unpacked from its beginning; the extraction ends with what was taken of the
/// stream.
pub proof fn law_buffering(
    there: bool,
    first: Stage,
    second: Stage,
    made: Stage,
    fourth: Stage,
    fifth: Stage,
    sixth: Stage,
    last: Stage,
    result: ExtractResult,
)
    requires
        call_ensures(stages::first_stage, (Method::Buffering,), first),
        call_ensures(stages::next_stage, (Method::Buffering, first, Event::Exists(there)), second),
        there ==> call_ensures(stages::next_stage, (Method::Buffering, second, Event::Done), made),
        !there ==> made == second,
        call_ensures(stages::next_stage, (Method::Buffering, made, Event::Done), fourth),
        call_ensures(
            stages::next_stage,
            (Method::Buffering, fourth, Event::AllRead(result)),
            fifth,
        ),
        call_ensures(stages::next_stage, (Method::Buffering, fifth, Event::Done), sixth),
        call_ensures(stages::next_stage, (Method::Buffering, sixth, Event::Done), last),
        result.total_size > 0,
    ensures
        first == Stage::CheckDestination,
        there ==> second == Stage::RemoveDestination,
        made == Stage::CreateDestination,
        fourth == Stage::Buffer,
        fifth == Stage::Rewind(result),
        sixth == Stage::UnpackBuffer(result),
        last == Stage::Finished(Ok(result)),
{
}

/// An empty stream is a failure, either way.
pub proof fn law_empty_stream(method: Method, stage: Stage, result: ExtractResult, next: Stage)
    requires
        call_ensures(stages::next_stage, (method, stage, Event::AllRead(result)), next),
        stage == Stage::Buffer || stage == Stage::Drain,
        result.total_size == 0,
    ensures
        next matches Stage::Finished(Err(ExtractError::IoError(e))) && e.kind
            == IoErrorKind::UnexpectedEof && e.message@
            == "no data was read from the package stream - the stream may have been truncated"@,
{
}

/// A failure ends the extraction. What fails about the destination, once it is
/// known whether it is there, is told as such; what cannot be unpacked is told
/// as it is; any other failure is one of input or output.
pub proof fn law_failures(
    method: Method,
    stage: Stage,
    cause: IoError,
    error: ExtractError,
    failed: Stage,
    unpack_failed: Stage,
)
    requires
        call_ensures(stages::next_stage, (method, stage, Event::Failed(cause)), failed),
        call_ensures(
            stages::next_stage,
            (method, stage, Event::UnpackFailed(error)),
            unpack_failed,
        ),
    ensures
        stage is RemoveDestination || stage is CreateDestination ==> failed == Stage::Finished(
            Err(ExtractError::CouldNotCreateDestination(cause)),
        ),
        stage is CheckDestination || stage is Buffer || stage is Rewind || stage is Drain ==> failed
            == Stage::Finished(Err(ExtractError::IoError(cause))),
        stage is UnpackBuffer || stage is UnpackStream || stage is Finished ==> failed == stage,
        stage is UnpackBuffer || stage is UnpackStream ==> unpack_failed == Stage::Finished(
            Err(error),
        ),
        !(stage is UnpackBuffer || stage is UnpackStream) ==> unpack_failed == stage,
{
}

/// What does not belong to a stage leaves it as it is.
pub proof fn law_what_does_not_belong(
    method: Method,
    stage: Stage,
    there: bool,
    result: ExtractResult,
    done: Stage,
    checked: Stage,
    read: Stage,
)
    requires
        call_ensures(stages::next_stage, (method, stage, Event::Done), done),
        call_ensures(stages::next_stage, (method, stage, Event::Exists(there)), checked),
        call_ensures(stages::next_stage, (method, stage, Event::AllRead(result)), read),
    ensures
        !(stage is CheckDestination) ==> checked == stage,
        stage is CheckDestination || stage is Buffer || stage is Drain || stage is Finished ==> done
            == stage,
        !(stage is Buffer) && !(stage is Drain) ==> read == stage,
{
}

/// How a stream is extracted decides where an extraction begins and what is done
/// at the destination once it is made, and nothing else.
pub proof fn law_method(one: Stage, other: Stage, stage: Stage, event: Event)
    requires
        call_ensures(stages::next_stage, (Method::Streaming, stage, event), one),
        call_ensures(stages::next_stage, (Method::Buffering, stage, event), other),
        stage != Stage::CreateDestination || event != Event::Done,
        event matches Event::AllRead(result) ==> result.total_size > 0,
    ensures
        one == other,
{
}

/// A stream has the hashes and the size of all its bytes, in whatever pieces it
/// is read, and those are the ones of an archive that is read at once.
pub proof fn law_pieces(
    nothing: StreamDigest,
    first: &[u8],
    some: StreamDigest,
    second: &[u8],
    all: StreamDigest,
    size: u64,
    result: ExtractResult,
    archive: &[u8],
    at_once: ExtractResult,
)
    requires
        call_ensures(StreamDigest::new, (), nothing),
        call_ensures(StreamDigest::update, (nothing, first), some),
        call_ensures(StreamDigest::update, (some, second), all),
        call_ensures(StreamDigest::total_size, (&all,), size),
        call_ensures(StreamDigest::finish, (all,), result),
        call_ensures(digest::hash_and_size, (archive,), at_once),
        archive@ == first@ + second@,
    ensures
        size == first@.len() + second@.len(),
        result.total_size == size,
        result.sha256@ == digest::sha256_of(first@ + second@),
        result.md5@ == digest::md5_of(first@ + second@),
        at_once.total_size == size,
        at_once.sha256@ == result.sha256@,
        at_once.md5@ == result.md5@,
{
    assert(Seq::<u8>::empty() + first@ == first@);
}

} // verus!
