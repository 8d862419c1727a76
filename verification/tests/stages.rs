use rattler_wheel::digest::{hash_and_size, ExtractResult};
use rattler_wheel::error::{ExtractError, IoError, IoErrorKind, ZipError};
use rattler_wheel::stages::{first_stage, next_stage, Event, Method, Stage};

fn run(method: Method, events: Vec<Event>) -> Stage {
    let mut stage = first_stage(method);
    for event in events {
        stage = next_stage(method, stage, event);
    }
    stage
}

fn some() -> ExtractResult {
    hash_and_size(b"some archive")
}

fn nothing() -> ExtractResult {
    hash_and_size(b"")
}

fn failure() -> IoError {
    IoError::new(IoErrorKind::Other, "it failed")
}

fn truncated() -> Stage {
    Stage::Finished(Err(ExtractError::IoError(IoError::new(
        IoErrorKind::UnexpectedEof,
        "no data was read from the package stream - the stream may have been truncated",
    ))))
}

#[test]
fn a_stream_is_unpacked_while_it_is_read() {
    assert_eq!(first_stage(Method::Streaming), Stage::CreateDestination);
    assert_eq!(run(Method::Streaming, vec![Event::Done]), Stage::UnpackStream);
    assert_eq!(run(Method::Streaming, vec![Event::Done, Event::Done]), Stage::Drain);
    assert_eq!(
        run(Method::Streaming, vec![Event::Done, Event::Done, Event::AllRead(some())]),
        Stage::Finished(Ok(some()))
    );
}

#[test]
fn a_buffer_is_unpacked_to_a_clean_destination() {
    assert_eq!(first_stage(Method::Buffering), Stage::CheckDestination);
    let mut events = vec![Event::Exists(true)];
    assert_eq!(run(Method::Buffering, events), Stage::RemoveDestination);
    events = vec![Event::Exists(true), Event::Done, Event::Done];
    assert_eq!(run(Method::Buffering, events), Stage::Buffer);
    events = vec![
        Event::Exists(false),
        Event::Done,
        Event::AllRead(some()),
        Event::Done,
    ];
    assert_eq!(run(Method::Buffering, events), Stage::UnpackBuffer(some()));
    events = vec![
        Event::Exists(false),
        Event::Done,
        Event::AllRead(some()),
        Event::Done,
        Event::Done,
    ];
    assert_eq!(run(Method::Buffering, events), Stage::Finished(Ok(some())));
}

#[test]
fn both_ways_end_the_same() {
    let streamed = run(
        Method::Streaming,
        vec![Event::Done, Event::Done, Event::AllRead(some())],
    );
    let buffered = run(
        Method::Buffering,
        vec![
            Event::Exists(true),
            Event::Done,
            Event::Done,
            Event::AllRead(some()),
            Event::Done,
            Event::Done,
        ],
    );
    assert_eq!(streamed, Stage::Finished(Ok(some())));
    assert_eq!(streamed, buffered);
    assert_eq!(some().total_size, 12);
}

#[test]
fn nothing_read_is_no_success() {
    assert_eq!(
        run(Method::Streaming, vec![Event::Done, Event::Done, Event::AllRead(nothing())]),
        truncated()
    );
    assert_eq!(
        run(
            Method::Buffering,
            vec![Event::Exists(false), Event::Done, Event::AllRead(nothing())]
        ),
        truncated()
    );
}

#[test]
fn every_failure_ends_the_extraction() {
    let io = || Stage::Finished(Err(ExtractError::IoError(failure())));
    let destination =
        || Stage::Finished(Err(ExtractError::CouldNotCreateDestination(failure())));
    let failed = |method, mut before: Vec<Event>| {
        before.push(Event::Failed(failure()));
        run(method, before)
    };
    let streaming = Method::Streaming;
    let buffering = Method::Buffering;
    assert_eq!(failed(streaming, vec![]), destination());
    assert_eq!(failed(streaming, vec![Event::Done, Event::Done]), io());
    assert_eq!(failed(buffering, vec![]), io());
    assert_eq!(failed(buffering, vec![Event::Exists(true)]), destination());
    assert_eq!(failed(buffering, vec![Event::Exists(false)]), destination());
    assert_eq!(failed(buffering, vec![Event::Exists(false), Event::Done]), io());
    assert_eq!(
        failed(
            buffering,
            vec![Event::Exists(false), Event::Done, Event::AllRead(some())]
        ),
        io()
    );
}

#[test]
fn a_failure_to_unpack_is_passed_on() {
    let broken = || ExtractError::ZipError(ZipError::Other("broken".to_string()));
    assert_eq!(
        run(Method::Streaming, vec![Event::Done, Event::UnpackFailed(broken())]),
        Stage::Finished(Err(broken()))
    );
    let unsupported = || {
        ExtractError::ZipError(ZipError::UnsupportedArchive("data descriptors".to_string()))
    };
    assert_eq!(
        run(Method::Streaming, vec![Event::Done, Event::UnpackFailed(unsupported())]),
        Stage::Finished(Err(unsupported()))
    );
    assert_eq!(
        next_stage(
            Method::Buffering,
            Stage::UnpackBuffer(some()),
            Event::UnpackFailed(broken())
        ),
        Stage::Finished(Err(broken()))
    );
}

#[test]
fn what_does_not_belong_changes_nothing() {
    assert_eq!(
        run(Method::Streaming, vec![Event::Exists(true), Event::AllRead(some())]),
        Stage::CreateDestination
    );
    assert_eq!(
        next_stage(Method::Streaming, Stage::Finished(Ok(some())), Event::Failed(failure())),
        Stage::Finished(Ok(some()))
    );
}
