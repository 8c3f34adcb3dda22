use serde_ipc::error::{created, decoded, encoded, locked, opened, CreateFailure, IpcError};

type Failure = IpcError<String, String>;

fn cause(text: &str) -> String {
    String::from(text)
}

#[test]
fn owner_of_a_new_segment_succeeds() {
    let outcome: Result<&str, Failure> = created(7, Ok(("segment", true)));
    assert_eq!(outcome, Ok("segment"));
}

#[test]
fn segment_of_someone_else_already_exists() {
    let outcome: Result<&str, Failure> = created(7, Ok(("segment", false)));
    assert_eq!(outcome, Err(IpcError::FileExistsError { id: 7 }));
}

#[test]
fn refused_second_segment_already_exists() {
    let outcome: Result<u8, Failure> = created(1337, Err(CreateFailure::Exists));
    assert_eq!(outcome, Err(IpcError::FileExistsError { id: 1337 }));
    assert!(!matches!(outcome, Err(IpcError::ShmemCreateError { .. })));
}

#[test]
fn second_create_with_the_same_id_is_rejected() {
    // the first caller gets the segment and owns it; for the second the
    // platform creates none, because one is there
    let first: Result<u8, Failure> = created(99, Ok((1u8, true)));
    let second: Result<u8, Failure> = created(99, Err(CreateFailure::Exists));
    assert_eq!(first, Ok(1u8));
    assert_eq!(second, Err(IpcError::FileExistsError { id: 99 }));
}

#[test]
fn failed_create_keeps_cause_and_id() {
    let outcome: Result<(), Failure> = created(3, Err(CreateFailure::Other(cause("no space"))));
    assert_eq!(outcome, Err(IpcError::ShmemCreateError { source: cause("no space"), id: 3 }));
}

#[test]
fn open_passes_or_keeps_cause_and_id() {
    let passed: Result<u8, Failure> = opened(4, Ok(17u8));
    assert_eq!(passed, Ok(17u8));
    let failed: Result<u8, Failure> = opened(4, Err(cause("missing")));
    assert_eq!(failed, Err(IpcError::ShmemOpenError { source: cause("missing"), id: 4 }));
}

#[test]
fn lock_passes_or_keeps_cause_and_id() {
    let passed: Result<char, Failure> = locked(5, Ok('g'));
    assert_eq!(passed, Ok('g'));
    let failed: Result<char, Failure> = locked(5, Err(cause("poisoned")));
    assert_eq!(failed, Err(IpcError::ShmemWriteError { source: cause("poisoned"), id: 5 }));
}

#[test]
fn encoding_passes_bytes_or_keeps_cause() {
    let passed: Result<Vec<u8>, Failure> = encoded(Ok(vec![1, 2, 3]));
    assert_eq!(passed, Ok(vec![1, 2, 3]));
    let failed: Result<Vec<u8>, Failure> = encoded(Err(cause("unsupported")));
    assert_eq!(failed, Err(IpcError::SerializationError { source: cause("unsupported") }));
}

#[test]
fn decoding_passes_value_or_keeps_cause() {
    let passed: Result<u32, Failure> = decoded(Ok(666));
    assert_eq!(passed, Ok(666));
    let failed: Result<u32, Failure> = decoded(Err(cause("truncated")));
    assert_eq!(failed, Err(IpcError::DeserializationError { source: cause("truncated") }));
}

#[test]
fn cause_keeps_its_type() {
    let failed: Result<(), IpcError<u32, bool>> = locked(8, Err(22u32));
    assert_eq!(failed, Err(IpcError::ShmemWriteError { source: 22u32, id: 8 }));
}

#[test]
fn out_of_memory_is_a_kind_of_its_own() {
    let e: Failure = IpcError::OutOfMemortError { id: 1 };
    assert_ne!(e, IpcError::FileExistsError { id: 1 });
    assert_eq!(e, IpcError::OutOfMemortError { id: 1 });
}
