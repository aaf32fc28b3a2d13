//! The wire framing and the meaning of responses.

use wsfs::errors::FileError;
use wsfs::protocol::{
    decode_frame, encode_frame, open_fetch_request, open_read_outcome, with_binary, write_outcome,
    write_request, write_should_cache, FSRequest, FSResponse, FrameError,
};

fn response(success: bool, bytes_read: Option<usize>, error: Option<&str>) -> FSResponse {
    FSResponse {
        id: "id-1".to_string(),
        success,
        fd: None,
        bytes_read,
        bytes_written: None,
        position: None,
        error: error.map(|e| e.to_string()),
    }
}

#[test]
fn test_frame_layout() {
    let framed = encode_frame(&b"AB".to_vec(), &b"C".to_vec());
    assert_eq!(framed, vec![2u8, 0, 0, 0, b'A', b'B', b'C']);
}

#[test]
fn test_frame_round_trip() {
    let header = br#"{"operation":"read"}"#.to_vec();
    let payload = vec![7u8; 300];
    let framed = encode_frame(&header, &payload);
    let frame = decode_frame(&framed).expect("decode should succeed");
    assert_eq!(frame.header, header);
    assert_eq!(frame.payload, payload);
}

#[test]
fn test_frame_empty_payload_round_trip() {
    let header = b"{}".to_vec();
    let framed = encode_frame(&header, &Vec::new());
    let frame = decode_frame(&framed).expect("decode should succeed");
    assert_eq!(frame.header, header);
    assert_eq!(frame.payload, Vec::<u8>::new());
}

#[test]
fn test_frame_too_short_for_prefix() {
    assert!(matches!(decode_frame(&vec![1u8, 2, 3]), Err(FrameError::MissingPrefix)));
}

#[test]
fn test_frame_truncated_header() {
    // prefix promises five header bytes, only one follows
    assert!(matches!(decode_frame(&vec![5u8, 0, 0, 0, b'a']), Err(FrameError::TruncatedHeader)));
}

#[test]
fn test_get_id() {
    let read = FSRequest::Read {
        id: "r-42".to_string(),
        path: "/p".to_string(),
        size: 10,
        offset: 0,
    };
    assert_eq!(read.get_id(), "r-42");
    let write = FSRequest::Write {
        id: "w-7".to_string(),
        path: "/p".to_string(),
        offset: 0,
        data: vec![1, 2, 3],
    };
    assert_eq!(write.get_id(), "w-7");
}

#[test]
fn test_fresh_identifiers() {
    let path = "/test/file.txt".to_string();
    let a = open_fetch_request(&path);
    let b = open_fetch_request(&path);
    assert_eq!(a.get_id().len(), 36);
    assert_eq!(b.get_id().len(), 36);
    assert_ne!(a.get_id(), b.get_id());
    match a {
        FSRequest::Read { path: p, size, offset, .. } => {
            assert_eq!(p, path);
            assert_eq!(size, 1024 * 1024);
            assert_eq!(offset, 0);
        }
        _ => panic!("an open sends a read request"),
    }
}

#[test]
fn test_write_request_shape() {
    let path = "/test/write.txt".to_string();
    let r = write_request(&path, b"payload".to_vec());
    match r {
        FSRequest::Write { id, path: p, offset, data } => {
            assert_eq!(id.len(), 36);
            assert_eq!(p, path);
            assert_eq!(offset, 0);
            assert_eq!(data, b"payload".to_vec());
        }
        _ => panic!("a write sends a write request"),
    }
}

#[test]
fn test_read_nonexistent_file() {
    let resp = response(false, None, Some("File not found: /test/nonexistent_file.txt"));
    let outcome = open_read_outcome(&resp, None);
    match outcome {
        Err(FileError::ReadFailed(msg)) => {
            assert!(msg.contains("File not found"), "Should have error message");
        }
        _ => panic!("Read should fail for nonexistent file"),
    }
}

#[test]
fn test_open_outcome_without_error_text() {
    let resp = response(false, None, None);
    match open_read_outcome(&resp, None) {
        Err(FileError::ReadFailed(msg)) => assert_eq!(msg, "Unknown read error"),
        _ => panic!("failure responses surface as read failures"),
    }
}

#[test]
fn test_open_outcome_with_bytes() {
    let resp = response(true, Some(3), None);
    let outcome = open_read_outcome(&resp, Some(vec![1, 2, 3]));
    assert!(matches!(outcome, Ok(Some(ref d)) if *d == vec![1, 2, 3]));
}

#[test]
fn test_open_outcome_promised_bytes_missing() {
    let resp = response(true, Some(3), None);
    match open_read_outcome(&resp, None) {
        Err(FileError::ReadFailed(msg)) => assert_eq!(msg, "No binary data received"),
        _ => panic!("promised bytes must arrive"),
    }
}

#[test]
fn test_open_outcome_empty_file() {
    let resp = response(true, Some(0), None);
    assert!(matches!(open_read_outcome(&resp, None), Ok(None)));
    let resp2 = response(true, None, None);
    assert!(matches!(open_read_outcome(&resp2, None), Ok(None)));
}

#[test]
fn test_with_binary() {
    let r = with_binary(response(true, Some(2), None), vec![9, 9]);
    assert_eq!(r.binary, Some(vec![9, 9]));
    let r2 = with_binary(response(true, None, None), Vec::new());
    assert_eq!(r2.binary, None);
}

#[test]
fn test_write_through_decisions() {
    assert!(write_should_cache(&response(true, None, None)));
    assert!(!write_should_cache(&response(false, None, None)));
    assert_eq!(write_outcome(true, true, 7), Some(7));
    assert_eq!(write_outcome(true, false, 7), None);
    assert_eq!(write_outcome(false, true, 7), None);
}

#[test]
fn test_error_messages() {
    assert_eq!(
        FileError::RemoteFileNotFound("/x".to_string()).message(),
        "Remote file not found: /x"
    );
    assert_eq!(
        FileError::ReadFailed("boom".to_string()).message(),
        "Failed to read remote file: boom"
    );
    assert_eq!(
        FileError::NoFileDescriptor.message(),
        "Remote server did not return a file descriptor"
    );
    assert_eq!(
        FileError::WebSocketRequest("lost".to_string()).message(),
        "WebSocket request failed: lost"
    );
    assert_eq!(
        FileError::CacheWriteFailed("disk".to_string()).message(),
        "Failed to write to cache: disk"
    );
    assert_eq!(
        FileError::CacheReadFailed("disk".to_string()).message(),
        "Failed to read from cache: disk"
    );
    assert_eq!(FileError::RemoteError("oops".to_string()).message(), "Remote server error: oops");
}
