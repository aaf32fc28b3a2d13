//! The virtual file table, exercised through its public operations.

use wsfs::vfs::{FileTable, FIRST_SYNTHETIC_FD, SEEK_CUR, SEEK_END, SEEK_SET};

#[test]
fn test_basic_write_operation() {
    let mut t = FileTable::new();
    let test_data = b"Hello, WebSocket filesystem!";
    let fd = t.open("/test/write_test.txt".to_string(), Vec::new());
    let written = t.write(fd, test_data.to_vec());
    assert_eq!(written, Some(test_data.len()), "Write operation should succeed");
}

#[test]
fn test_basic_read_operation() {
    let mut t = FileTable::new();
    let test_data = b"Data to be read back";
    let fd = t.open("/test/read_test.txt".to_string(), Vec::new());
    let written = t.write(fd, test_data.to_vec());
    assert!(written.is_some(), "Write should succeed");
    assert_eq!(t.seek(fd, 0, SEEK_SET), Some(0));
    let read = t.read(fd, test_data.len());
    assert!(read.is_some(), "Read operation should succeed");
    assert_eq!(read.unwrap(), test_data.to_vec());
}

#[test]
fn test_write_then_read_consistency() {
    let mut t = FileTable::new();
    let test_data = b"Consistency test data - should be exactly the same when read back!";
    let fd = t.open("/test/consistency_test.txt".to_string(), Vec::new());
    let written = t.write(fd, test_data.to_vec());
    assert!(written.is_some(), "Write should succeed");
    assert_eq!(t.seek(fd, 0, SEEK_SET), Some(0));
    let read = t.read(fd, test_data.len()).expect("Read should succeed");
    assert_eq!(read, test_data.to_vec(), "Read data should match written data");
}

#[test]
fn test_large_file_operations() {
    let mut t = FileTable::new();
    let large_data = vec![0x42u8; 100 * 1024];
    let fd = t.open("/test/large_file.bin".to_string(), Vec::new());
    let written = t.write(fd, large_data.clone());
    assert_eq!(written, Some(large_data.len()), "Large file write should succeed");
    assert_eq!(t.seek(fd, 0, SEEK_SET), Some(0));
    let read = t.read(fd, large_data.len()).expect("Large file read should succeed");
    assert_eq!(read, large_data, "Large file data should match");
}

#[test]
fn test_multiple_file_operations() {
    let mut t = FileTable::new();
    let test_files: Vec<(&str, &[u8])> = vec![
        ("/test/file1.txt", b"Content of file 1"),
        ("/test/file2.txt", b"Content of file 2"),
        ("/test/file3.txt", b"Content of file 3"),
    ];
    let mut fds = Vec::new();
    for (path, data) in &test_files {
        let fd = t.open(path.to_string(), Vec::new());
        let written = t.write(fd, data.to_vec());
        assert!(written.is_some(), "Write should succeed for {}", path);
        fds.push(fd);
    }
    for (i, (path, expected)) in test_files.iter().enumerate() {
        let fd = fds[i];
        assert_eq!(t.seek(fd, 0, SEEK_SET), Some(0));
        let read = t.read(fd, expected.len());
        assert!(read.is_some(), "Read should succeed for {}", path);
        assert_eq!(read.unwrap(), expected.to_vec(), "Data should match for {}", path);
    }
}

#[test]
fn test_sequential_operations() {
    let mut t = FileTable::new();
    let file_path = "/test/sequential_test.txt";
    let test_data = b"Sequential operation test data";
    let mut fds = Vec::new();
    for i in 0..5 {
        let fd = t.open(format!("{}{}", file_path, i), Vec::new());
        let written = t.write(fd, test_data.to_vec());
        assert!(written.is_some(), "Write {} should succeed", i);
        fds.push(fd);
    }
    for i in 0..5 {
        let fd = fds[i];
        assert_eq!(t.seek(fd, 0, SEEK_SET), Some(0));
        let read = t.read(fd, test_data.len());
        assert!(read.is_some(), "Read {} should succeed", i);
        assert_eq!(read.unwrap(), test_data.to_vec(), "Data {} should match", i);
    }
}

#[test]
fn test_two_writes_full_replace() {
    // Full-replace semantics: the second write leaves only its own bytes,
    // not an offset-merged overlay of both.
    let mut t = FileTable::new();
    let fd = t.open("/test/offset_test.txt".to_string(), Vec::new());
    assert!(t.write(fd, b"Initial data content".to_vec()).is_some());
    assert!(t.write(fd, b"INSERTED".to_vec()).is_some());
    assert_eq!(t.seek(fd, 0, SEEK_SET), Some(0));
    let read = t.read(fd, 1024).expect("Read should succeed");
    assert_eq!(read, b"INSERTED".to_vec());
}

#[test]
fn test_read_beyond_remaining() {
    let mut t = FileTable::new();
    let fd = t.open("/test/small.txt".to_string(), b"abcde".to_vec());
    let read = t.read(fd, 100).expect("Read should succeed");
    assert_eq!(read, b"abcde".to_vec(), "only what remains, no padding");
    let again = t.read(fd, 100).expect("Read at the end is not an error");
    assert_eq!(again, Vec::<u8>::new());
}

#[test]
fn test_seek_end_then_read_empty() {
    let mut t = FileTable::new();
    let fd = t.open("/test/seekend.txt".to_string(), b"0123456789".to_vec());
    assert_eq!(t.seek(fd, 0, SEEK_END), Some(10));
    let read = t.read(fd, 4).expect("Read should succeed");
    assert_eq!(read, Vec::<u8>::new());
}

#[test]
fn test_seek_anchors_and_bounds() {
    let mut t = FileTable::new();
    let fd = t.open("/test/seek.txt".to_string(), b"0123456789".to_vec());
    assert_eq!(t.seek(fd, 4, SEEK_SET), Some(4));
    assert_eq!(t.seek(fd, 2, SEEK_CUR), Some(6));
    assert_eq!(t.seek(fd, -3, SEEK_END), Some(7));
    // past the end rests at the end; before the start is refused
    assert_eq!(t.seek(fd, 99, SEEK_SET), Some(10));
    assert_eq!(t.seek(fd, -1, SEEK_SET), None);
    // an unrecognized anchor is refused
    assert_eq!(t.seek(fd, 0, 7), None);
}

#[test]
fn test_close_then_unrecognized() {
    let mut t = FileTable::new();
    let fd = t.open("/test/gone.txt".to_string(), b"xyz".to_vec());
    assert!(t.close(fd));
    assert!(!t.is_open(fd));
    assert_eq!(t.read(fd, 3), None);
    assert_eq!(t.write(fd, b"new".to_vec()), None);
    assert_eq!(t.seek(fd, 0, SEEK_SET), None);
    assert!(!t.close(fd));
}

#[test]
fn test_descriptor_uniqueness() {
    let mut t = FileTable::new();
    let a = t.open("/a".to_string(), Vec::new());
    let b = t.open("/b".to_string(), Vec::new());
    let c = t.open("/c".to_string(), Vec::new());
    assert!(a >= FIRST_SYNTHETIC_FD);
    assert_ne!(a, b);
    assert_ne!(a, c);
    assert_ne!(b, c);
    assert!(t.close(b));
    let d = t.open("/d".to_string(), Vec::new());
    assert_ne!(d, a);
    assert_ne!(d, b);
    assert_ne!(d, c);
}
