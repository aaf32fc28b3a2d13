//! Error kinds of the tracer's memory layer and of the remote file bridge.

use vstd::prelude::*;
use vstd::string::StringExecFns;

verus! {

/// Failure of a tracing-level operation on the child process.
#[derive(Debug)]
pub enum PtraceError {
    /// The tracer syscall itself failed; carries the operation's own report.
    PtraceOperation(String),
    /// A null address was passed to the memory layer.
    InvalidAddress,
    /// A transfer was requested past the memory layer's size cap.
    BufferTooLarge,
    /// No terminator appeared within the string length cap.
    StringTooLong,
    /// A word store into the child's address space failed.
    MemoryWrite,
    /// A word fetch from the child's address space failed.
    MemoryRead,
}

impl PtraceError {
    /// Human-readable report of the failure.
    pub fn message(&self) -> (r: String)
        ensures
            r@ == match self {
                PtraceError::PtraceOperation(msg) => "Ptrace operation failed: "@ + msg@,
                PtraceError::InvalidAddress => "Invalid memory address"@,
                PtraceError::BufferTooLarge => "Buffer size exceeds maximum allowed"@,
                PtraceError::StringTooLong => "String exceeds maximum length"@,
                PtraceError::MemoryWrite => "Failed to write to child memory"@,
                PtraceError::MemoryRead => "Failed to read from child memory"@,
            },
    {
        match self {
            PtraceError::PtraceOperation(msg) => {
                String::from_str("Ptrace operation failed: ").concat(msg.as_str())
            },
            PtraceError::InvalidAddress => String::from_str("Invalid memory address"),
            PtraceError::BufferTooLarge => String::from_str("Buffer size exceeds maximum allowed"),
            PtraceError::StringTooLong => String::from_str("String exceeds maximum length"),
            PtraceError::MemoryWrite => String::from_str("Failed to write to child memory"),
            PtraceError::MemoryRead => String::from_str("Failed to read from child memory"),
        }
    }
}

/// Failure of the remote file bridge or of its local cache.
#[derive(Debug)]
pub enum FileError {
    /// The request could not be sent or its response channel was lost.
    WebSocketRequest(String),
    /// The remote peer does not know the named path.
    RemoteFileNotFound(String),
    /// The remote peer answered an open without a file descriptor.
    NoFileDescriptor,
    /// The remote peer rejected a read; carries the peer's report.
    ReadFailed(String),
    /// The local cache copy could not be written.
    CacheWriteFailed(String),
    /// The local cache copy could not be read.
    CacheReadFailed(String),
    /// The remote peer reported an application-level error.
    RemoteError(String),
}

impl FileError {
    /// Human-readable report of the failure.
    pub fn message(&self) -> (r: String)
        ensures
            r@ == match self {
                FileError::WebSocketRequest(e) => "WebSocket request failed: "@ + e@,
                FileError::RemoteFileNotFound(path) => "Remote file not found: "@ + path@,
                FileError::NoFileDescriptor => "Remote server did not return a file descriptor"@,
                FileError::ReadFailed(reason) => "Failed to read remote file: "@ + reason@,
                FileError::CacheWriteFailed(e) => "Failed to write to cache: "@ + e@,
                FileError::CacheReadFailed(e) => "Failed to read from cache: "@ + e@,
                FileError::RemoteError(msg) => "Remote server error: "@ + msg@,
            },
    {
        match self {
            FileError::WebSocketRequest(e) => {
                String::from_str("WebSocket request failed: ").concat(e.as_str())
            },
            FileError::RemoteFileNotFound(path) => {
                String::from_str("Remote file not found: ").concat(path.as_str())
            },
            FileError::NoFileDescriptor => {
                String::from_str("Remote server did not return a file descriptor")
            },
            FileError::ReadFailed(reason) => {
                String::from_str("Failed to read remote file: ").concat(reason.as_str())
            },
            FileError::CacheWriteFailed(e) => {
                String::from_str("Failed to write to cache: ").concat(e.as_str())
            },
            FileError::CacheReadFailed(e) => {
                String::from_str("Failed to read from cache: ").concat(e.as_str())
            },
            FileError::RemoteError(msg) => {
                String::from_str("Remote server error: ").concat(msg.as_str())
            },
        }
    }
}

} // verus!
