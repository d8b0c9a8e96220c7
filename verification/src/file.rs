//! The chunked file-transfer sub-protocol state: offset/size sequencing
//! layered over commands and replies. The engine never touches a file
//! itself; it sequences offsets and sizes and calls a registered
//! file-operations collaborator for the actual reads and writes.

use vstd::prelude::*;

use crate::OsdpError;

verus! {

/// File operations handler trait. The embedding application registers an
/// implementor to give the engine access to file contents; the engine
/// promises nothing about what the collaborator does and guards every
/// result it returns.
pub trait OsdpFileOps {
    /// Open a file with the pre-agreed id; returns the size of the file
    /// that was opened.
    fn open(&mut self, id: i32, read_only: bool) -> Result<usize, OsdpError>;

    /// Read up to `size` bytes at byte offset `off` of the open file.
    fn offset_read(&self, size: usize, off: u64) -> (r: Result<Vec<u8>, OsdpError>)
        ensures
            r matches Ok(v) ==> v@.len() <= size,
    ;

    /// Write the buffer at byte offset `off` of the open file; returns
    /// the number of bytes written.
    fn offset_write(&self, buf: &[u8], off: u64) -> (r: Result<usize, OsdpError>)
        ensures
            r matches Ok(n) ==> n <= buf@.len(),
    ;

    /// Close the open file.
    fn close(&mut self) -> Result<(), OsdpError>;
}

/// A file-operations collaborator for devices without one: every
/// operation fails, so every transfer is refused.
#[derive(Clone, Copy, Debug)]
pub struct NullFileOps;

impl OsdpFileOps for NullFileOps {
    fn open(&mut self, id: i32, read_only: bool) -> Result<usize, OsdpError> {
        Err(OsdpError::FileTransfer("no file ops registered"))
    }

    fn offset_read(&self, size: usize, off: u64) -> (r: Result<Vec<u8>, OsdpError>)
        ensures
            r matches Ok(v) ==> v@.len() <= size,
    {
        Err(OsdpError::FileTransfer("no file ops registered"))
    }

    fn offset_write(&self, buf: &[u8], off: u64) -> (r: Result<usize, OsdpError>)
        ensures
            r matches Ok(n) ==> n <= buf@.len(),
    {
        Err(OsdpError::FileTransfer("no file ops registered"))
    }

    fn close(&mut self) -> Result<(), OsdpError> {
        Err(OsdpError::FileTransfer("no file ops registered"))
    }
}

/// Life cycle of a file-transfer session.
#[derive(Clone, Copy, Debug, PartialEq, Eq, Structural)]
pub enum FtStatus {
    /// No transfer.
    Idle,
    /// A transfer was requested and the start message is under way.
    Open,
    /// Fragments are moving.
    Transferring,
    /// The whole file arrived: offset reached size.
    Complete,
    /// The transfer was aborted by an error or cancellation.
    Failed,
}

/// Per-PD file-transfer state: the file id, the total size, the
/// cumulative offset and the negotiated fragment bound.
#[derive(Clone, Copy, Debug, PartialEq, Eq, Structural)]
pub struct FileTransferSession {
    /// Pre-agreed file id.
    pub file_id: i32,
    /// Total size in bytes.
    pub size: u32,
    /// Cumulative transferred offset.
    pub offset: u32,
    /// Largest fragment the receiver accepts.
    pub max_frag: u16,
    /// Where the transfer stands.
    pub status: FtStatus,
}

impl FileTransferSession {
    /// Sizes and offsets the wire and status queries can carry.
    pub open spec fn spec_wf(&self) -> bool {
        self.size <= 0x7fffffff && self.offset <= self.size
    }

    /// No transfer.
    pub fn idle() -> (r: FileTransferSession)
        ensures
            r.spec_wf(),
            r.status == FtStatus::Idle,
            r.offset == 0,
    {
        FileTransferSession { file_id: 0, size: 0, offset: 0, max_frag: 0, status: FtStatus::Idle }
    }

    /// Open a session for a file of the given size, before fragments
    /// move.
    pub fn open(file_id: i32, size: u32, max_frag: u16) -> (r: FileTransferSession)
        requires
            size <= 0x7fffffff,
        ensures
            r.spec_wf(),
            r == (FileTransferSession {
                file_id,
                size,
                offset: 0,
                max_frag,
                status: FtStatus::Open,
            }),
    {
        FileTransferSession { file_id, size, offset: 0, max_frag, status: FtStatus::Open }
    }

    /// Whether a fragment at `off` is the one the receiver expects next:
    /// only an exact match of the cumulative offset is written; anything
    /// at an already-acknowledged offset (or beyond the frontier) is
    /// ignored, which makes retransmission idempotent.
    pub fn expects(&self, off: u32) -> (r: bool)
        ensures
            r == (self.status == FtStatus::Transferring && off == self.offset),
    {
        match self.status {
            FtStatus::Transferring => off == self.offset,
            _ => false,
        }
    }

    /// Advance the cumulative offset by a fully-written fragment; the
    /// transfer completes when the offset reaches the size.
    pub fn advance(&mut self, n: u32)
        requires
            old(self).spec_wf(),
            old(self).status == FtStatus::Transferring,
            old(self).offset + n <= old(self).size,
        ensures
            final(self).spec_wf(),
            final(self).offset == old(self).offset + n,
            final(self).size == old(self).size,
            final(self).file_id == old(self).file_id,
            final(self).max_frag == old(self).max_frag,
            final(self).offset == final(self).size ==> final(self).status == FtStatus::Complete,
            final(self).offset < final(self).size ==> final(self).status == FtStatus::Transferring,
    {
        self.offset = self.offset + n;
        if self.offset == self.size {
            self.status = FtStatus::Complete;
        }
    }

    /// Abort the session.
    pub fn fail(&mut self)
        requires
            old(self).spec_wf(),
        ensures
            final(self).spec_wf(),
            *final(self) == (FileTransferSession { status: FtStatus::Failed, ..*old(self) }),
    {
        self.status = FtStatus::Failed;
    }

    /// The status query value: `(size, offset)` of the running transfer,
    /// or an error while no transfer exists.
    pub fn status_query(&self) -> (r: Result<(i32, i32), OsdpError>)
        requires
            self.spec_wf(),
        ensures
            r is Ok <==> self.status != FtStatus::Idle,
            r matches Ok(p) ==> p.0 == self.size as i32 && p.1 == self.offset as i32,
    {
        match self.status {
            FtStatus::Idle => Err(OsdpError::FileTransfer("not in progress")),
            _ => Ok((self.size as i32, self.offset as i32)),
        }
    }
}

} // verus!
