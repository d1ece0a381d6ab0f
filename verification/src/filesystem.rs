//! `wasi:filesystem`: permission checks and the offset bookkeeping of the
//! stream-based reads, writes and directory listings.

use vstd::prelude::*;
use vstd::utf8::{decode_utf8, valid_utf8};

verus! {

/// The `wasi:filesystem` error codes.
#[derive(Clone, Copy, Debug, PartialEq, Eq, Structural)]
pub enum ErrorCode {
    Access,
    WouldBlock,
    Already,
    BadDescriptor,
    Busy,
    Deadlock,
    Quota,
    Exist,
    FileTooLarge,
    IllegalByteSequence,
    InProgress,
    Interrupted,
    Invalid,
    Io,
    IsDirectory,
    Loop,
    TooManyLinks,
    MessageSize,
    NameTooLong,
    NoDevice,
    NoEntry,
    NoLock,
    InsufficientMemory,
    InsufficientSpace,
    NotDirectory,
    NotEmpty,
    NotRecoverable,
    Unsupported,
    NoTty,
    NoSuchDevice,
    Overflow,
    NotPermitted,
    Pipe,
    ReadOnly,
    InvalidSeek,
    TextFileBusy,
    CrossDevice,
}

/// What a file descriptor was opened for.
#[derive(Clone, Copy, Debug, PartialEq, Eq, Structural)]
pub struct FilePerms {
    pub read: bool,
    pub write: bool,
}

/// What a directory descriptor was opened for.
#[derive(Clone, Copy, Debug, PartialEq, Eq, Structural)]
pub struct DirPerms {
    pub read: bool,
    pub mutate: bool,
}

/// Checks a descriptor before `write-via-stream` or `append-via-stream`,
/// given what the descriptor yielded as a file (its permissions, or the
/// error for a descriptor that is no file): it must have been opened for
/// writing.
pub fn check_writable(file: Result<FilePerms, ErrorCode>) -> (r: Result<(), ErrorCode>)
    ensures
        match file {
            Err(e) => r == Err::<(), ErrorCode>(e),
            Ok(p) => if p.write {
                r is Ok
            } else {
                r == Err::<(), ErrorCode>(ErrorCode::BadDescriptor)
            },
        },
{
    match file {
        Err(e) => Err(e),
        Ok(p) => if p.write {
            Ok(())
        } else {
            Err(ErrorCode::BadDescriptor)
        },
    }
}

/// Checks a descriptor before `read-directory`, given what it yielded as a
/// directory (its permissions, or the error for a descriptor that is no
/// directory): it must have been opened for reading.
pub fn check_listable(dir: Result<DirPerms, ErrorCode>) -> (r: Result<(), ErrorCode>)
    ensures
        match dir {
            Err(e) => r == Err::<(), ErrorCode>(e),
            Ok(p) => if p.read {
                r is Ok
            } else {
                r == Err::<(), ErrorCode>(ErrorCode::NotPermitted)
            },
        },
{
    match dir {
        Err(e) => Err(e),
        Ok(p) => if p.read {
            Ok(())
        } else {
            Err(ErrorCode::NotPermitted)
        },
    }
}

/// What one positioned read of a file produced.
#[derive(Clone, Copy, Debug, PartialEq, Eq, Structural)]
pub enum ReadOutcome {
    /// This many bytes were read.
    Read(usize),
    /// The read failed.
    Failed(ErrorCode),
}

/// What `read-via-stream` does after a read.
#[derive(Clone, Copy, Debug, PartialEq, Eq, Structural)]
pub enum ReadStep {
    /// The end of the file: the stream ends.
    End,
    /// Send the `len` bytes read and read next from `next_offset`.
    Chunk { len: usize, next_offset: u64 },
    /// Report the error; the stream ends.
    Fail(ErrorCode),
}

/// The step of `read-via-stream` after a read at `offset`: an empty read
/// ends the stream; bytes read are sent and the offset advances past them,
/// an overflow error when it cannot.
pub open spec fn read_step_spec(offset: u64, outcome: ReadOutcome) -> ReadStep {
    match outcome {
        ReadOutcome::Failed(e) => ReadStep::Fail(e),
        ReadOutcome::Read(n) => if n == 0 {
            ReadStep::End
        } else if offset + n > u64::MAX {
            ReadStep::Fail(ErrorCode::Overflow)
        } else {
            ReadStep::Chunk { len: n, next_offset: (offset + n) as u64 }
        },
    }
}

/// Decides what `read-via-stream` does after a read at `offset`.
pub fn read_step(offset: u64, outcome: ReadOutcome) -> (r: ReadStep)
    ensures
        r == read_step_spec(offset, outcome),
{
    match outcome {
        ReadOutcome::Failed(e) => ReadStep::Fail(e),
        ReadOutcome::Read(n) => {
            if n == 0 {
                return ReadStep::End;
            }
            let m = n as u64;
            match offset.checked_add(m) {
                Some(next) => ReadStep::Chunk { len: n, next_offset: next },
                None => ReadStep::Fail(ErrorCode::Overflow),
            }
        },
    }
}

/// How `read-via-stream` starts, given what the descriptor yielded as a
/// file (nothing, or the error for a descriptor that is no file).
#[derive(Clone, Copy, Debug, PartialEq, Eq, Structural)]
pub enum ReadStart {
    /// The file is read from the offset given.
    ReadFile,
    /// The stream closes at once without data, and the result future gets
    /// this error.
    CloseWith(ErrorCode),
}

/// Checks a descriptor before `read-via-stream`: a file is read; for a
/// descriptor that is no file, the stream closes empty and its error is the
/// result.
pub fn read_start(file: Result<(), ErrorCode>) -> (r: ReadStart)
    ensures
        r == match file {
            Ok(()) => ReadStart::ReadFile,
            Err(e) => ReadStart::CloseWith(e),
        },
{
    match file {
        Ok(()) => ReadStart::ReadFile,
        Err(e) => ReadStart::CloseWith(e),
    }
}

/// What one positioned read of a file gave.
#[derive(Clone, Debug)]
pub enum FileRead {
    /// These bytes (none at the end of the file).
    Bytes(Vec<u8>),
    /// The read failed.
    Failed(ErrorCode),
}

/// What a guest reading the stream of `read-via-stream` until it closes
/// receives, for a file read from `offset` and reads giving `reads` in
/// turn: the bytes of each read, in order, until an empty read (the result
/// is then `Ok`), a failed read (its error), or a read whose length would
/// push the offset past `u64::MAX` (`Overflow`; its bytes are not sent).
/// Before any of these, the result is still to come (`None`).
pub open spec fn read_stream(offset: u64, reads: Seq<FileRead>) -> (Seq<u8>, Option<Result<(), ErrorCode>>)
    decreases reads.len(),
{
    if reads.len() == 0 {
        (Seq::empty(), None)
    } else {
        match reads[0] {
            FileRead::Failed(e) => (Seq::empty(), Some(Err(e))),
            FileRead::Bytes(b) => if b@.len() == 0 {
                (Seq::empty(), Some(Ok(())))
            } else if offset + b@.len() > u64::MAX {
                (Seq::empty(), Some(Err(ErrorCode::Overflow)))
            } else {
                let rest = read_stream((offset + b@.len()) as u64, reads.skip(1));
                (b@ + rest.0, rest.1)
            },
        }
    }
}

/// What `read-via-stream` sends, for a descriptor that yielded `file` and
/// reads from `offset` giving `reads` in turn: for a file, the stream of
/// `read_stream`; for no file, an empty stream and the descriptor's error.
pub fn read_via_stream_outcome(file: Result<(), ErrorCode>, offset: u64, reads: &Vec<FileRead>) -> (r: (
    Vec<u8>,
    Option<Result<(), ErrorCode>>,
))
    ensures
        match file {
            Err(e) => r.0@ == Seq::<u8>::empty() && r.1 == Some(Err::<(), ErrorCode>(e)),
            Ok(()) => r.0@ == read_stream(offset, reads@).0 && r.1 == read_stream(offset, reads@).1,
        },
{
    let mut contents: Vec<u8> = Vec::new();
    match read_start(file) {
        ReadStart::CloseWith(e) => return (contents, Some(Err(e))),
        ReadStart::ReadFile => {},
    }
    let mut at = offset;
    let mut i: usize = 0;
    proof {
        assert(reads@.skip(0) =~= reads@);
        assert(contents@ + read_stream(offset, reads@).0 =~= read_stream(offset, reads@).0);
    }
    while i < reads.len()
        invariant
            i <= reads@.len(),
            file is Ok,
            read_stream(offset, reads@) == (
                contents@ + read_stream(at, reads@.skip(i as int)).0,
                read_stream(at, reads@.skip(i as int)).1,
            ),
        decreases reads@.len() - i,
    {
        proof {
            assert(reads@.skip(i as int)[0] == reads@[i as int]);
            assert(reads@.skip(i as int).skip(1) =~= reads@.skip(i + 1));
        }
        match &reads[i] {
            FileRead::Failed(e) => {
                proof {
                    assert(contents@ + Seq::<u8>::empty() =~= contents@);
                }
                return (contents, Some(Err(*e)));
            },
            FileRead::Bytes(b) => {
                match read_step(at, ReadOutcome::Read(b.len())) {
                    ReadStep::End => {
                        proof {
                            assert(contents@ + Seq::<u8>::empty() =~= contents@);
                        }
                        return (contents, Some(Ok(())));
                    },
                    ReadStep::Fail(e) => {
                        proof {
                            assert(contents@ + Seq::<u8>::empty() =~= contents@);
                        }
                        return (contents, Some(Err(e)));
                    },
                    ReadStep::Chunk { len, next_offset } => {
                        let ghost before = contents@;
                        let mut k: usize = 0;
                        while k < len
                            invariant
                                len == b@.len(),
                                k <= len,
                                contents@ == before + b@.take(k as int),
                            decreases len - k,
                        {
                            contents.push(b[k]);
                            proof {
                                assert(b@.take(k + 1) =~= b@.take(k as int).push(b@[k as int]));
                            }
                            k = k + 1;
                        }
                        proof {
                            assert(b@.take(len as int) =~= b@);
                            let rest = read_stream(next_offset, reads@.skip(i + 1));
                            assert(before + (b@ + rest.0) =~= contents@ + rest.0);
                        }
                        at = next_offset;
                    },
                }
            },
        }
        i = i + 1;
    }
    proof {
        assert(reads@.skip(i as int) =~= Seq::<FileRead>::empty());
        assert(contents@ + Seq::<u8>::empty() =~= contents@);
    }
    (contents, None)
}

/// How far `write-via-stream` has written a chunk: `written` bytes of it,
/// with the file offset at `offset`.
#[derive(Clone, Copy, Debug, PartialEq, Eq, Structural)]
pub struct WriteProgress {
    pub written: usize,
    pub offset: u64,
}

/// Records a positioned write of `n` bytes of a chunk of `len` bytes: the
/// chunk and the file offset both advance by `n`; an overflow error when
/// the offset cannot.
pub fn record_write(progress: WriteProgress, len: usize, n: usize) -> (r: Result<
    WriteProgress,
    ErrorCode,
>)
    requires
        progress.written <= len,
        n <= len - progress.written,
    ensures
        match r {
            Ok(p) => progress.offset + n <= u64::MAX && p == (WriteProgress {
                written: (progress.written + n) as usize,
                offset: (progress.offset + n) as u64,
            }),
            Err(e) => progress.offset + n > u64::MAX && e == ErrorCode::Overflow,
        },
{
    let m = n as u64;
    match progress.offset.checked_add(m) {
        Some(offset) => Ok(WriteProgress { written: progress.written + n, offset }),
        None => Err(ErrorCode::Overflow),
    }
}

/// The type of a directory entry.
#[derive(Clone, Copy, Debug, PartialEq, Eq, Structural)]
pub enum DescriptorType {
    Unknown,
    BlockDevice,
    CharacterDevice,
    Directory,
    Fifo,
    SymbolicLink,
    RegularFile,
    Socket,
}

/// An entry of a directory listing.
#[derive(Debug)]
pub struct DirectoryEntry {
    pub type_: DescriptorType,
    pub name: String,
}

/// The text that some bytes decode to, if they are valid UTF-8.
pub open spec fn utf8_text(bytes: Seq<u8>) -> Option<Seq<char>> {
    if valid_utf8(bytes) {
        Some(decode_utf8(bytes))
    } else {
        None
    }
}

/// `String::from_utf8`: the bytes decoded as text, if they are valid UTF-8.
#[verifier::external_body]
fn utf8_string(bytes: Vec<u8>) -> (r: Option<String>)
    ensures
        match r {
            Some(s) => utf8_text(bytes@) == Some(s@),
            None => utf8_text(bytes@) is None,
        },
{
    String::from_utf8(bytes).ok()
}

/// Builds a directory entry from the type of a file and its name as read
/// from the directory: names that are not valid UTF-8 are refused.
pub fn directory_entry(type_: DescriptorType, name: Vec<u8>) -> (r: Result<DirectoryEntry, ErrorCode>)
    ensures
        match utf8_text(name@) {
            Some(text) => r matches Ok(e) && e.type_ == type_ && e.name@ == text,
            None => r == Err::<DirectoryEntry, ErrorCode>(ErrorCode::IllegalByteSequence),
        },
{
    match utf8_string(name) {
        Some(name) => Ok(DirectoryEntry { type_, name }),
        None => Err(ErrorCode::IllegalByteSequence),
    }
}

} // verus!
