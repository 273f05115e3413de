//! Utilities for dealing with file handles.
//!
//! When a file is created, its name (usually either stub.epub or stub.pdf) is not known until
//! its first several bytes have been written. So there are two kinds of file handle, and each
//! operation says what is to be done with the remote file, if there is one; what came of that is
//! handed back to a second function, which settles the answer.
use vstd::prelude::*;

use crate::errno::Errno;
use crate::fuse_provider::tablet::Underlying;
use crate::text::{add_ext, document_path, path_of, with_ext};

verus! {

/// How a file is to be opened.
#[derive(Clone, Copy, PartialEq, Eq, Structural, Debug)]
pub enum OpenAccMode {
    ReadOnly,
    WriteOnly,
    ReadWrite,
}

/// The access mode in the two low bits of the flags of an open; the combination that means
/// nothing counts as read-only.
pub open spec fn access_mode(flags: i32) -> OpenAccMode {
    if flags & 3 == 1 {
        OpenAccMode::WriteOnly
    } else if flags & 3 == 2 {
        OpenAccMode::ReadWrite
    } else {
        OpenAccMode::ReadOnly
    }
}

/// Whether the flags of an open may ask for `mode`. They ask for the one in their two low bits,
/// but flags with the bit `O_PATH` are read-only to a C library that counts it to the access mode.
pub open spec fn asks_for(flags: i32, mode: OpenAccMode) -> bool {
    mode == access_mode(flags) || flags & 0o10000000 != 0 && mode == OpenAccMode::ReadOnly
}

/// Calls `fuser::OpenFlags::acc_mode`, which compares the bits of `libc::O_ACCMODE` in the flags
/// with the three access modes, and gives read-only where they are none of them. These bits are
/// the two low ones; musl counts `O_PATH` among them too, so that which mode flags with that bit
/// ask for rests on the machine, and is not said.
#[verifier::external_body]
pub(crate) fn acc_mode(flags: i32) -> (r: OpenAccMode)
    ensures
        asks_for(flags, r),
{
    match fuser::OpenFlags(flags).acc_mode() {
        fuser::OpenAccMode::O_RDONLY => OpenAccMode::ReadOnly,
        fuser::OpenAccMode::O_WRONLY => OpenAccMode::WriteOnly,
        fuser::OpenAccMode::O_RDWR => OpenAccMode::ReadWrite,
    }
}

/// A file whose first bytes have not all been seen.
pub struct CreatedFileHandle {
    buf: Vec<u8>,
    future_path_stub: String,
}

/// Since a .metadata may exist without any content, there is a different kind of handle for
/// this case, which may be used to actually create the file. `R` is an open remote file.
pub enum FileHandle<R> {
    Created(CreatedFileHandle),
    Remote(R),
}

/// What a file handle stands for.
pub enum FileHandleView<R> {
    /// The bytes written so far, and the path of the future file without its extension.
    Created { buf: Seq<u8>, stub: Seq<char> },
    Remote(R),
}

impl CreatedFileHandle {
    /// The bytes written so far.
    pub closed spec fn written(&self) -> Seq<u8> {
        self.buf@
    }

    /// The path of the future file without its extension.
    pub closed spec fn stub(&self) -> Seq<char> {
        self.future_path_stub@
    }
}

impl<R> View for FileHandle<R> {
    type V = FileHandleView<R>;

    open spec fn view(&self) -> FileHandleView<R> {
        match *self {
            FileHandle::Created(c) => FileHandleView::Created { buf: c.written(), stub: c.stub() },
            FileHandle::Remote(f) => FileHandleView::Remote(f),
        }
    }
}

pub const PDF_MAGIC_NUMBER: [u8; 5] = [0x25, 0x50, 0x44, 0x46, 0x2d];

pub const EPUB_MAGIC_NUMBER: [u8; 4] = [0x50, 0x4b, 0x03, 0x04];

/// The kind of document that the first bytes of `buf` announce.
pub open spec fn sniff(buf: Seq<u8>) -> Option<Underlying> {
    if PDF_MAGIC_NUMBER@.is_prefix_of(buf) {
        Some(Underlying::Pdf)
    } else if EPUB_MAGIC_NUMBER@.is_prefix_of(buf) {
        Some(Underlying::Epub)
    } else {
        None
    }
}

/// The answer to a write of `n` bytes.
pub open spec fn write_count(n: nat) -> Result<u32, Errno> {
    if n <= u32::MAX {
        Ok(n as u32)
    } else {
        Err(Errno::EOVERFLOW)
    }
}

/// The first bytes of a file tell its kind: `%PDF-`, or the four bytes with which a ZIP archive
/// begins; nothing else does.
pub proof fn first_bytes_tell_the_kind(buf: Seq<u8>)
    ensures
        sniff(buf) == Some(Underlying::Pdf) <==> buf.len() >= 5 && buf[0] == 0x25 && buf[1] == 0x50
            && buf[2] == 0x44 && buf[3] == 0x46 && buf[4] == 0x2d,
        sniff(buf) == Some(Underlying::Epub) <==> buf.len() >= 4 && buf[0] == 0x50 && buf[1] == 0x4b
            && buf[2] == 0x03 && buf[3] == 0x04,
{
    if buf.len() >= 5 {
        let head = buf.subrange(0, 5);
        assert(head[0] == buf[0] && head[1] == buf[1] && head[2] == buf[2] && head[3] == buf[3]
            && head[4] == buf[4]);
        if buf[0] == 0x25 && buf[1] == 0x50 && buf[2] == 0x44 && buf[3] == 0x46 && buf[4] == 0x2d {
            assert(head =~= PDF_MAGIC_NUMBER@);
        }
    }
    if buf.len() >= 4 {
        let head = buf.subrange(0, 4);
        assert(head[0] == buf[0] && head[1] == buf[1] && head[2] == buf[2] && head[3] == buf[3]);
        if buf[0] == 0x50 && buf[1] == 0x4b && buf[2] == 0x03 && buf[3] == 0x04 {
            assert(head =~= EPUB_MAGIC_NUMBER@);
        }
    }
}

/// The answer to a write is how many bytes were written, unless that is no 32-bit number.
pub proof fn write_is_counted(n: nat)
    ensures
        n <= 0xffff_ffff ==> (write_count(n) matches Ok(m) && m == n),
        n > 0xffff_ffff ==> write_count(n) == Err::<u32, Errno>(Errno::EOVERFLOW),
{
}

/// Once the first bytes have told the kind of a document, or five bytes have told none, what is
/// written later changes nothing: however the bytes of a file are split into writes, it gets the
/// same extension.
pub proof fn sniff_is_settled(buf: Seq<u8>, more: Seq<u8>)
    requires
        sniff(buf) is Some || buf.len() >= PDF_MAGIC_NUMBER@.len(),
    ensures
        sniff(buf + more) == sniff(buf),
{
}

fn starts_with(buf: &Vec<u8>, magic: &[u8]) -> (r: bool)
    ensures
        r == magic@.is_prefix_of(buf@),
{
    if buf.len() < magic.len() {
        return false;
    }
    let mut i: usize = 0;
    while i < magic.len()
        invariant
            i <= magic.len() <= buf.len(),
            forall|j: int| 0 <= j < i ==> buf@[j] == magic@[j],
        decreases magic.len() - i,
    {
        if buf[i] != magic[i] {
            return false;
        }
        i += 1;
    }
    true
}

fn sniff_bytes(buf: &Vec<u8>) -> (r: Option<Underlying>)
    ensures
        r == sniff(buf@),
{
    if starts_with(buf, &PDF_MAGIC_NUMBER) {
        Some(Underlying::Pdf)
    } else if starts_with(buf, &EPUB_MAGIC_NUMBER) {
        Some(Underlying::Epub)
    } else {
        None
    }
}

fn count_written(n: usize) -> (r: Result<u32, Errno>)
    ensures
        r == write_count(n as nat),
{
    if n as u64 <= u32::MAX as u64 {
        Ok(n as u32)
    } else {
        Err(Errno::EOVERFLOW)
    }
}

/// What a remote file is opened for.
#[derive(Clone, Copy, PartialEq, Eq, Structural, Debug)]
pub enum RemoteAccess {
    Read,
    Write,
}

/// The part of a remote file that is to be read: `len` bytes from `offset` on, no fewer.
#[derive(Clone, Copy, PartialEq, Eq, Structural, Debug)]
pub struct ReadPlan {
    pub offset: u64,
    pub len: usize,
}

/// What came of reading a remote file.
pub enum ReadOutcome {
    SeekFailed,
    ReadFailed,
    Filled(Vec<u8>),
}

/// What is to be done for a write.
pub enum WriteStep {
    /// Write the bytes to the remote file, at `offset`.
    Forward { offset: u64 },
    /// Create the remote file `path` and write all of `content` to it.
    Create { path: String, content: Vec<u8> },
    /// Nothing: the bytes are kept, and this is the answer.
    Buffered(Result<u32, Errno>),
}

/// What came of writing to a remote file.
pub enum ForwardOutcome {
    SeekFailed,
    WriteFailed(Errno),
    Written(usize),
}

/// What came of creating a remote file and writing its first bytes.
pub enum CreateOutcome<R> {
    CreateFailed,
    WriteFailed,
    Created(R),
}

/// What a write of `data` calls for, and what it makes of the handle. A remote file takes the
/// write; before there is one, the bytes are appended to those seen so far, whatever the offset,
/// and the remote file is created with all of them once they tell its extension.
pub open spec fn write_effect<R>(
    before: FileHandleView<R>,
    offset: u64,
    data: Seq<u8>,
    step: WriteStep,
    after: FileHandleView<R>,
) -> bool {
    match before {
        FileHandleView::Remote(_) => {
            &&& after == before
            &&& step == WriteStep::Forward { offset }
        },
        FileHandleView::Created { buf, stub } => {
            &&& after == (FileHandleView::<R>::Created { buf: buf + data, stub })
            &&& match sniff(buf + data) {
                Some(kind) => step matches WriteStep::Create { path, content } && path@ == with_ext(
                    stub,
                    kind.extension(),
                ) && content@ == buf + data,
                None => step == WriteStep::Buffered(write_count(data.len())),
            }
        },
    }
}

impl<R> FileHandle<R> {
    /// Create a file and return a file handle. This does not yet create the file on the tablet:
    /// several bytes have to be seen before committing to a file name.
    pub fn create(stub: &str) -> (r: Self)
        ensures
            r@ == (FileHandleView::<R>::Created { buf: Seq::empty(), stub: path_of(stub@) }),
    {
        FileHandle::Created(
            CreatedFileHandle { buf: Vec::new(), future_path_stub: document_path(stub) },
        )
    }

    /// What a remote file is to be opened for. It cannot be opened for reading and writing.
    pub fn open(mode: OpenAccMode) -> (r: Result<RemoteAccess, Errno>)
        ensures
            r == match mode {
                OpenAccMode::ReadOnly => Ok::<RemoteAccess, Errno>(RemoteAccess::Read),
                OpenAccMode::WriteOnly => Ok(RemoteAccess::Write),
                OpenAccMode::ReadWrite => Err(Errno::ENOTSUP),
            },
    {
        match mode {
            OpenAccMode::ReadOnly => Ok(RemoteAccess::Read),
            OpenAccMode::WriteOnly => Ok(RemoteAccess::Write),
            OpenAccMode::ReadWrite => Err(Errno::ENOTSUP),
        }
    }

    /// The handle of a remote file that was opened; `None` where it could not be.
    pub fn opened(file: Option<R>) -> (r: Result<Self, Errno>)
        ensures
            r == match file {
                Some(f) => Ok(FileHandle::Remote(f)),
                None => Err(Errno::EBADMSG),
            },
    {
        match file {
            Some(f) => Ok(FileHandle::Remote(f)),
            // There's not really a good errno for this, but we do our best:
            None => Err(Errno::EBADMSG),
        }
    }

    /// Which part of the remote file is to be read. There is nothing to read before there is
    /// one.
    pub fn read(&self, offset: u64, len: usize) -> (r: Result<ReadPlan, Errno>)
        ensures
            r == match *self {
                FileHandle::Remote(_) => Ok(ReadPlan { offset, len }),
                FileHandle::Created(_) => Err(Errno::EBADF),
            },
    {
        match self {
            FileHandle::Remote(_) => Ok(ReadPlan { offset, len }),
            FileHandle::Created(_) => Err(Errno::EBADF),
        }
    }

    /// The answer to a read of the remote file.
    pub fn read_done(outcome: ReadOutcome) -> (r: Result<Vec<u8>, Errno>)
        ensures
            r == match outcome {
                ReadOutcome::Filled(out) => Ok(out),
                _ => Err(Errno::EIO),
            },
    {
        match outcome {
            ReadOutcome::Filled(out) => Ok(out),
            ReadOutcome::SeekFailed => Err(Errno::EIO),
            ReadOutcome::ReadFailed => Err(Errno::EIO),
        }
    }

    /// What is to be done for a write of `data`.
    pub fn write(&mut self, offset: u64, data: &[u8]) -> (r: WriteStep)
        ensures
            write_effect(old(self)@, offset, data@, r, final(self)@),
    {
        match self {
            FileHandle::Remote(_) => WriteStep::Forward { offset },
            FileHandle::Created(fh) => {
                let ghost before = fh.buf@;
                fh.buf.extend_from_slice(data);
                assert(fh.buf@ =~= before + data@);
                match sniff_bytes(&fh.buf) {
                    Some(kind) => {
                        let content = fh.buf.clone();
                        WriteStep::Create {
                            path: add_ext(fh.future_path_stub.as_str(), kind.ext()),
                            content,
                        }
                    },
                    None => WriteStep::Buffered(count_written(data.len())),
                }
            },
        }
    }

    /// The answer to a write that went to the remote file.
    pub fn write_forwarded(outcome: ForwardOutcome) -> (r: Result<u32, Errno>)
        ensures
            r == match outcome {
                ForwardOutcome::SeekFailed => Err(Errno::EIO),
                ForwardOutcome::WriteFailed(e) => Err(e),
                ForwardOutcome::Written(n) => write_count(n as nat),
            },
    {
        match outcome {
            ForwardOutcome::SeekFailed => Err(Errno::EIO),
            ForwardOutcome::WriteFailed(e) => Err(e),
            ForwardOutcome::Written(n) => count_written(n),
        }
    }

    /// The answer to a write of `len` bytes that called for the remote file to be created. From
    /// then on the handle is that of the remote file; where it could not be created, the handle
    /// stays as it was.
    pub fn write_created(&mut self, outcome: CreateOutcome<R>, len: usize) -> (r: Result<
        u32,
        Errno,
    >)
        ensures
            match outcome {
                CreateOutcome::Created(f) => {
                    &&& *final(self) == FileHandle::Remote(f)
                    &&& r == write_count(len as nat)
                },
                _ => {
                    &&& *final(self) == *old(self)
                    &&& r == Err::<u32, Errno>(Errno::EIO)
                },
            },
    {
        match outcome {
            CreateOutcome::Created(f) => {
                *self = FileHandle::Remote(f);
                count_written(len)
            },
            CreateOutcome::CreateFailed => Err(Errno::EIO),
            CreateOutcome::WriteFailed => Err(Errno::EIO),
        }
    }

    /// The remote file that is to be shut down. There is none where too little was written to
    /// tell the file's extension.
    pub fn shutdown(self) -> (r: Result<R, Errno>)
        ensures
            r == match self {
                FileHandle::Remote(f) => Ok(f),
                FileHandle::Created(_) => Err(Errno::EINVAL),
            },
    {
        match self {
            FileHandle::Remote(f) => Ok(f),
            FileHandle::Created(_) => Err(Errno::EINVAL),
        }
    }
}

} // verus!
