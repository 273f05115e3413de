//! Error codes that the file system answers with.
use vstd::prelude::*;

verus! {

/// An error code of the operating system.
#[derive(Clone, Copy, PartialEq, Eq, Structural, Debug)]
pub enum Errno {
    /// Input/output error.
    EIO,
    /// No such file or directory.
    ENOENT,
    /// Bad file descriptor.
    EBADF,
    /// Bad address.
    EFAULT,
    /// Not a directory.
    ENOTDIR,
    /// Invalid argument.
    EINVAL,
    /// Bad message.
    EBADMSG,
    /// Value too large.
    EOVERFLOW,
    /// Operation not supported.
    ENOTSUP,
    /// A code that the remote side reported.
    Reported(i32),
}

} // verus!
