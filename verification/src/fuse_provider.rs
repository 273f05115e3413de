//! The file system's operations.
//!
//! Each operation answers at once where it can. Where the tablet has to be talked to first, it
//! says what is to be done; what came of it is handed to a second function, which answers.
use vstd::prelude::*;

use crate::errno::Errno;
use crate::fuse_provider::fh::{
    asks_for, write_count, write_effect, CreateOutcome, FileHandle, OpenAccMode, ReadPlan,
    WriteStep,
};
use crate::fuse_provider::fh_store::{FhStore, FhStoreView};
use crate::fuse_provider::listing::{lists_keys, sent_after, Listing};
use crate::fuse_provider::tablet::{
    new_asset, open_answer, pointer, Asset, Db, DbPointer, DbView, FileAttr, NewFileError, OpenStep,
    TabletSftpError,
};
use crate::ident::{ino_of, is_v4};
use crate::text::same_text;

pub mod answers;
pub mod calls;
pub mod detect;
pub mod fh;
pub mod fh_store;
pub mod laws;
pub mod listing;
pub mod tablet;
pub mod tree;

verus! {

/// The tablet's documents and the files that are open. `R` is an open remote file.
pub struct FuseProvider<R> {
    pub tablet_db: Db,
    pub file_handles: FhStore<R>,
    // Keep track of our owning uid, gid for sending perm info.
    pub uid: u32,
    pub gid: u32,
}

/// The first of `children` with the visible name `name`, or the reason why there is none. The
/// search ends at a child that is not in the database.
pub open spec fn find(db: DbView, children: Seq<u64>, name: Option<Seq<char>>) -> Result<u64, Errno>
    decreases children.len(),
{
    if children.len() == 0 {
        Err(Errno::ENOENT)
    } else if !db.store.contains_key(children[0]) {
        Err(Errno::EFAULT)
    } else if name == Some(db.store[children[0]].md.visible_name) {
        Ok(children[0])
    } else {
        find(db, children.skip(1), name)
    }
}

/// The characters of a file name; `None` for a name that is not text.
pub open spec fn name_text(name: Option<&str>) -> Option<Seq<char>> {
    match name {
        Some(s) => Some(s@),
        None => None,
    }
}

/// The answer to a lookup.
pub open spec fn lookup_answer(
    db: DbView,
    parent: DbPointer,
    name: Option<Seq<char>>,
    uid: u32,
    gid: u32,
) -> Result<FileAttr, Errno> {
    match db.children(parent) {
        Err(e) => Err(e),
        Ok(children) => match find(db, children, name) {
            Err(e) => Err(e),
            Ok(child) => Ok(db.attr(DbPointer::INode { id: child }, uid, gid)->0),
        },
    }
}

impl NewFileError {
    /// The code for this error.
    pub open spec fn code(self) -> Errno {
        match self {
            NewFileError::CantResolveParent => Errno::EINVAL,
            NewFileError::TransportError(_) => Errno::EIO,
        }
    }

    /// The code for this error.
    pub fn errno(&self) -> (r: Errno)
        ensures
            r == self.code(),
    {
        match self {
            NewFileError::CantResolveParent => Errno::EINVAL,
            NewFileError::TransportError(_) => Errno::EIO,
        }
    }
}

impl<R> FuseProvider<R> {
    pub fn new(tablet_db: Db, uid: u32, gid: u32) -> (r: Self)
        ensures
            r.tablet_db == tablet_db,
            r.file_handles.wf(),
            r.file_handles@ == FhStoreView::<R>::empty(),
            r.uid == uid,
            r.gid == gid,
    {
        FuseProvider { tablet_db, file_handles: FhStore::new(), uid, gid }
    }

    /// Whether there is a file `ino`.
    pub fn access(&self, ino: u64) -> (r: Result<(), Errno>)
        ensures
            match r {
                Ok(_) => self.tablet_db@.contains(pointer(ino)),
                Err(e) => !self.tablet_db@.contains(pointer(ino)) && e == Errno::ENOENT,
            },
    {
        if self.tablet_db.contains(DbPointer::from(ino)) {
            Ok(())
        } else {
            Err(Errno::ENOENT)
        }
    }

    /// The attributes of the file `ino`.
    pub fn getattr(&self, ino: u64) -> (r: Result<FileAttr, Errno>)
        ensures
            r == match self.tablet_db@.attr(pointer(ino), self.uid, self.gid) {
                Some(attr) => Ok::<FileAttr, Errno>(attr),
                None => Err(Errno::ENOENT),
            },
    {
        match self.tablet_db.get_attr_for(DbPointer::from(ino), self.uid, self.gid) {
            Some(attr) => Ok(attr),
            None => Err(Errno::ENOENT),
        }
    }

    /// The entries of the directory `ino` that come after `offset`.
    pub fn readdir(&self, ino: u64, offset: u64) -> (r: Result<Listing, Errno>)
        ensures
            match self.tablet_db@.children(pointer(ino)) {
                Ok(children) => r matches Ok(l) && lists_keys(
                    l,
                    self.tablet_db@,
                    ino,
                    sent_after(children, offset),
                ),
                Err(e) => r matches Err(e2) && e2 == e,
            },
    {
        match self.tablet_db.get_children(DbPointer::from(ino)) {
            Ok(children) => Ok(Listing::of(&self.tablet_db, ino, children, offset)),
            Err(e) => Err(e),
        }
    }

    /// The attributes of the file `name` in the directory `parent`. `name` is `None` where it is
    /// not text.
    pub fn lookup(&self, parent: u64, name: Option<&str>) -> (r: Result<FileAttr, Errno>)
        ensures
            r == lookup_answer(
                self.tablet_db@,
                pointer(parent),
                name_text(name),
                self.uid,
                self.gid,
            ),
    {
        let children = match self.tablet_db.get_children(DbPointer::from(parent)) {
            Err(e) => {
                return Err(e);
            },
            Ok(children) => children,
        };
        let ghost db = self.tablet_db@;
        let mut i: usize = 0;
        assert(children@.skip(0) =~= children@);
        while i < children.len()
            invariant
                i <= children@.len(),
                db == self.tablet_db@,
                db.children(pointer(parent)) == Ok::<Seq<u64>, Errno>(children@),
                find(db, children@, name_text(name)) == find(
                    db,
                    children@.skip(i as int),
                    name_text(name),
                ),
            decreases children.len() - i,
        {
            let child: u64 = children[i];
            assert(children@.skip(i as int).skip(1) =~= children@.skip(i + 1));
            let md = match self.tablet_db.get_metadata(child) {
                Some(md) => md,
                None => {
                    return Err(Errno::EFAULT);
                },
            };
            let found = match name {
                Some(s) => same_text(&md.visible_name, s),
                None => false,
            };
            if found {
                return match self.tablet_db.get_attr_for(
                    DbPointer::INode { id: child },
                    self.uid,
                    self.gid,
                ) {
                    Some(attr) => Ok(attr),
                    None => Err(Errno::ENOENT),
                };
            }
            i += 1;
        }
        Err(Errno::ENOENT)
    }

    /// A new file `name` in the directory `parent`. `name` is `None` where it is not text. The
    /// file is not in the database until it is written and `mknod_written` is called.
    pub fn mknod(&self, parent: u64, name: Option<&str>) -> (r: Result<Asset, Errno>)
        ensures
            match (name_text(name), self.tablet_db@.parent_field(pointer(parent))) {
                (Some(text), Some(field)) => r matches Ok(child) && is_v4(child@.id) && child@
                    == new_asset(field, text, child@.id),
                _ => r matches Err(e) && e == Errno::EINVAL,
            },
    {
        match name {
            None => Err(Errno::EINVAL),
            Some(str_name) => match self.tablet_db.new_file(DbPointer::from(parent), str_name) {
                Err(e) => Err(e.errno()),
                Ok(child) => Ok(child),
            },
        }
    }

    /// Takes the new file `child` into the directory `parent` once its files are written, and
    /// answers with its attributes.
    pub fn mknod_written(
        &mut self,
        parent: u64,
        child: Asset,
        written: Result<(), TabletSftpError>,
    ) -> (r: Result<FileAttr, Errno>)
        requires
            written is Ok ==> !old(self).tablet_db@.store.contains_key(ino_of(child@.id)),
        ensures
            final(self).file_handles == old(self).file_handles,
            final(self).uid == old(self).uid,
            final(self).gid == old(self).gid,
            ({
                let before = old(self).tablet_db@;
                let after = final(self).tablet_db@;
                let ino = ino_of(child@.id);
                let stored = before.stored(child@);
                if written is Err {
                    &&& r == Err::<FileAttr, Errno>(Errno::EIO)
                    &&& after == before
                } else if stored.contains(pointer(parent)) {
                    &&& after == stored.listed(pointer(parent), ino)
                    &&& after.attr(DbPointer::INode { id: ino }, old(self).uid, old(self).gid)
                        == Some(r->Ok_0)
                    &&& r is Ok
                } else {
                    &&& r == Err::<FileAttr, Errno>(Errno::EINVAL)
                    &&& after == stored
                }
            }),
    {
        match written {
            Err(e) => Err(NewFileError::TransportError(e).errno()),
            Ok(_) => match self.tablet_db.add_file(DbPointer::from(parent), child) {
                Err(e) => Err(e.errno()),
                Ok(id) => match self.tablet_db.get_attr_for(
                    DbPointer::INode { id },
                    self.uid,
                    self.gid,
                ) {
                    Some(attr) => Ok(attr),
                    None => vstd::pervasive::unreached(),
                },
            },
        }
    }

    /// Keeps the handle of a file that was opened, and answers with its index.
    pub fn opened(&mut self, handle: FileHandle<R>) -> (r: u64)
        requires
            old(self).file_handles.wf(),
        ensures
            final(self).file_handles.wf(),
            r == old(self).file_handles@.next_index(),
            !old(self).file_handles@.handles.contains_key(r),
            final(self).file_handles@ == old(self).file_handles@.pushed(handle),
            final(self).tablet_db == old(self).tablet_db,
            final(self).uid == old(self).uid,
            final(self).gid == old(self).gid,
    {
        self.file_handles.push(handle)
    }

    /// Gives up the handle at `fh`, which is then to be shut down.
    pub fn release(&mut self, fh: u64) -> (r: FileHandle<R>)
        requires
            old(self).file_handles.wf(),
            old(self).file_handles@.handles.contains_key(fh),
        ensures
            final(self).file_handles.wf(),
            r == old(self).file_handles@.handles[fh],
            final(self).file_handles@ == old(self).file_handles@.deleted(fh),
            final(self).tablet_db == old(self).tablet_db,
            final(self).uid == old(self).uid,
            final(self).gid == old(self).gid,
    {
        self.file_handles.delete(fh)
    }

    /// The answer to a release, after the handle was shut down or could not be.
    pub fn released(shut_down: bool) -> (r: Result<(), Errno>)
        ensures
            match r {
                Ok(_) => shut_down,
                Err(e) => !shut_down && e == Errno::EIO,
            },
    {
        if shut_down {
            Ok(())
        } else {
            Err(Errno::EIO)
        }
    }

    /// What is to be done to open the file `ino`.
    pub fn open(&self, ino: u64, flags: i32) -> (r: Result<OpenStep<R>, Errno>)
        ensures
            exists|mode: OpenAccMode| #[trigger]
                asks_for(flags, mode) && open_answer(self.tablet_db@, ino, mode, r),
    {
        self.tablet_db.open_file(ino, flags)
    }

    /// Which part of the remote file at `fh` is to be read.
    pub fn read(&self, fh: u64, offset: u64, size: u32) -> (r: Result<ReadPlan, Errno>)
        requires
            self.file_handles.wf(),
            self.file_handles@.handles.contains_key(fh),
        ensures
            r == match self.file_handles@.handles[fh] {
                FileHandle::Remote(_) => Ok(ReadPlan { offset, len: size as usize }),
                FileHandle::Created(_) => Err(Errno::EBADF),
            },
    {
        self.file_handles.index(fh).read(offset, size as usize)
    }

    /// What is to be done for a write of `data` to the file at `fh`.
    pub fn write(&mut self, fh: u64, offset: u64, data: &[u8]) -> (r: WriteStep)
        requires
            old(self).file_handles.wf(),
            old(self).file_handles@.handles.contains_key(fh),
        ensures
            final(self).file_handles.wf(),
            final(self).file_handles@ == (FhStoreView {
                handles: old(self).file_handles@.handles.insert(
                    fh,
                    final(self).file_handles@.handles[fh],
                ),
                ..old(self).file_handles@
            }),
            write_effect(
                old(self).file_handles@.handles[fh]@,
                offset,
                data@,
                r,
                final(self).file_handles@.handles[fh]@,
            ),
            final(self).tablet_db == old(self).tablet_db,
            final(self).uid == old(self).uid,
            final(self).gid == old(self).gid,
    {
        let handle = self.file_handles.index_mut(fh);
        handle.write(offset, data)
    }

    /// The answer to a write of `len` bytes that called for the remote file at `fh` to be
    /// created.
    pub fn write_created(&mut self, fh: u64, outcome: CreateOutcome<R>, len: usize) -> (r: Result<
        u32,
        Errno,
    >)
        requires
            old(self).file_handles.wf(),
            old(self).file_handles@.handles.contains_key(fh),
        ensures
            final(self).file_handles.wf(),
            match outcome {
                CreateOutcome::Created(f) => {
                    &&& r == write_count(len as nat)
                    &&& final(self).file_handles@ == (FhStoreView {
                        handles: old(self).file_handles@.handles.insert(fh, FileHandle::Remote(f)),
                        ..old(self).file_handles@
                    })
                },
                _ => {
                    &&& r == Err::<u32, Errno>(Errno::EIO)
                    &&& final(self).file_handles@ == old(self).file_handles@
                },
            },
            final(self).tablet_db == old(self).tablet_db,
            final(self).uid == old(self).uid,
            final(self).gid == old(self).gid,
    {
        let handle = self.file_handles.index_mut(fh);
        let r = handle.write_created(outcome, len);
        r
    }
}

} // verus!
