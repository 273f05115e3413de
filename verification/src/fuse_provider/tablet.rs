//! The documents on the tablet, as they are described by its metadata files.
use std::collections::HashMap;
use vstd::prelude::*;

use crate::errno::Errno;
use crate::fuse_provider::fh::{
    acc_mode, asks_for, FileHandle, FileHandleView, OpenAccMode, RemoteAccess,
};
use crate::ident::{encode_lower, hyphenated, ino_of, is_v4, parsed, random_v4, uuid_to_ino, Uuid};
use crate::text::{add_ext, document_path, path_of, same_text, with_ext};

verus! {

broadcast use vstd::std_specs::hash::group_hash_axioms;

/// What a metadata file says of an asset.
pub struct Metadata {
    pub deleted: bool,
    pub last_modified: String,
    pub metadata_modified: bool,
    pub parent: String,
    pub pinned: bool,
    pub synced: bool,
    pub doc_type: String,
    pub version: u32,
    pub visible_name: String,
}

#[verifier::ext_equal]
pub struct MetadataView {
    pub deleted: bool,
    pub last_modified: Seq<char>,
    pub metadata_modified: bool,
    pub parent: Seq<char>,
    pub pinned: bool,
    pub synced: bool,
    pub doc_type: Seq<char>,
    pub version: u32,
    pub visible_name: Seq<char>,
}

impl View for Metadata {
    type V = MetadataView;

    open spec fn view(&self) -> MetadataView {
        MetadataView {
            deleted: self.deleted,
            last_modified: self.last_modified@,
            metadata_modified: self.metadata_modified,
            parent: self.parent@,
            pinned: self.pinned,
            synced: self.synced,
            doc_type: self.doc_type@,
            version: self.version,
            visible_name: self.visible_name@,
        }
    }
}

impl MetadataView {
    /// Whether the asset is a directory.
    pub open spec fn is_collection(self) -> bool {
        self.doc_type == "CollectionType"@
    }
}

/// A document or directory on the tablet.
pub struct Asset {
    pub md: Metadata,
    pub children: Vec<u64>,
    pub id: Uuid,
    pub underlying: Option<Underlying>,
    pub size_on_disk: u64,
}

#[verifier::ext_equal]
pub struct AssetView {
    pub md: MetadataView,
    pub children: Seq<u64>,
    pub id: Seq<u8>,
    pub underlying: Option<Underlying>,
    pub size_on_disk: u64,
}

impl View for Asset {
    type V = AssetView;

    open spec fn view(&self) -> AssetView {
        AssetView {
            md: self.md@,
            children: self.children@,
            id: self.id@,
            underlying: self.underlying,
            size_on_disk: self.size_on_disk,
        }
    }
}

/// The kind of document file that backs an asset.
#[derive(Clone, Copy, PartialEq, Eq, Structural, Debug)]
pub enum Underlying {
    Pdf,
    Epub,
}

/// Refers to the root directory, or to an asset by its inode number.
#[derive(Clone, Copy, PartialEq, Eq, Structural, Debug)]
pub enum DbPointer {
    Root,
    INode { id: u64 },
}

/// Why a file was not created.
#[derive(Clone, Copy, PartialEq, Eq, Structural, Debug)]
pub enum NewFileError {
    /// Can't resolve parent.
    CantResolveParent,
    /// Can't talk to tablet.
    TransportError(TabletSftpError),
}

/// Why the tablet could not be talked to.
#[derive(Clone, Copy, PartialEq, Eq, Structural, Debug)]
pub enum TabletSftpError {
    IO,
    TransportError,
    SerializationFailure,
}

/// Why the assets do not form a database.
#[derive(Debug)]
pub enum BuildError {
    /// The name of a metadata file is no ID.
    InvalidId,
    /// Two assets have the same inode number; this is the ID of the later one.
    DuplicateId(Uuid),
    /// A parent field holds neither an ID nor one of the two special names.
    InvalidParent(String),
    /// A parent field refers to an inode number that no asset has.
    MissingParent(u64),
}

#[derive(Clone, Copy, PartialEq, Eq, Structural, Debug)]
pub enum FileType {
    Directory,
    RegularFile,
}

/// The attributes of a file. Times are seconds since the epoch.
#[derive(Clone, Copy, PartialEq, Eq, Structural, Debug)]
pub struct FileAttr {
    pub ino: u64,
    pub size: u64,
    pub blocks: u64,
    pub atime: u64,
    pub mtime: u64,
    pub ctime: u64,
    pub crtime: u64,
    pub kind: FileType,
    pub perm: u16,
    pub nlink: u32,
    pub uid: u32,
    pub gid: u32,
    pub rdev: u32,
    pub blksize: u32,
    pub flags: u32,
}

/// The assets by inode number, and the two lists that are no asset's children.
pub struct Db {
    root: Vec<u64>,
    trash: Vec<u64>,
    store: HashMap<u64, Asset>,
}

#[verifier::ext_equal]
pub struct DbView {
    pub root: Seq<u64>,
    pub trash: Seq<u64>,
    pub store: Map<u64, AssetView>,
}

impl View for Db {
    type V = DbView;

    closed spec fn view(&self) -> DbView {
        DbView {
            root: self.root@,
            trash: self.trash@,
            store: self.store@.map_values(|a: Asset| a@),
        }
    }
}

/// The inode number of the root directory.
pub open spec fn root_ino() -> u64 {
    1
}

/// What an inode number refers to.
pub open spec fn pointer(ino: u64) -> DbPointer {
    if ino == root_ino() {
        DbPointer::Root
    } else {
        DbPointer::INode { id: ino }
    }
}

impl From<u64> for DbPointer {
    fn from(id: u64) -> (r: Self) {
        match id {
            1 => DbPointer::Root,
            _ => DbPointer::INode { id },
        }
    }
}

impl vstd::std_specs::convert::FromSpecImpl<u64> for DbPointer {
    open spec fn obeys_from_spec() -> bool {
        true
    }

    open spec fn from_spec(id: u64) -> DbPointer {
        pointer(id)
    }
}

impl From<Uuid> for DbPointer {
    fn from(uuid: Uuid) -> (r: Self) {
        DbPointer::from(uuid_to_ino(uuid))
    }
}

impl vstd::std_specs::convert::FromSpecImpl<Uuid> for DbPointer {
    open spec fn obeys_from_spec() -> bool {
        true
    }

    open spec fn from_spec(uuid: Uuid) -> DbPointer {
        pointer(ino_of(uuid@))
    }
}

/// The attributes of a directory or of a document.
pub open spec fn attr_of(ino: u64, size: u64, collection: bool, uid: u32, gid: u32) -> FileAttr {
    FileAttr {
        ino,
        size,
        blocks: 0,
        atime: 0,
        mtime: 0,
        ctime: 0,
        crtime: 0,
        kind: if collection {
            FileType::Directory
        } else {
            FileType::RegularFile
        },
        perm: if collection {
            0o770
        } else {
            0o660
        },
        nlink: 0,
        uid,
        gid,
        rdev: 0,
        blksize: 4096,
        flags: 0,
    }
}

impl DbView {
    /// Whether `ptr` refers to something.
    pub open spec fn contains(self, ptr: DbPointer) -> bool {
        match ptr {
            DbPointer::Root => true,
            DbPointer::INode { id } => self.store.contains_key(id),
        }
    }

    /// What the directory at `ptr` holds.
    pub open spec fn children(self, ptr: DbPointer) -> Result<Seq<u64>, Errno> {
        match ptr {
            DbPointer::Root => Ok(self.root),
            DbPointer::INode { id } => if !self.store.contains_key(id) {
                Err(Errno::ENOENT)
            } else if !self.store[id].md.is_collection() {
                Err(Errno::ENOTDIR)
            } else {
                Ok(self.store[id].children)
            },
        }
    }

    /// The attributes of what `ptr` refers to.
    pub open spec fn attr(self, ptr: DbPointer, uid: u32, gid: u32) -> Option<FileAttr> {
        match ptr {
            DbPointer::Root => Some(attr_of(root_ino(), 0, true, uid, gid)),
            DbPointer::INode { id } => if self.store.contains_key(id) {
                Some(
                    attr_of(
                        id,
                        self.store[id].size_on_disk,
                        self.store[id].md.is_collection(),
                        uid,
                        gid,
                    ),
                )
            } else {
                None
            },
        }
    }
}

impl Default for Db {
    fn default() -> (r: Self)
        ensures
            r@ == (DbView { root: Seq::empty(), trash: Seq::empty(), store: Map::empty() }),
    {
        let r = Db { root: Vec::new(), trash: Vec::new(), store: HashMap::new() };
        r
    }
}

impl Db {
    /// Whether `ptr` refers to something.
    pub fn contains(&self, ptr: DbPointer) -> (r: bool)
        ensures
            r == self@.contains(ptr),
    {
        match ptr {
            DbPointer::INode { id } => self.store.contains_key(&id),
            _ => true,
        }
    }

    /// What the directory at `ptr` holds.
    pub fn get_children(&self, ptr: DbPointer) -> (r: Result<&[u64], Errno>)
        ensures
            match r {
                Ok(children) => self@.children(ptr) == Ok::<Seq<u64>, Errno>(children@),
                Err(e) => self@.children(ptr) == Err::<Seq<u64>, Errno>(e),
            },
    {
        match ptr {
            DbPointer::Root => Ok(self.root.as_slice()),
            DbPointer::INode { id } => match self.store.get(&id) {
                Some(asset) => {
                    if same_text(&asset.md.doc_type, "CollectionType") {
                        Ok(asset.children.as_slice())
                    } else {
                        Err(Errno::ENOTDIR)
                    }
                },
                None => Err(Errno::ENOENT),
            },
        }
    }

    /// The metadata of an asset.
    pub fn get_metadata(&self, id: u64) -> (r: Option<&Metadata>)
        ensures
            match r {
                Some(md) => self@.store.contains_key(id) && md@ == self@.store[id].md,
                None => !self@.store.contains_key(id),
            },
    {
        match self.store.get(&id) {
            Some(x) => Some(&x.md),
            None => None,
        }
    }

    fn get_size_on_disk(&self, id: u64) -> (r: Option<u64>)
        ensures
            match r {
                Some(size) => self@.store.contains_key(id) && size == self@.store[id].size_on_disk,
                None => !self@.store.contains_key(id),
            },
    {
        match self.store.get(&id) {
            Some(x) => Some(x.size_on_disk),
            None => None,
        }
    }

    /// The ID of an asset.
    pub fn get_uuid(&self, id: u64) -> (r: Option<Uuid>)
        ensures
            match r {
                Some(uuid) => self@.store.contains_key(id) && uuid@ == self@.store[id].id,
                None => !self@.store.contains_key(id),
            },
    {
        match self.store.get(&id) {
            Some(x) => Some(x.id),
            None => None,
        }
    }

    /// The attributes of what `ptr` refers to.
    pub fn get_attr_for(&self, ptr: DbPointer, uid: u32, gid: u32) -> (r: Option<FileAttr>)
        ensures
            r == self@.attr(ptr, uid, gid),
    {
        match ptr {
            DbPointer::INode { id } => {
                let md = self.get_metadata(id)?;
                let collection = same_text(&md.doc_type, "CollectionType");
                let size = self.get_size_on_disk(id)?;
                Some(
                    FileAttr {
                        ino: id,
                        size,
                        blocks: 0,
                        atime: 0,
                        mtime: 0,
                        ctime: 0,
                        crtime: 0,
                        kind: if collection {
                            FileType::Directory
                        } else {
                            FileType::RegularFile
                        },
                        perm: if collection {
                            0o770
                        } else {
                            0o660
                        },
                        nlink: 0,
                        uid,
                        gid,
                        rdev: 0,
                        blksize: 4096,
                        flags: 0,
                    },
                )
            },
            DbPointer::Root => Some(
                FileAttr {
                    ino: 1,
                    size: 0,
                    blocks: 0,
                    atime: 0,
                    mtime: 0,
                    ctime: 0,
                    crtime: 0,
                    kind: FileType::Directory,
                    perm: 0o770,
                    nlink: 0,
                    uid,
                    gid,
                    rdev: 0,
                    blksize: 4096,
                    flags: 0,
                },
            ),
        }
    }
}

impl Underlying {
    /// The file name extension of this kind of document.
    pub open spec fn extension(self) -> Seq<char> {
        match self {
            Underlying::Pdf => "pdf"@,
            Underlying::Epub => "epub"@,
        }
    }

    /// The file name extension of this kind of document.
    pub fn ext(&self) -> (r: &'static str)
        ensures
            r@ == self.extension(),
    {
        match self {
            Underlying::Pdf => "pdf",
            Underlying::Epub => "epub",
        }
    }
}

/// Where an asset's parent field puts it.
pub enum Parent {
    Root,
    Trash,
    /// Under the asset with this inode number.
    Under(u64),
    /// The field says nothing that can be understood.
    Invalid,
}

/// Where the parent field `parent` puts an asset.
pub open spec fn parent_of(parent: Seq<char>) -> Parent {
    if parent == ""@ {
        Parent::Root
    } else if parent == "trash"@ {
        Parent::Trash
    } else {
        match parsed(parent) {
            Some(id) => Parent::Under(ino_of(id)),
            None => Parent::Invalid,
        }
    }
}

impl DbView {
    /// Where the asset `k` belongs.
    pub open spec fn place(self, k: u64) -> Parent {
        parent_of(self.store[k].md.parent)
    }

    /// Whether the place where the asset `k` belongs is there.
    pub open spec fn linkable(self, k: u64) -> bool {
        match self.place(k) {
            Parent::Root => true,
            Parent::Trash => true,
            Parent::Under(p) => self.store.contains_key(p),
            Parent::Invalid => false,
        }
    }

    /// Those of `keys` that belong at `place`, in the order of `keys`.
    pub open spec fn at_place(self, keys: Seq<u64>, place: Parent) -> Seq<u64> {
        keys.filter(|k: u64| self.place(k) == place)
    }

    /// The database with each of `keys` listed where it belongs, behind what is listed there.
    pub open spec fn linked(self, keys: Seq<u64>) -> DbView {
        DbView {
            root: self.root + self.at_place(keys, Parent::Root),
            trash: self.trash + self.at_place(keys, Parent::Trash),
            store: Map::new(
                |k: u64| self.store.contains_key(k),
                |k: u64|
                    AssetView {
                        children: self.store[k].children + self.at_place(keys, Parent::Under(k)),
                        ..self.store[k]
                    },
            ),
        }
    }

    /// Whether `e` is the reason why the asset `k` cannot be listed where it belongs.
    pub open spec fn link_error(self, k: u64, e: BuildError) -> bool {
        match self.place(k) {
            Parent::Under(p) => !self.store.contains_key(p) && e == BuildError::MissingParent(p),
            Parent::Invalid => e matches BuildError::InvalidParent(s) && s@
                == self.store[k].md.parent,
            _ => false,
        }
    }
}

/// What comes of listing each of `keys` where it belongs: all are listed, or those before the
/// first one that cannot be.
pub open spec fn link_outcome(
    before: DbView,
    keys: Seq<u64>,
    r: Result<(), BuildError>,
    after: DbView,
) -> bool {
    match r {
        Ok(_) => {
            &&& forall|i: int| 0 <= i < keys.len() ==> before.linkable(#[trigger] keys[i])
            &&& after == before.linked(keys)
        },
        Err(e) => exists|i: int|
            {
                &&& 0 <= i < keys.len()
                &&& forall|j: int| 0 <= j < i ==> before.linkable(#[trigger] keys[j])
                &&& before.link_error(#[trigger] keys[i], e)
                &&& after == before.linked(keys.take(i))
            },
    }
}

/// Whether `keys` are the inode numbers of all assets, in some order.
pub open spec fn all_keys(keys: Seq<u64>, store: Map<u64, AssetView>) -> bool {
    keys.no_duplicates() && keys.to_set() == store.dom()
}

proof fn lemma_at_place_step(db: DbView, keys: Seq<u64>, i: int, place: Parent)
    requires
        0 <= i < keys.len(),
    ensures
        db.at_place(keys.take(i + 1), place) == if db.place(keys[i]) == place {
            db.at_place(keys.take(i), place).push(keys[i])
        } else {
            db.at_place(keys.take(i), place)
        },
{
    let s = keys.take(i + 1);
    assert(s.drop_last() =~= keys.take(i));
    reveal_with_fuel(Seq::filter, 1);
}

impl Db {
    /// Add an asset to the store. Do not maintain parentage structure.
    pub fn push(
        &mut self,
        id: Uuid,
        md: Metadata,
        underlying: Option<Underlying>,
        size_on_disk: u64,
    ) -> (r: Result<(), BuildError>)
        ensures
            final(self)@ == (DbView {
                store: old(self)@.store.insert(
                    ino_of(id@),
                    AssetView {
                        md: md@,
                        children: Seq::empty(),
                        id: id@,
                        underlying,
                        size_on_disk,
                    },
                ),
                ..old(self)@
            }),
            r == if old(self)@.store.contains_key(ino_of(id@)) {
                Err::<(), BuildError>(BuildError::DuplicateId(id))
            } else {
                Ok::<(), BuildError>(())
            },
    {
        let asset = Asset { md, id, underlying, size_on_disk, children: Vec::new() };
        let ino = uuid_to_ino(id);
        let replaced = self.store.insert(ino, asset);
        match replaced {
            Some(_) => Err(BuildError::DuplicateId(id)),
            None => Ok(()),
        }
    }

    /// List each of `keys` where its parent field says that it belongs. This stops at the first
    /// one that cannot be listed.
    pub fn link(&mut self, keys: &Vec<u64>) -> (r: Result<(), BuildError>)
        requires
            forall|i: int|
                0 <= i < keys@.len() ==> old(self)@.store.contains_key(#[trigger] keys@[i]),
        ensures
            link_outcome(old(self)@, keys@, r, final(self)@),
    {
        let ghost before = self@;
        let mut i: usize = 0;
        while i < keys.len()
            invariant
                i <= keys@.len(),
                before == old(self)@,
                forall|j: int|
                    0 <= j < keys@.len() ==> before.store.contains_key(#[trigger] keys@[j]),
                forall|j: int| 0 <= j < i ==> before.linkable(#[trigger] keys@[j]),
                self@ == before.linked(keys@.take(i as int)),
            decreases keys.len() - i,
        {
            let id: u64 = keys[i];
            let ghost now = self@;
            proof {
                lemma_at_place_step(before, keys@, i as int, Parent::Root);
                lemma_at_place_step(before, keys@, i as int, Parent::Trash);
                assert forall|k: u64|
                    #[trigger] before.at_place(keys@.take(i + 1), Parent::Under(k))
                        == if before.place(id) == Parent::Under(k) {
                    before.at_place(keys@.take(i as int), Parent::Under(k)).push(id)
                } else {
                    before.at_place(keys@.take(i as int), Parent::Under(k))
                } by {
                    lemma_at_place_step(before, keys@, i as int, Parent::Under(k));
                }
            }
            let parent = match self.get_metadata(id) {
                Some(md) => md.parent.clone(),
                None => vstd::pervasive::unreached(),
            };
            if same_text(&parent, "") {
                self.root.push(id);
            } else if same_text(&parent, "trash") {
                self.trash.push(id);
            } else {
                match Uuid::parse(parent.as_str()) {
                    None => {
                        return Err(BuildError::InvalidParent(parent));
                    },
                    Some(uuid) => {
                        let p: u64 = uuid_to_ino(uuid);
                        match self.store.remove(&p) {
                            None => {
                                assert(!now.store.contains_key(p));
                                assert(self@ =~= now);
                                assert(before.link_error(
                                    keys@[i as int],
                                    BuildError::MissingParent(p),
                                ));
                                return Err(BuildError::MissingParent(p));
                            },
                            Some(mut asset) => {
                                asset.children.push(id);
                                let ghost view = asset@;
                                self.store.insert(p, asset);
                                proof {
                                    assert(self@.store =~= now.store.insert(p, view));
                                    assert(now.store.contains_key(p));
                                    assert(view.md == now.store[p].md);
                                }
                            },
                        }
                    },
                }
            }
            i += 1;
        }
        assert(keys@.take(keys@.len() as int) =~= keys@);
        Ok(())
    }
}

impl Db {
    /// List every asset where its parent field says that it belongs. The assets are taken in an
    /// order that is left open.
    pub fn fixup_parentage(&mut self) -> (r: Result<(), BuildError>)
        ensures
            exists|keys: Seq<u64>|
                all_keys(keys, old(self)@.store) && #[trigger] link_outcome(
                    old(self)@,
                    keys,
                    r,
                    final(self)@,
                ),
    {
        let mut keys: Vec<u64> = Vec::new();
        let iter = self.store.keys();
        let ghost seq = vstd::std_specs::iter::IteratorSpec::remaining(&iter);
        for k in it: iter
            invariant
                it.seq() == seq,
                keys@.len() == it.index(),
                forall|j: int| 0 <= j < keys@.len() ==> keys@[j] == *it.seq()[j],
        {
            keys.push(*k);
        }
        assert(keys@ =~= seq.unref());
        assert(self@.store.dom() =~= self.store@.dom());
        self.link(&keys)
    }
}

impl DbView {
    /// Each asset is stored under its inode number and has a place, and each list holds, once
    /// each, exactly the assets whose place it is.
    pub open spec fn wf(self) -> bool {
        &&& forall|k: u64| #[trigger]
            self.store.contains_key(k) ==> {
                &&& self.store[k].id.len() == 16
                &&& ino_of(self.store[k].id) == k
                &&& self.linkable(k)
                &&& self.lists(self.store[k].children, Parent::Under(k))
            }
        &&& self.lists(self.root, Parent::Root)
        &&& self.lists(self.trash, Parent::Trash)
    }

    /// Whether `list` holds, once each, exactly the assets that belong at `place`.
    pub open spec fn lists(self, list: Seq<u64>, place: Parent) -> bool {
        &&& list.no_duplicates()
        &&& forall|c: u64| #[trigger]
            list.contains(c) <==> self.store.contains_key(c) && self.place(c) == place
    }

    /// Nothing is listed yet, and each asset is stored under its inode number.
    pub open spec fn unlinked(self) -> bool {
        &&& self.root == Seq::<u64>::empty()
        &&& self.trash == Seq::<u64>::empty()
        &&& forall|k: u64| #[trigger]
            self.store.contains_key(k) ==> {
                &&& self.store[k].id.len() == 16
                &&& ino_of(self.store[k].id) == k
                &&& self.store[k].children == Seq::<u64>::empty()
            }
    }
}

proof fn lemma_filter(s: Seq<u64>, p: spec_fn(u64) -> bool)
    requires
        s.no_duplicates(),
    ensures
        s.filter(p).no_duplicates(),
        forall|c: u64| #[trigger] s.filter(p).contains(c) <==> s.contains(c) && p(c),
    decreases s.len(),
{
    reveal(Seq::filter);
    if s.len() > 0 {
        let rest = s.drop_last();
        lemma_filter(rest, p);
        assert forall|c: u64| s.contains(c) <==> rest.contains(c) || c == s.last() by {
            if s.contains(c) {
                let j = choose|j: int| 0 <= j < s.len() && s[j] == c;
                if j < rest.len() {
                    assert(rest[j] == c);
                }
            }
        }
        let f = rest.filter(p);
        if p(s.last()) {
            let g = f.push(s.last());
            assert(forall|c: u64| g.contains(c) <==> f.contains(c) || c == s.last());
            assert(!f.contains(s.last()));
        }
    }
}

/// Listing all assets of a database where nothing is listed makes it well-formed, in whatever
/// order they are taken.
pub proof fn linked_is_wf(db: DbView, keys: Seq<u64>)
    requires
        db.unlinked(),
        all_keys(keys, db.store),
        forall|i: int| 0 <= i < keys.len() ==> db.linkable(#[trigger] keys[i]),
    ensures
        db.linked(keys).wf(),
{
    let after = db.linked(keys);
    assert forall|place: Parent| after.lists(#[trigger] db.at_place(keys, place), place) by {
        lemma_filter(keys, |k: u64| db.place(k) == place);
    }
}

/// A metadata file that was read, and the document file that was found beside it.
pub struct Entry {
    /// The name of the metadata file without its suffix.
    pub slug: String,
    pub md: Metadata,
    /// The kind and size of the document file.
    pub underlying: Option<(Underlying, u64)>,
}

#[verifier::ext_equal]
pub struct EntryView {
    pub slug: Seq<char>,
    pub md: MetadataView,
    pub underlying: Option<(Underlying, u64)>,
}

impl View for Entry {
    type V = EntryView;

    open spec fn view(&self) -> EntryView {
        EntryView { slug: self.slug@, md: self.md@, underlying: self.underlying }
    }
}

impl EntryView {
    /// The ID in the name of the metadata file.
    pub open spec fn id(self) -> Seq<u8> {
        parsed(self.slug)->0
    }

    pub open spec fn ino(self) -> u64 {
        ino_of(self.id())
    }

    /// The asset that the metadata file describes.
    pub open spec fn asset(self) -> AssetView {
        AssetView {
            md: self.md,
            children: Seq::empty(),
            id: self.id(),
            underlying: match self.underlying {
                Some((kind, _)) => Some(kind),
                None => None,
            },
            size_on_disk: match self.underlying {
                Some((_, size)) => size,
                None => 0,
            },
        }
    }
}

/// Whether the entry at `i` has an ID, and an inode number that no earlier entry has.
pub open spec fn entry_ok(entries: Seq<EntryView>, i: int) -> bool {
    &&& parsed(entries[i].slug) is Some
    &&& forall|j: int| 0 <= j < i ==> (#[trigger] entries[j]).ino() != entries[i].ino()
}

/// Whether `e` is the reason why the entry at `i` cannot be added to those before it.
pub open spec fn entry_error(entries: Seq<EntryView>, i: int, e: BuildError) -> bool {
    if parsed(entries[i].slug) is None {
        e is InvalidId
    } else {
        &&& !entry_ok(entries, i)
        &&& e matches BuildError::DuplicateId(id) && id@ == entries[i].id()
    }
}

/// The assets that the entries describe, by inode number, with nothing listed yet.
pub open spec fn loaded(entries: Seq<EntryView>) -> DbView {
    DbView { root: Seq::empty(), trash: Seq::empty(), store: loaded_store(entries) }
}

pub open spec fn loaded_store(entries: Seq<EntryView>) -> Map<u64, AssetView>
    decreases entries.len(),
{
    if entries.len() == 0 {
        Map::empty()
    } else {
        loaded_store(entries.drop_last()).insert(entries.last().ino(), entries.last().asset())
    }
}

pub open spec fn entry_views(entries: Seq<Entry>) -> Seq<EntryView> {
    Seq::new(entries.len(), |i: int| entries[i]@)
}

/// Where the entries have distinct inode numbers, the store holds exactly their assets.
pub proof fn loaded_holds_entries(entries: Seq<EntryView>)
    requires
        forall|i: int| 0 <= i < entries.len() ==> entry_ok(entries, i),
    ensures
        forall|i: int|
            0 <= i < entries.len() ==> loaded(entries).store.contains_key(
                (#[trigger] entries[i]).ino(),
            ) && loaded(entries).store[entries[i].ino()] == entries[i].asset(),
        forall|k: u64| #[trigger]
            loaded(entries).store.contains_key(k) ==> exists|i: int|
                0 <= i < entries.len() && (#[trigger] entries[i]).ino() == k,
    decreases entries.len(),
{
    if entries.len() > 0 {
        let rest = entries.drop_last();
        let n = entries.len() - 1;
        assert forall|i: int| 0 <= i < rest.len() implies entry_ok(rest, i) by {
            assert(entry_ok(entries, i));
        }
        loaded_holds_entries(rest);
        assert(entry_ok(entries, n));
        assert forall|i: int| 0 <= i < entries.len() implies loaded(entries).store.contains_key(
            (#[trigger] entries[i]).ino(),
        ) && loaded(entries).store[entries[i].ino()] == entries[i].asset() by {
            if i < n {
                assert(rest[i] == entries[i]);
            }
        }
    }
}

/// Whether an entry can be added depends on those before it alone.
proof fn lemma_entry_ok_take(entries: Seq<EntryView>, n: int, i: int)
    requires
        0 <= i < n <= entries.len(),
    ensures
        entry_ok(entries.take(n), i) <==> entry_ok(entries, i),
{
    let before = entries.take(n);
    assert(before[i] == entries[i]);
    assert(forall|j: int| 0 <= j < i ==> #[trigger] before[j] == entries[j]);
    assert(forall|j: int| 0 <= j < i ==> before[j] == #[trigger] entries[j]);
}

proof fn lemma_entry_added(entries: Seq<EntryView>, entry: EntryView)
    requires
        forall|j: int| 0 <= j < entries.len() ==> entry_ok(entries, j),
    ensures
        forall|j: int| 0 <= j < entries.len() ==> entry_ok(entries.push(entry), j),
        parsed(entry.slug) is Some ==> (loaded(entries).store.contains_key(entry.ino())
            <==> !entry_ok(entries.push(entry), entries.len() as int)),
        loaded(entries.push(entry)).store == loaded(entries).store.insert(
            entry.ino(),
            entry.asset(),
        ),
{
    let all = entries.push(entry);
    let n = entries.len() as int;
    assert(all.take(n) =~= entries);
    assert(all.drop_last() =~= entries);
    assert forall|j: int| 0 <= j < n implies entry_ok(all, j) by {
        lemma_entry_ok_take(all, n, j);
    }
    loaded_holds_entries(entries);
    if loaded(entries).store.contains_key(entry.ino()) {
        let j = choose|j: int| 0 <= j < n && (#[trigger] entries[j]).ino() == entry.ino();
        assert(all[j] == entries[j]);
    }
    if parsed(entry.slug) is Some && !entry_ok(all, n) {
        let j = choose|j: int| 0 <= j < n && (#[trigger] all[j]).ino() == all[n].ino();
        assert(entries[j] == all[j]);
    }
}

/// Where the entries can be added, nothing is listed yet.
pub proof fn loaded_is_unlinked(entries: Seq<EntryView>)
    requires
        forall|i: int| 0 <= i < entries.len() ==> entry_ok(entries, i),
    ensures
        loaded(entries).unlinked(),
{
    loaded_holds_entries(entries);
    assert forall|k: u64| #[trigger] loaded(entries).store.contains_key(k) implies {
        &&& loaded(entries).store[k].id.len() == 16
        &&& ino_of(loaded(entries).store[k].id) == k
        &&& loaded(entries).store[k].children == Seq::<u64>::empty()
    } by {
        let i = choose|i: int| 0 <= i < entries.len() && (#[trigger] entries[i]).ino() == k;
        assert(entry_ok(entries, i));
    }
}

/// What comes of listing the assets of `entries`, all of which could be added: a well-formed
/// database, or the reason why one of them cannot be listed where it belongs.
pub open spec fn load_outcome(entries: Seq<EntryView>, r: Result<Db, BuildError>) -> bool {
    &&& forall|i: int| 0 <= i < entries.len() ==> entry_ok(entries, i)
    &&& match r {
        Ok(db) => {
            &&& forall|k: u64| #[trigger]
                loaded(entries).store.contains_key(k) ==> loaded(entries).linkable(k)
            &&& exists|keys: Seq<u64>|
                all_keys(keys, loaded(entries).store) && db@ == #[trigger] loaded(entries).linked(
                    keys,
                )
            &&& db@.wf()
        },
        Err(e) => exists|k: u64| #[trigger]
            loaded(entries).store.contains_key(k) && loaded(entries).link_error(k, e),
    }
}

/// What comes of building a database from `entries`: the first that cannot be added is the reason
/// why there is none; where all can be added, they are listed.
pub open spec fn build_outcome(entries: Seq<EntryView>, r: Result<Db, BuildError>) -> bool {
    ||| load_outcome(entries, r)
    ||| {
        &&& r matches Err(e)
        &&& exists|i: int|
            {
                &&& 0 <= i < entries.len()
                &&& forall|j: int| 0 <= j < i ==> entry_ok(entries, j)
                &&& #[trigger] entry_error(entries, i, e)
            }
    }
}

/// A database that is being built, one metadata file after another.
pub struct Loading {
    db: Db,
    entries: Ghost<Seq<EntryView>>,
}

/// The entries that were added.
impl View for Loading {
    type V = Seq<EntryView>;

    closed spec fn view(&self) -> Seq<EntryView> {
        self.entries@
    }
}

impl Loading {
    /// The store holds the assets of the entries that were added.
    pub closed spec fn wf(&self) -> bool {
        &&& forall|i: int| 0 <= i < self.entries@.len() ==> entry_ok(self.entries@, i)
        &&& self.db@ == loaded(self.entries@)
    }

    pub fn new() -> (r: Self)
        ensures
            r.wf(),
            r@ == Seq::<EntryView>::empty(),
    {
        Loading { db: Db::default(), entries: Ghost(Seq::empty()) }
    }

    /// The ID in the name of a metadata file.
    pub fn id_of(slug: &str) -> (r: Result<Uuid, BuildError>)
        ensures
            match r {
                Ok(id) => parsed(slug@) == Some(id@),
                Err(e) => parsed(slug@) is None && e is InvalidId,
            },
    {
        match Uuid::parse(slug) {
            Some(id) => Ok(id),
            None => Err(BuildError::InvalidId),
        }
    }

    /// Adds a metadata file that was read.
    pub fn add(self, entry: Entry) -> (r: Result<Self, BuildError>)
        requires
            self.wf(),
        ensures
            forall|j: int| 0 <= j < self@.len() ==> entry_ok(self@.push(entry@), j),
            match r {
                Ok(next) => {
                    &&& next.wf()
                    &&& next@ == self@.push(entry@)
                    &&& entry_ok(self@.push(entry@), self@.len() as int)
                },
                Err(e) => entry_error(self@.push(entry@), self@.len() as int, e),
            },
    {
        let ghost before = self@;
        let ghost all = self@.push(entry@);
        proof {
            lemma_entry_added(before, entry@);
        }
        let mut db = self.db;
        let id = match Self::id_of(entry.slug.as_str()) {
            Ok(id) => id,
            Err(e) => {
                return Err(e);
            },
        };
        let (underlying, size_on_disk): (Option<Underlying>, u64) = match entry.underlying {
            None => (None, 0),
            Some((u, s)) => (Some(u), s),
        };
        match db.push(id, entry.md, underlying, size_on_disk) {
            Err(e) => Err(e),
            Ok(_) => {
                assert(db@ =~= loaded(all));
                Ok(Loading { db, entries: Ghost(all) })
            },
        }
    }

    /// Lists every asset where it belongs.
    pub fn finish(self) -> (r: Result<Db, BuildError>)
        requires
            self.wf(),
        ensures
            load_outcome(self@, r),
    {
        let ghost es = self@;
        let mut db = self.db;
        proof {
            loaded_is_unlinked(es);
        }
        let outcome = db.fixup_parentage();
        let ghost keys = choose|keys: Seq<u64>|
            all_keys(keys, loaded(es).store) && #[trigger] link_outcome(
                loaded(es),
                keys,
                outcome,
                db@,
            );
        match outcome {
            Err(e) => Err(e),
            Ok(_) => {
                proof {
                    linked_is_wf(loaded(es), keys);
                }
                Ok(db)
            },
        }
    }
}

impl Db {
    /// Builds the database from the metadata files that were read.
    pub fn build(entries: Vec<Entry>) -> (r: Result<Self, BuildError>)
        ensures
            build_outcome(entry_views(entries@), r),
    {
        let ghost es = entry_views(entries@);
        let mut loading = Loading::new();
        let iter = entries.into_iter();
        for entry in it: iter
            invariant
                es == entry_views(entries@),
                it.seq().len() == es.len(),
                forall|j: int| 0 <= j < es.len() ==> es[j] == (#[trigger] it.seq()[j])@,
                loading.wf(),
                loading@ == es.take(it.index()),
        {
            let ghost i = it.index() as int;
            let ghost upto = loading@.push(entry@);
            proof {
                assert(upto =~= es.take(i + 1));
                assert forall|j: int| 0 <= j <= i implies entry_ok(upto, j) == entry_ok(es, j) by {
                    lemma_entry_ok_take(es, i + 1, j);
                }
                assert(upto[i] == es[i]);
            }
            match loading.add(entry) {
                Ok(next) => {
                    loading = next;
                },
                Err(e) => {
                    assert(entry_error(es, i, e));
                    return Err(e);
                },
            }
        }
        assert(es.take(es.len() as int) =~= es);
        loading.finish()
    }
}

impl DbView {
    /// What the parent field of an asset in the directory at `ptr` holds.
    pub open spec fn parent_field(self, ptr: DbPointer) -> Option<Seq<char>> {
        match ptr {
            DbPointer::Root => Some(""@),
            DbPointer::INode { id } => if self.store.contains_key(id) {
                Some(hyphenated(self.store[id].id))
            } else {
                None
            },
        }
    }

    /// The database with the asset `child` in the store.
    pub open spec fn stored(self, child: AssetView) -> DbView {
        DbView { store: self.store.insert(ino_of(child.id), child), ..self }
    }

    /// The database with `ino` listed last in the directory at `ptr`.
    pub open spec fn listed(self, ptr: DbPointer, ino: u64) -> DbView {
        match ptr {
            DbPointer::Root => DbView { root: self.root.push(ino), ..self },
            DbPointer::INode { id } => DbView {
                store: self.store.insert(
                    id,
                    AssetView {
                        children: self.store[id].children.push(ino),
                        ..self.store[id]
                    },
                ),
                ..self
            },
        }
    }
}

/// A new document without content.
pub open spec fn new_asset(parent: Seq<char>, name: Seq<char>, id: Seq<u8>) -> AssetView {
    AssetView {
        md: MetadataView {
            deleted: false,
            last_modified: "0"@,
            metadata_modified: false,
            parent,
            pinned: false,
            synced: false,
            doc_type: "DocumentType"@,
            version: 0,
            visible_name: name,
        },
        children: Seq::empty(),
        id,
        underlying: None,
        size_on_disk: 0,
    }
}

/// The files that describe a new asset on the tablet. They are written in this order.
pub struct InitFiles<'a> {
    pub content_path: String,
    pub content: Vec<u8>,
    pub metadata_path: String,
    /// What the metadata file says.
    pub metadata: &'a Metadata,
}

/// What is to be done to open a file.
pub enum OpenStep<R> {
    /// Nothing: this is the handle of a file that has no content yet.
    Handle(FileHandle<R>),
    /// Open the remote file `path`.
    Remote { path: String, access: RemoteAccess },
}

/// Whether `r` is what is to be done to open the file `ino`: there is a handle at once for a
/// document without content; for one with content, its file is opened for reading or for
/// writing, but not for both.
pub open spec fn open_answer<R>(
    db: DbView,
    ino: u64,
    mode: OpenAccMode,
    r: Result<OpenStep<R>, Errno>,
) -> bool {
    if !db.store.contains_key(ino) {
        r matches Err(e) && e == Errno::ENOENT
    } else {
        let id = hyphenated(db.store[ino].id);
        match (db.store[ino].underlying, mode) {
            (None, _) => r matches Ok(OpenStep::Handle(fh)) && fh@
                == (FileHandleView::<R>::Created { buf: Seq::empty(), stub: path_of(id) }),
            (Some(_), OpenAccMode::ReadWrite) => r matches Err(e) && e == Errno::ENOTSUP,
            (Some(kind), mode) => r matches Ok(OpenStep::Remote { path, access }) && path@
                == path_of(with_ext(id, kind.extension())) && access == (if mode
                == OpenAccMode::ReadOnly {
                RemoteAccess::Read
            } else {
                RemoteAccess::Write
            }),
        }
    }
}

impl Asset {
    /// The ID, in hyphenated form.
    pub fn uuid_string(&self) -> (r: String)
        ensures
            r@ == hyphenated(self@.id),
    {
        encode_lower(&self.id)
    }

    /// The path of the content file.
    pub fn content_path(&self) -> (r: String)
        ensures
            r@ == path_of(with_ext(hyphenated(self@.id), "content"@)),
    {
        // Since this is a UUID, string formatting paths is *fine.*
        document_path(add_ext(self.uuid_string().as_str(), "content").as_str())
    }

    /// The path of the metadata file.
    pub fn metadata_path(&self) -> (r: String)
        ensures
            r@ == path_of(with_ext(hyphenated(self@.id), "metadata"@)),
    {
        document_path(add_ext(self.uuid_string().as_str(), "metadata").as_str())
    }
}

impl Db {
    /// A new document in the directory at `parent_ptr`, with a random ID. It is not in the
    /// database until its files are written and `add_file` is called.
    pub fn new_file(&self, parent_ptr: DbPointer, name: &str) -> (r: Result<Asset, NewFileError>)
        ensures
            match self@.parent_field(parent_ptr) {
                Some(parent) => r matches Ok(child) && is_v4(child@.id) && child@ == new_asset(
                    parent,
                    name@,
                    child@.id,
                ),
                None => r matches Err(e) && e == NewFileError::CantResolveParent,
            },
    {
        self.new_file_with_id(parent_ptr, name, random_v4())
    }

    /// A new document in the directory at `parent_ptr`, with the ID `id`.
    pub fn new_file_with_id(&self, parent_ptr: DbPointer, name: &str, id: Uuid) -> (r: Result<
        Asset,
        NewFileError,
    >)
        ensures
            match self@.parent_field(parent_ptr) {
                Some(parent) => r matches Ok(child) && child@ == new_asset(parent, name@, id@),
                None => r matches Err(e) && e == NewFileError::CantResolveParent,
            },
    {
        let parent = match parent_ptr {
            DbPointer::Root => "".to_owned(),
            DbPointer::INode { id: parent_ino } => match self.get_uuid(parent_ino) {
                Some(uuid) => encode_lower(&uuid),
                None => {
                    return Err(NewFileError::CantResolveParent);
                },
            },
        };
        let child = Asset {
            md: Metadata {
                deleted: false,
                last_modified: "0".to_owned(),
                metadata_modified: false,
                parent,
                pinned: false,
                synced: false,
                doc_type: "DocumentType".to_owned(),
                version: 0,
                visible_name: name.to_owned(),
            },
            id,
            underlying: None,
            size_on_disk: 0,
            children: Vec::new(),
        };
        Ok(child)
    }

    /// The files that are to be written for a new asset.
    pub fn init_file<'a>(&self, asset: &'a Asset) -> (r: InitFiles<'a>)
        ensures
            r.content_path@ == path_of(with_ext(hyphenated(asset@.id), "content"@)),
            r.content@ == seq![0x7bu8, 0x7du8],
            r.metadata_path@ == path_of(with_ext(hyphenated(asset@.id), "metadata"@)),
            r.metadata@ == asset@.md,
    {
        let content = vec![0x7bu8, 0x7du8];
        InitFiles {
            content_path: asset.content_path(),
            content,
            metadata_path: asset.metadata_path(),
            metadata: &asset.md,
        }
    }

    /// Now that it's written, take a new asset into the database.
    pub fn add_file(&mut self, parent_ptr: DbPointer, child: Asset) -> (r: Result<
        u64,
        NewFileError,
    >)
        requires
            !old(self)@.store.contains_key(ino_of(child@.id)),
        ensures
            ({
                let ino = ino_of(child@.id);
                let stored = old(self)@.stored(child@);
                if stored.contains(parent_ptr) {
                    &&& r == Ok::<u64, NewFileError>(ino)
                    &&& final(self)@ == stored.listed(parent_ptr, ino)
                } else {
                    &&& r == Err::<u64, NewFileError>(NewFileError::CantResolveParent)
                    &&& final(self)@ == stored
                }
            }),
    {
        let child_ino = uuid_to_ino(child.id);
        self.store.insert(child_ino, child);
        match parent_ptr {
            DbPointer::Root => {
                self.root.push(child_ino);
            },
            DbPointer::INode { id } => match self.store.remove(&id) {
                None => {
                    return Err(NewFileError::CantResolveParent);
                },
                Some(mut entry) => {
                    entry.children.push(child_ino);
                    self.store.insert(id, entry);
                },
            },
        }
        Ok(child_ino)
    }

    /// What is to be done to open the file `ino` with `flags`.
    pub fn open_file<R>(&self, ino: u64, flags: i32) -> (r: Result<OpenStep<R>, Errno>)
        ensures
            exists|mode: OpenAccMode| #[trigger]
                asks_for(flags, mode) && open_answer(self@, ino, mode, r),
    {
        self.open_file_as(ino, acc_mode(flags))
    }

    /// What is to be done to open the file `ino` in the access mode `mode`.
    pub fn open_file_as<R>(&self, ino: u64, mode: OpenAccMode) -> (r: Result<OpenStep<R>, Errno>)
        ensures
            open_answer(self@, ino, mode, r),
    {
        let asset = match self.store.get(&ino) {
            Some(asset) => asset,
            None => {
                return Err(Errno::ENOENT);
            },
        };
        let uuid = asset.uuid_string();
        match &asset.underlying {
            None => Ok(OpenStep::Handle(FileHandle::create(uuid.as_str()))),
            Some(u) => match FileHandle::<R>::open(mode) {
                Err(e) => Err(e),
                Ok(access) => Ok(
                    OpenStep::Remote {
                        path: document_path(add_ext(uuid.as_str(), u.ext()).as_str()),
                        access,
                    },
                ),
            },
        }
    }
}

} // verus!
