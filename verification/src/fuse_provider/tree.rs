//! What a database says of the tablet's metadata files, field by field.
use vstd::prelude::*;

use crate::errno::Errno;
use crate::fuse_provider::tablet::{
    all_keys, build_outcome, entry_error, entry_ok, entry_views, link_outcome, load_outcome,
    loaded, loaded_holds_entries, pointer, Asset, AssetView, BuildError, Db, DbPointer, DbView,
    Entry, FileType, Metadata, Parent,
};
use crate::ident::{denotes, ino_of, parsed, parsed_iff_denotes};

verus! {

/// The parent field of an asset, and nothing else, says where it is listed: the root holds it
/// exactly where the field is empty, the trash exactly where it is `trash`, and the asset `p`
/// exactly where the field is an ID with the inode number `p`.
pub proof fn lists_follow_parent_fields(db: DbView, k: u64, p: u64)
    requires
        db.wf(),
        db.store.contains_key(k),
        db.store.contains_key(p),
    ensures
        db.root.contains(k) <==> db.store[k].md.parent == ""@,
        db.trash.contains(k) <==> db.store[k].md.parent == "trash"@,
        db.store[p].children.contains(k) <==> {
            &&& db.store[k].md.parent != ""@
            &&& db.store[k].md.parent != "trash"@
            &&& exists|q: Seq<u8>| denotes(db.store[k].md.parent, q) && ino_of(q) == p
        },
{
    let parent = db.store[k].md.parent;
    reveal_strlit("");
    reveal_strlit("trash");
    assert(""@.len() == 0 && "trash"@.len() == 5);
    assert forall|q: Seq<u8>| denotes(parent, q) implies parsed(parent) == Some(q) by {
        parsed_iff_denotes(parent, q);
    }
    if parsed(parent) is Some {
        parsed_iff_denotes(parent, parsed(parent)->0);
    }
}

/// The lists hold nothing but assets of the database, each at most once.
pub proof fn lists_hold_assets_once(db: DbView, c: u64, p: u64)
    requires
        db.wf(),
        db.store.contains_key(p),
    ensures
        db.root.no_duplicates(),
        db.trash.no_duplicates(),
        db.store[p].children.no_duplicates(),
        db.root.contains(c) ==> db.store.contains_key(c),
        db.trash.contains(c) ==> db.store.contains_key(c),
        db.store[p].children.contains(c) ==> db.store.contains_key(c),
{
}

/// What a database stands for is what its metadata, assets and entries hold, field by field.
pub proof fn views_hold_the_fields(md: Metadata, asset: Asset, entry: Entry)
    ensures
        md@.deleted == md.deleted,
        md@.last_modified == md.last_modified@,
        md@.metadata_modified == md.metadata_modified,
        md@.parent == md.parent@,
        md@.pinned == md.pinned,
        md@.synced == md.synced,
        md@.doc_type == md.doc_type@,
        md@.version == md.version,
        md@.visible_name == md.visible_name@,
        asset@.md == asset.md@,
        asset@.children == asset.children@,
        asset@.id == asset.id.bytes@,
        asset@.underlying == asset.underlying,
        asset@.size_on_disk == asset.size_on_disk,
        entry@.slug == entry.slug@,
        entry@.md == entry.md@,
        entry@.underlying == entry.underlying,
{
}

/// A database that was built holds, for each metadata file, the asset with the ID in the file's
/// name and with all that the file says, and the kind and size of the document file beside it. It
/// is listed where the parent field in the file says.
#[verifier::spinoff_prover]
pub proof fn built_from_file(entries: Seq<Entry>, db: Db, i: int, id: Seq<u8>, p: u64)
    requires
        load_outcome(entry_views(entries), Ok::<Db, BuildError>(db)),
        0 <= i < entries.len(),
        denotes(entries[i].slug@, id),
        db@.store.contains_key(p),
    ensures
        ({
            let k = ino_of(id);
            let md = entries[i].md;
            &&& db@.store.contains_key(k)
            &&& db@.store[k].id == id
            &&& db@.store[k].md.deleted == md.deleted
            &&& db@.store[k].md.last_modified == md.last_modified@
            &&& db@.store[k].md.metadata_modified == md.metadata_modified
            &&& db@.store[k].md.parent == md.parent@
            &&& db@.store[k].md.pinned == md.pinned
            &&& db@.store[k].md.synced == md.synced
            &&& db@.store[k].md.doc_type == md.doc_type@
            &&& db@.store[k].md.version == md.version
            &&& db@.store[k].md.visible_name == md.visible_name@
            &&& match entries[i].underlying {
                Some((kind, size)) => db@.store[k].underlying == Some(kind)
                    && db@.store[k].size_on_disk == size,
                None => db@.store[k].underlying is None && db@.store[k].size_on_disk == 0,
            }
            &&& db@.root.contains(k) <==> md.parent@ == ""@
            &&& db@.trash.contains(k) <==> md.parent@ == "trash"@
            &&& db@.store[p].children.contains(k) <==> {
                &&& md.parent@ != ""@
                &&& md.parent@ != "trash"@
                &&& exists|q: Seq<u8>| denotes(md.parent@, q) && ino_of(q) == p
            }
        }),
{
    let es = entry_views(entries);
    loaded_holds_entries(es);
    parsed_iff_denotes(entries[i].slug@, id);
    assert(es[i] == entries[i]@);
    assert(es[i].ino() == ino_of(id));
    assert(loaded(es).store.contains_key(es[i].ino()));
    let keys = choose|keys: Seq<u64>|
        all_keys(keys, loaded(es).store) && db@ == #[trigger] loaded(es).linked(keys);
    assert(db@ == loaded(es).linked(keys));
    lists_follow_parent_fields(db@, ino_of(id), p);
}

/// A database that was built holds nothing but the assets of its metadata files.
pub proof fn built_from_files_alone(entries: Seq<Entry>, db: Db, k: u64)
    requires
        load_outcome(entry_views(entries), Ok::<Db, BuildError>(db)),
        db@.store.contains_key(k),
    ensures
        exists|i: int, id: Seq<u8>|
            0 <= i < entries.len() && #[trigger] denotes(entries[i].slug@, id) && ino_of(id) == k,
        db@.wf(),
{
    let es = entry_views(entries);
    loaded_holds_entries(es);
    let keys = choose|keys: Seq<u64>|
        all_keys(keys, loaded(es).store) && db@ == #[trigger] loaded(es).linked(keys);
    assert(loaded(es).store.contains_key(k));
    let i = choose|i: int| 0 <= i < es.len() && (#[trigger] es[i]).ino() == k;
    assert(entry_ok(es, i));
    let id = parsed(entries[i].slug@)->0;
    parsed_iff_denotes(entries[i].slug@, id);
    assert(denotes(entries[i].slug@, id));
}

/// Two sets of metadata files that agree in the names of the files and in the parent fields give
/// the same lists, whatever the other fields say and whatever documents are beside them.
#[verifier::spinoff_prover]
pub proof fn other_fields_do_not_place(a: Seq<Entry>, b: Seq<Entry>, x: Db, y: Db, c: u64, p: u64)
    requires
        a.len() == b.len(),
        forall|i: int|
            0 <= i < a.len() ==> (#[trigger] a[i]).slug@ == b[i].slug@ && a[i].md.parent@
                == b[i].md.parent@,
        load_outcome(entry_views(a), Ok::<Db, BuildError>(x)),
        load_outcome(entry_views(b), Ok::<Db, BuildError>(y)),
        x@.store.contains_key(p),
        y@.store.contains_key(p),
    ensures
        x@.store.contains_key(c) <==> y@.store.contains_key(c),
        x@.root.contains(c) <==> y@.root.contains(c),
        x@.trash.contains(c) <==> y@.trash.contains(c),
        x@.store[p].children.contains(c) <==> y@.store[p].children.contains(c),
{
    lists_hold_assets_once(x@, c, p);
    lists_hold_assets_once(y@, c, p);
    if x@.store.contains_key(c) {
        built_from_files_alone(a, x, c);
        let (i, id) = choose|i: int, id: Seq<u8>|
            0 <= i < a.len() && #[trigger] denotes(a[i].slug@, id) && ino_of(id) == c;
        assert(a[i].slug@ == b[i].slug@);
        built_from_file(a, x, i, id, p);
        built_from_file(b, y, i, id, p);
    }
    if y@.store.contains_key(c) {
        built_from_files_alone(b, y, c);
        let (i, id) = choose|i: int, id: Seq<u8>|
            0 <= i < b.len() && #[trigger] denotes(b[i].slug@, id) && ino_of(id) == c;
        assert(a[i].slug@ == b[i].slug@);
        built_from_file(a, x, i, id, p);
        built_from_file(b, y, i, id, p);
    }
}

/// Building fails for no other reason than these: a file name that is no ID, two IDs with one
/// inode number, a parent field that says nothing, or one that names an asset that is not there.
/// Where none of them holds, the database is built.
#[verifier::spinoff_prover]
pub proof fn built_unless_broken(entries: Seq<Entry>, r: Result<Db, BuildError>)
    requires
        build_outcome(entry_views(entries), r),
    ensures
        r is Ok <==> {
            &&& forall|i: int|
                0 <= i < entries.len() ==> exists|id: Seq<u8>|
                    denotes((#[trigger] entries[i]).slug@, id)
            &&& forall|i: int, j: int, a: Seq<u8>, b: Seq<u8>|
                0 <= i < j < entries.len() && #[trigger] denotes(entries[i].slug@, a)
                    && #[trigger] denotes(entries[j].slug@, b) ==> ino_of(a) != ino_of(b)
            &&& forall|i: int|
                0 <= i < entries.len() ==> (#[trigger] entries[i]).md.parent@ == ""@
                    || entries[i].md.parent@ == "trash"@ || exists|j: int, q: Seq<u8>, id: Seq<u8>|
                    0 <= j < entries.len() && #[trigger] denotes(entries[i].md.parent@, q)
                        && #[trigger] denotes(entries[j].slug@, id) && ino_of(id) == ino_of(q)
        },
{
    let es = entry_views(entries);
    assert forall|s: Seq<char>, b: Seq<u8>| #[trigger] denotes(s, b) <==> parsed(s) == Some(b) by {
        parsed_iff_denotes(s, b);
    }
    assert(forall|i: int| 0 <= i < entries.len() ==> #[trigger] es[i] == entries[i]@);
    if r is Ok {
        loaded_holds_entries(es);
        assert forall|i: int| 0 <= i < entries.len() implies exists|id: Seq<u8>|
            denotes((#[trigger] entries[i]).slug@, id) by {
            assert(entry_ok(es, i));
            assert(denotes(entries[i].slug@, parsed(entries[i].slug@)->0));
        }
        assert forall|i: int, j: int, a: Seq<u8>, b: Seq<u8>|
            0 <= i < j < entries.len() && #[trigger] denotes(entries[i].slug@, a)
                && #[trigger] denotes(entries[j].slug@, b) implies ino_of(a) != ino_of(b) by {
            assert(entry_ok(es, j));
            assert(es[i].ino() != es[j].ino());
        }
        assert forall|i: int| 0 <= i < entries.len() implies (#[trigger] entries[i]).md.parent@
            == ""@ || entries[i].md.parent@ == "trash"@ || exists|j: int, q: Seq<u8>, id: Seq<u8>|
            0 <= j < entries.len() && #[trigger] denotes(entries[i].md.parent@, q)
                && #[trigger] denotes(entries[j].slug@, id) && ino_of(id) == ino_of(q) by {
            let parent = entries[i].md.parent@;
            assert(loaded(es).store.contains_key(es[i].ino()));
            assert(loaded(es).linkable(es[i].ino()));
            if parent != ""@ && parent != "trash"@ {
                let q = parsed(parent)->0;
                assert(denotes(parent, q));
                assert(loaded(es).store.contains_key(ino_of(q)));
                let j = choose|j: int|
                    0 <= j < es.len() && (#[trigger] es[j]).ino() == ino_of(q);
                assert(entry_ok(es, j));
                let id = parsed(entries[j].slug@)->0;
                assert(denotes(entries[j].slug@, id));
            }
        }
    } else {
        build_error_is_true(entries, r);
    }
}

/// The reason that is given why there is no database is true of the metadata files.
#[verifier::spinoff_prover]
pub proof fn build_error_is_true(entries: Seq<Entry>, r: Result<Db, BuildError>)
    requires
        build_outcome(entry_views(entries), r),
        r is Err,
    ensures
        match r->Err_0 {
            BuildError::InvalidId => exists|i: int|
                0 <= i < entries.len() && forall|id: Seq<u8>|
                    !denotes((#[trigger] entries[i]).slug@, id),
            BuildError::DuplicateId(later) => exists|i: int, j: int, a: Seq<u8>|
                0 <= i < j < entries.len() && #[trigger] denotes(entries[i].slug@, a)
                    && #[trigger] denotes(entries[j].slug@, later.bytes@) && ino_of(a) == ino_of(
                    later.bytes@,
                ),
            BuildError::InvalidParent(s) => exists|i: int|
                {
                    &&& 0 <= i < entries.len()
                    &&& (#[trigger] entries[i]).md.parent@ == s@
                    &&& s@ != ""@
                    &&& s@ != "trash"@
                    &&& forall|q: Seq<u8>| !denotes(s@, q)
                },
            BuildError::MissingParent(p) => exists|i: int, q: Seq<u8>|
                {
                    &&& 0 <= i < entries.len()
                    &&& #[trigger] denotes(entries[i].md.parent@, q)
                    &&& ino_of(q) == p
                    &&& entries[i].md.parent@ != ""@
                    &&& entries[i].md.parent@ != "trash"@
                    &&& forall|j: int, id: Seq<u8>|
                        0 <= j < entries.len() && #[trigger] denotes(entries[j].slug@, id)
                            ==> ino_of(id) != p
                },
        },
{
    let es = entry_views(entries);
    let e = r->Err_0;
    assert forall|s: Seq<char>, b: Seq<u8>| #[trigger] denotes(s, b) <==> parsed(s) == Some(b) by {
        parsed_iff_denotes(s, b);
    }
    assert(forall|i: int| 0 <= i < entries.len() ==> #[trigger] es[i] == entries[i]@);
    if load_outcome(es, r) {
        loaded_holds_entries(es);
        let k = choose|k: u64| #[trigger]
            loaded(es).store.contains_key(k) && loaded(es).link_error(k, e);
        let i = choose|i: int| 0 <= i < es.len() && (#[trigger] es[i]).ino() == k;
        assert(loaded(es).store[es[i].ino()] == es[i].asset());
        let parent = entries[i].md.parent@;
        match e {
            BuildError::InvalidParent(s) => {
                assert(entries[i].md.parent@ == s@);
            },
            BuildError::MissingParent(p) => {
                let q = parsed(parent)->0;
                assert(denotes(entries[i].md.parent@, q));
                assert forall|j: int, id: Seq<u8>|
                    0 <= j < entries.len() && #[trigger] denotes(
                        entries[j].slug@,
                        id,
                    ) implies ino_of(id) != p by {
                    assert(loaded(es).store.contains_key(es[j].ino()));
                }
            },
            _ => {},
        }
    } else {
        let i = choose|i: int|
            {
                &&& 0 <= i < es.len()
                &&& forall|j: int| 0 <= j < i ==> entry_ok(es, j)
                &&& #[trigger] entry_error(es, i, e)
            };
        if parsed(es[i].slug) is None {
            assert(forall|id: Seq<u8>| !denotes(entries[i].slug@, id));
        } else {
            let later = e->DuplicateId_0;
            let j = choose|j: int| 0 <= j < i && (#[trigger] es[j]).ino() == es[i].ino();
            assert(entry_ok(es, j));
            let a = parsed(entries[j].slug@)->0;
            assert(denotes(entries[j].slug@, a));
            assert(denotes(entries[i].slug@, later.bytes@));
        }
    }
}

/// Linking puts each of the assets behind what is listed at its place, in the order in which they
/// are taken, and changes nothing else. It ends at the first asset whose parent field says
/// nothing or names an asset that is not there.
#[verifier::spinoff_prover]
pub proof fn linking_appends(
    before: DbView,
    keys: Seq<u64>,
    r: Result<(), BuildError>,
    after: DbView,
)
    requires
        link_outcome(before, keys, r, after),
    ensures
        exists|n: int|
            {
                let taken = #[trigger] keys.take(n);
                &&& 0 <= n <= keys.len()
                &&& r is Ok ==> n == keys.len()
                &&& forall|i: int|
                    0 <= i < n ==> {
                        let parent = before.store[#[trigger] keys[i]].md.parent;
                        ||| parent == ""@
                        ||| parent == "trash"@
                        ||| parsed(parent) matches Some(q) && before.store.contains_key(ino_of(q))
                    }
                &&& r matches Err(e) ==> {
                    let parent = before.store[keys[n]].md.parent;
                    &&& n < keys.len()
                    &&& parent != ""@
                    &&& parent != "trash"@
                    &&& match parsed(parent) {
                        None => e matches BuildError::InvalidParent(s) && s@ == parent,
                        Some(q) => e == BuildError::MissingParent(ino_of(q))
                            && !before.store.contains_key(ino_of(q)),
                    }
                }
                &&& after.root == before.root + taken.filter(
                    |k: u64| before.store[k].md.parent == ""@,
                )
                &&& after.trash == before.trash + taken.filter(
                    |k: u64| before.store[k].md.parent == "trash"@,
                )
                &&& after.store.dom() == before.store.dom()
                &&& forall|p: u64| #[trigger]
                    before.store.contains_key(p) ==> after.store[p] == (AssetView {
                        children: before.store[p].children + taken.filter(
                            |k: u64|
                                {
                                    &&& before.store[k].md.parent != ""@
                                    &&& before.store[k].md.parent != "trash"@
                                    &&& parsed(before.store[k].md.parent) is Some
                                    &&& ino_of(parsed(before.store[k].md.parent)->0) == p
                                },
                        ),
                        ..before.store[p]
                    })
            },
{
    reveal_strlit("");
    reveal_strlit("trash");
    assert(""@.len() == 0 && "trash"@.len() == 5);
    let n = if r is Ok {
        keys.len() as int
    } else {
        choose|i: int|
            {
                &&& 0 <= i < keys.len()
                &&& forall|j: int| 0 <= j < i ==> before.linkable(#[trigger] keys[j])
                &&& before.link_error(#[trigger] keys[i], r->Err_0)
                &&& after == before.linked(keys.take(i))
            }
    };
    let taken = keys.take(n);
    if r is Ok {
        assert(taken =~= keys);
    }
    assert(after == before.linked(taken));
    lemma_same_filter(
        taken,
        |k: u64| before.place(k) == Parent::Root,
        |k: u64| before.store[k].md.parent == ""@,
    );
    lemma_same_filter(
        taken,
        |k: u64| before.place(k) == Parent::Trash,
        |k: u64| before.store[k].md.parent == "trash"@,
    );
    assert forall|p: u64| #[trigger] before.store.contains_key(p) implies after.store[p]
        == (AssetView {
        children: before.store[p].children + taken.filter(
            |k: u64|
                {
                    &&& before.store[k].md.parent != ""@
                    &&& before.store[k].md.parent != "trash"@
                    &&& parsed(before.store[k].md.parent) is Some
                    &&& ino_of(parsed(before.store[k].md.parent)->0) == p
                },
        ),
        ..before.store[p]
    }) by {
        lemma_same_filter(
            taken,
            |k: u64| before.place(k) == Parent::Under(p),
            |k: u64|
                {
                    &&& before.store[k].md.parent != ""@
                    &&& before.store[k].md.parent != "trash"@
                    &&& parsed(before.store[k].md.parent) is Some
                    &&& ino_of(parsed(before.store[k].md.parent)->0) == p
                },
        );
    }
    assert(after.store.dom() =~= before.store.dom());
}

proof fn lemma_same_filter(s: Seq<u64>, p: spec_fn(u64) -> bool, q: spec_fn(u64) -> bool)
    requires
        forall|k: u64| #[trigger] p(k) == q(k),
    ensures
        s.filter(p) == s.filter(q),
{
    assert(p =~= q);
}

/// An inode number refers to the root directory, or to the asset that has it.
pub proof fn pointer_of_an_inode(db: DbView, ino: u64)
    ensures
        pointer(1) == DbPointer::Root,
        ino != 1 ==> pointer(ino) == (DbPointer::INode { id: ino }),
        db.contains(DbPointer::Root),
        db.contains(DbPointer::INode { id: ino }) <==> db.store.contains_key(ino),
{
}

/// The attributes of an asset: its own inode number and size, those of a directory exactly where
/// its type is `CollectionType`, and those of a plain file otherwise.
pub proof fn attributes_of_an_asset(db: DbView, k: u64, uid: u32, gid: u32)
    ensures
        db.attr(DbPointer::INode { id: k }, uid, gid) is Some <==> db.store.contains_key(k),
        db.attr(DbPointer::INode { id: k }, uid, gid) matches Some(attr) ==> {
            &&& attr.ino == k
            &&& attr.size == db.store[k].size_on_disk
            &&& attr.kind == FileType::Directory <==> db.store[k].md.doc_type == "CollectionType"@
            &&& attr.perm == (if attr.kind == FileType::Directory {
                0o770u16
            } else {
                0o660u16
            })
            &&& attr.uid == uid
            &&& attr.gid == gid
            &&& attr.blksize == 4096
            &&& attr.blocks == 0 && attr.nlink == 0 && attr.rdev == 0 && attr.flags == 0
            &&& attr.atime == 0 && attr.mtime == 0 && attr.ctime == 0 && attr.crtime == 0
        },
{
}

/// The attributes of the root directory.
pub proof fn attributes_of_the_root(db: DbView, uid: u32, gid: u32)
    ensures
        db.attr(DbPointer::Root, uid, gid) matches Some(attr) && {
            &&& attr.ino == 1
            &&& attr.size == 0
            &&& attr.kind == FileType::Directory
            &&& attr.perm == 0o770
            &&& attr.uid == uid
            &&& attr.gid == gid
            &&& attr.blksize == 4096
            &&& attr.blocks == 0 && attr.nlink == 0 && attr.rdev == 0 && attr.flags == 0
            &&& attr.atime == 0 && attr.mtime == 0 && attr.ctime == 0 && attr.crtime == 0
        },
{
}

/// The contents of the root directory are the root list, and those of an asset of the type
/// `CollectionType` its children. An asset of another type is no directory.
pub proof fn contents_of_directories(db: DbView, k: u64)
    ensures
        db.children(DbPointer::Root) == Ok::<Seq<u64>, Errno>(db.root),
        db.children(DbPointer::INode { id: k }) == (if !db.store.contains_key(k) {
            Err::<Seq<u64>, Errno>(Errno::ENOENT)
        } else if db.store[k].md.doc_type == "CollectionType"@ {
            Ok(db.store[k].children)
        } else {
            Err(Errno::ENOTDIR)
        }),
{
}

} // verus!
