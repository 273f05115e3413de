//! What comes back from the calls, in terms of what was passed and of other calls.
use vstd::prelude::*;

use crate::errno::Errno;
use crate::fuse_provider::{name_text, FuseProvider};
use crate::fuse_provider::answers::{
    attributes_match, detection_asks_beside_the_metadata, entries_can_be_looked_up,
    entries_name_the_children, entry_is_stored, every_child_has_an_entry,
    looked_for_is_asked_for, lookup_answers_as_getattr, lookup_fails_without_the_name,
    metadata_files_by_name, new_file_keeps_what_is_written, open_takes_the_document,
};
use crate::fuse_provider::detect::{listed_path, metadata_slug, DetectStep};
use crate::fuse_provider::fh::{
    CreateOutcome, FileHandle, FileHandleView, ForwardOutcome, OpenAccMode, ReadOutcome,
    ReadPlan, RemoteAccess, WriteStep,
};
use crate::fuse_provider::fh_store::FhStore;
use crate::fuse_provider::laws::{
    children_are_stored, listing_is_complete, resumed_listing_is_complete,
};
use crate::fuse_provider::listing::{sent_after, Listing, ListingStep};
use crate::fuse_provider::tablet::{
    all_keys, entry_ok, entry_views, link_outcome, linked_is_wf, load_outcome, loaded,
    loaded_holds_entries, pointer, Asset, BuildError, Db, DbPointer, Entry, FileAttr, FileType,
    InitFiles, Loading, Metadata, NewFileError, OpenStep, TabletSftpError, Underlying,
};
use crate::fuse_provider::tree::{
    build_error_is_true, built_from_file, built_from_files_alone, built_unless_broken,
    lists_follow_parent_fields, lists_hold_assets_once, views_hold_the_fields,
};
use crate::ident::{
    denotes, hyphenated, hyphenated_round_trip, ino_of, parsed, parsed_iff_denotes, Uuid,
};
use crate::text::path_is_in_the_directory;

verus! {

/// In a database that was built, the contents of the root directory are the assets whose
/// metadata file has an empty parent field, each once.
pub proof fn built_root(
    entries: Vec<Entry>,
    db: &Db,
    root: Result<&[u64], Errno>,
    i: int,
    id: Seq<u8>,
)
    requires
        call_ensures(Db::build, (entries,), Ok::<Db, BuildError>(*db)),
        call_ensures(Db::get_children, (db, DbPointer::Root), root),
        0 <= i < entries@.len(),
        denotes(entries@[i].slug@, id),
    ensures
        root is Ok,
        root->Ok_0@.no_duplicates(),
        root->Ok_0@.contains(ino_of(id)) <==> entries@[i].md.parent@ == ""@,
{
    lemma_stored(entries@, *db, i, id);
    built_from_file(entries@, *db, i, id, ino_of(id));
    lists_hold_assets_once(db@, ino_of(id), ino_of(id));
}

/// In a database that was built, the contents of a directory are the assets whose metadata file
/// names it in the parent field, each once. What it holds is listed exactly where its own type is
/// `CollectionType`.
#[verifier::spinoff_prover]
pub proof fn built_directory(
    entries: Vec<Entry>,
    db: &Db,
    held: Result<&[u64], Errno>,
    d: int,
    dir: Seq<u8>,
    i: int,
    id: Seq<u8>,
)
    requires
        call_ensures(Db::build, (entries,), Ok::<Db, BuildError>(*db)),
        0 <= d < entries@.len(),
        denotes(entries@[d].slug@, dir),
        call_ensures(Db::get_children, (db, DbPointer::INode { id: ino_of(dir) }), held),
        0 <= i < entries@.len(),
        denotes(entries@[i].slug@, id),
    ensures
        held is Ok <==> entries@[d].md.doc_type@ == "CollectionType"@,
        held matches Err(e) ==> e == Errno::ENOTDIR,
        held matches Ok(children) ==> {
            &&& children@.no_duplicates()
            &&& children@.contains(ino_of(id)) <==> {
                &&& entries@[i].md.parent@ != ""@
                &&& entries@[i].md.parent@ != "trash"@
                &&& exists|q: Seq<u8>|
                    denotes(entries@[i].md.parent@, q) && ino_of(q) == ino_of(dir)
            }
        },
{
    lemma_stored(entries@, *db, i, id);
    lemma_stored(entries@, *db, d, dir);
    built_from_file(entries@, *db, i, id, ino_of(dir));
    built_from_file(entries@, *db, d, dir, ino_of(dir));
    lists_hold_assets_once(db@, ino_of(id), ino_of(dir));
}

/// What a database that was built says of an asset is what its metadata file says, and the size
/// is that of the document file beside it.
#[verifier::spinoff_prover]
pub proof fn built_asset(
    entries: Vec<Entry>,
    db: &Db,
    i: int,
    id: Seq<u8>,
    there: bool,
    md: Option<&Metadata>,
    uuid: Option<Uuid>,
    uid: u32,
    gid: u32,
    attr: Option<FileAttr>,
)
    requires
        call_ensures(Db::build, (entries,), Ok::<Db, BuildError>(*db)),
        0 <= i < entries@.len(),
        denotes(entries@[i].slug@, id),
        call_ensures(Db::contains, (db, DbPointer::INode { id: ino_of(id) }), there),
        call_ensures(Db::get_metadata, (db, ino_of(id)), md),
        call_ensures(Db::get_uuid, (db, ino_of(id)), uuid),
        call_ensures(Db::get_attr_for, (db, DbPointer::INode { id: ino_of(id) }, uid, gid), attr),
    ensures
        there,
        md matches Some(m) && {
            &&& m.deleted == entries@[i].md.deleted
            &&& m.last_modified@ == entries@[i].md.last_modified@
            &&& m.metadata_modified == entries@[i].md.metadata_modified
            &&& m.parent@ == entries@[i].md.parent@
            &&& m.pinned == entries@[i].md.pinned
            &&& m.synced == entries@[i].md.synced
            &&& m.doc_type@ == entries@[i].md.doc_type@
            &&& m.version == entries@[i].md.version
            &&& m.visible_name@ == entries@[i].md.visible_name@
        },
        uuid matches Some(u) && u.bytes@ == id,
        attr matches Some(a) && {
            &&& attributes_match(
                a,
                ino_of(id),
                entries@[i].md.doc_type@ == "CollectionType"@,
                uid,
                gid,
            )
            &&& a.size == match entries@[i].underlying {
                Some((_, size)) => size,
                None => 0,
            }
        },
{
    lemma_stored(entries@, *db, i, id);
    built_from_file(entries@, *db, i, id, ino_of(id));
    views_hold_the_fields(*md->0, arbitrary(), entries@[i]);
}

/// A database that was built knows no other inode numbers than those of its metadata files.
pub proof fn built_knows_its_files_alone(
    entries: Vec<Entry>,
    db: &Db,
    k: u64,
    there: bool,
    md: Option<&Metadata>,
    uuid: Option<Uuid>,
)
    requires
        call_ensures(Db::build, (entries,), Ok::<Db, BuildError>(*db)),
        call_ensures(Db::contains, (db, DbPointer::INode { id: k }), there),
        call_ensures(Db::get_metadata, (db, k), md),
        call_ensures(Db::get_uuid, (db, k), uuid),
    ensures
        there <==> exists|i: int, id: Seq<u8>|
            0 <= i < entries@.len() && #[trigger] denotes(entries@[i].slug@, id) && ino_of(id) == k,
        there <==> md is Some,
        there <==> uuid is Some,
{
    if there {
        built_from_files_alone(entries@, *db, k);
    }
    if exists|i: int, id: Seq<u8>|
        0 <= i < entries@.len() && #[trigger] denotes(entries@[i].slug@, id) && ino_of(id) == k {
        let (i, id) = choose|i: int, id: Seq<u8>|
            0 <= i < entries@.len() && #[trigger] denotes(entries@[i].slug@, id) && ino_of(id)
                == k;
        lemma_stored(entries@, *db, i, id);
    }
}

proof fn lemma_stored(entries: Seq<Entry>, db: Db, i: int, id: Seq<u8>)
    requires
        load_outcome(
            entry_views(entries),
            Ok::<Db, BuildError>(db),
        ),
        0 <= i < entries.len(),
        denotes(entries[i].slug@, id),
    ensures
        db@.store.contains_key(ino_of(id)),
{
    entry_is_stored(entries, db, i, id);
}

/// What exists, has attributes; what has none is reported as missing. The directory with the
/// inode number 1 always exists.
pub proof fn access_and_getattr<R>(
    p: &FuseProvider<R>,
    ino: u64,
    there: bool,
    access: Result<(), Errno>,
    attr: Result<FileAttr, Errno>,
)
    requires
        call_ensures(Db::contains, (&p.tablet_db, DbPointer::INode { id: ino }), there),
        call_ensures(FuseProvider::<R>::access, (p, ino), access),
        call_ensures(FuseProvider::<R>::getattr, (p, ino), attr),
    ensures
        access is Ok <==> ino == 1 || there,
        attr is Ok <==> ino == 1 || there,
        access matches Err(e) ==> e == Errno::ENOENT,
        attr matches Err(e) ==> e == Errno::ENOENT,
        attr matches Ok(a) ==> a.ino == ino && a.uid == p.uid && a.gid == p.gid,
        ino == 1 ==> (attr matches Ok(a) && attributes_match(a, 1, true, p.uid, p.gid) && a.size
            == 0),
{
}

/// The attributes of an asset that the database knows.
pub proof fn getattr_of_an_asset<R>(
    p: &FuseProvider<R>,
    ino: u64,
    md: Option<&Metadata>,
    attr: Result<FileAttr, Errno>,
    direct: Option<FileAttr>,
    held: Result<&[u64], Errno>,
)
    requires
        ino != 1,
        call_ensures(Db::get_metadata, (&p.tablet_db, ino), md),
        call_ensures(FuseProvider::<R>::getattr, (p, ino), attr),
        call_ensures(
            Db::get_attr_for,
            (&p.tablet_db, DbPointer::INode { id: ino }, p.uid, p.gid),
            direct,
        ),
        call_ensures(Db::get_children, (&p.tablet_db, DbPointer::INode { id: ino }), held),
    ensures
        md is Some <==> attr is Ok,
        md is Some <==> direct is Some,
        attr matches Ok(a) ==> direct == Some(a) && attributes_match(
            a,
            ino,
            md->0.doc_type@ == "CollectionType"@,
            p.uid,
            p.gid,
        ),
        attr is Ok && attr->Ok_0.kind == FileType::Directory <==> held is Ok,
        held == Err::<&[u64], Errno>(Errno::ENOTDIR) <==> md is Some && md->0.doc_type@
            != "CollectionType"@,
        held == Err::<&[u64], Errno>(Errno::ENOENT) <==> md is None,
{
    if md is Some {
        views_hold_the_fields(*md->0, arbitrary(), arbitrary());
    }
}

/// A lookup answers what is answered for the attributes of the file that it found. That file is
/// in the directory and has the name that was asked for.
pub proof fn lookup_then_getattr<R>(
    p: &FuseProvider<R>,
    parent: u64,
    name: Option<&str>,
    found: FileAttr,
    attr: Result<FileAttr, Errno>,
    md: Option<&Metadata>,
    at: DbPointer,
    held: Result<&[u64], Errno>,
)
    requires
        call_ensures(
            FuseProvider::<R>::lookup,
            (p, parent, name),
            Ok::<FileAttr, Errno>(found),
        ),
        call_ensures(FuseProvider::<R>::getattr, (p, found.ino), attr),
        call_ensures(Db::get_metadata, (&p.tablet_db, found.ino), md),
        at == (if parent == 1 {
            DbPointer::Root
        } else {
            DbPointer::INode { id: parent }
        }),
        call_ensures(Db::get_children, (&p.tablet_db, at), held),
    ensures
        found.ino != 1 ==> attr == Ok::<FileAttr, Errno>(found),
        name is Some,
        md matches Some(m) && m.visible_name@ == name->0@ && attributes_match(
            found,
            found.ino,
            m.doc_type@ == "CollectionType"@,
            p.uid,
            p.gid,
        ),
        held matches Ok(children) && children@.contains(found.ino),
{
    let db = p.tablet_db@;
    looked_for_is_asked_for(name->0);
    lookup_answers_as_getattr(
        db,
        at,
        name_text(name),
        p.uid,
        p.gid,
        found,
    );
    if md is Some {
        views_hold_the_fields(*md->0, arbitrary(), arbitrary());
    }
}

/// A lookup that fails does so because the directory is none, or because none of its children has
/// the name. A name that is not text is that of no child.
pub proof fn lookup_of_no_child<R>(
    p: &FuseProvider<R>,
    parent: u64,
    name: Option<&str>,
    e: Errno,
    at: DbPointer,
    held: Result<&[u64], Errno>,
    c: u64,
    md: Option<&Metadata>,
)
    requires
        p.tablet_db@.wf(),
        call_ensures(FuseProvider::<R>::lookup, (p, parent, name), Err::<FileAttr, Errno>(e)),
        at == (if parent == 1 {
            DbPointer::Root
        } else {
            DbPointer::INode { id: parent }
        }),
        call_ensures(Db::get_children, (&p.tablet_db, at), held),
        call_ensures(Db::get_metadata, (&p.tablet_db, c), md),
    ensures
        match held {
            Err(e2) => e == e2,
            Ok(children) => {
                &&& e == Errno::ENOENT
                &&& children@.contains(c) && name is Some ==> md is Some && md->0.visible_name@
                    != name->0@
            },
        },
{
    let text = name_text(name);
    lookup_fails_without_the_name(p.tablet_db@, at, text, p.uid, p.gid);
    if held is Ok {
        children_are_stored(p.tablet_db@, at, held->Ok_0@);
    }
    if md is Some {
        views_hold_the_fields(*md->0, arbitrary(), arbitrary());
    }
}

/// Each entry of a listing has the visible name of the child whose inode number is its offset,
/// and a lookup of that name succeeds.
#[verifier::spinoff_prover]
pub proof fn readdir_then_lookup<R>(
    p: &FuseProvider<R>,
    dir: u64,
    offset: u64,
    l: Listing,
    i: int,
    md: Option<&Metadata>,
    name: &str,
    found: Result<FileAttr, Errno>,
)
    requires
        p.tablet_db@.wf(),
        call_ensures(FuseProvider::<R>::readdir, (p, dir, offset), Ok::<Listing, Errno>(l)),
        0 <= i < l.entries@.len(),
        call_ensures(Db::get_metadata, (&p.tablet_db, l.entries@[i].offset), md),
        name@ == l.entries@[i].name@,
        call_ensures(FuseProvider::<R>::lookup, (p, dir, Some(name)), found),
    ensures
        md matches Some(m) && m.visible_name@ == l.entries@[i].name@,
        l.entries@[i].ino == dir,
        l.entries@[i].kind == FileType::RegularFile,
        l.entries@[i].offset > offset,
        forall|j: int| 0 <= j < i ==> (#[trigger] l.entries@[j]).offset < l.entries@[i].offset,
        !l.broken,
        found matches Ok(attr) && p.tablet_db@.store[attr.ino].md.visible_name == name@,
{
    let db = p.tablet_db@;
    let ptr = pointer(dir);
    let children = db.children(ptr)->Ok_0;
    children_are_stored(db, ptr, children);
    entries_name_the_children(l, db, dir, children, offset, i);
    listing_is_complete(db, ptr, children, dir, offset, l);
    entries_can_be_looked_up(
        l,
        db,
        ptr,
        dir,
        children,
        offset,
        i,
        p.uid,
        p.gid,
    );
    if md is Some {
        views_hold_the_fields(*md->0, arbitrary(), arbitrary());
    }
}

/// A listing has an entry for each child behind the offset, and for nothing else.
#[verifier::spinoff_prover]
pub proof fn readdir_lists_the_children<R>(
    p: &FuseProvider<R>,
    dir: u64,
    offset: u64,
    r: Result<Listing, Errno>,
    at: DbPointer,
    held: Result<&[u64], Errno>,
    c: u64,
)
    requires
        p.tablet_db@.wf(),
        call_ensures(FuseProvider::<R>::readdir, (p, dir, offset), r),
        at == (if dir == 1 {
            DbPointer::Root
        } else {
            DbPointer::INode { id: dir }
        }),
        call_ensures(Db::get_children, (&p.tablet_db, at), held),
    ensures
        match held {
            Err(e) => r matches Err(e2) && e2 == e,
            Ok(children) => r matches Ok(l) && (children@.contains(c) && c > offset
                <==> exists|i: int|
                0 <= i < l.entries@.len() && (#[trigger] l.entries@[i]).offset == c),
        },
{
    if held is Ok {
        let db = p.tablet_db@;
        let children = held->Ok_0@;
        let l = r->Ok_0;
        if children.contains(c) && c > offset {
            every_child_has_an_entry(
                l,
                db,
                at,
                dir,
                children,
                offset,
                c,
            );
        }
        if exists|i: int| 0 <= i < l.entries@.len() && (#[trigger] l.entries@[i]).offset == c {
            let i = choose|i: int|
                0 <= i < l.entries@.len() && (#[trigger] l.entries@[i]).offset == c;
            entries_name_the_children(l, db, dir, children, offset, i);
        }
    }
}

/// A reader that goes on behind the entry `i` gets the entries that come after it, one for one.
#[verifier::spinoff_prover]
pub proof fn readdir_goes_on<R>(
    p: &FuseProvider<R>,
    dir: u64,
    offset: u64,
    l: Listing,
    i: int,
    rest: Listing,
    j: int,
)
    requires
        p.tablet_db@.wf(),
        call_ensures(FuseProvider::<R>::readdir, (p, dir, offset), Ok::<Listing, Errno>(l)),
        0 <= i < l.entries@.len(),
        call_ensures(
            FuseProvider::<R>::readdir,
            (p, dir, l.entries@[i].offset),
            Ok::<Listing, Errno>(rest),
        ),
        0 <= j < rest.entries@.len(),
    ensures
        rest.entries@.len() == l.entries@.len() - i - 1,
        rest.entries@[j].offset == l.entries@[i + 1 + j].offset,
        rest.entries@[j].name@ == l.entries@[i + 1 + j].name@,
        rest.entries@[j].ino == l.entries@[i + 1 + j].ino,
        rest.entries@[j].kind == l.entries@[i + 1 + j].kind,
{
    let db = p.tablet_db@;
    let ptr = pointer(dir);
    let children = db.children(ptr)->Ok_0;
    let sent = sent_after(children, offset);
    children_are_stored(db, ptr, children);
    listing_is_complete(db, ptr, children, dir, offset, l);
    assert(l.entries@[i]@.offset == sent[i]);
    listing_is_complete(db, ptr, children, dir, sent[i], rest);
    resumed_listing_is_complete(children, offset, i);
    let more = sent_after(children, sent[i]);
    assert((sent.take(i + 1) + more)[i + 1 + j] == more[j]);
    assert(rest.entries@[j]@ == l.entries@[i + 1 + j]@);
}

/// A listing is sent entry by entry, in order, until the reader's buffer is full; it fails only
/// where it was cut short and all its entries were sent.
pub proof fn listing_is_sent_in_order(l: &Listing, sent: usize, full: bool, r: ListingStep)
    requires
        call_ensures(Listing::step, (l, sent, full), r),
    ensures
        r is Add <==> !full && sent < l.entries@.len(),
        r matches ListingStep::Add(e) ==> *e == l.entries@[sent as int],
        r matches ListingStep::Fail(e) ==> e == Errno::ENOENT,
        r is Fail <==> !full && sent >= l.entries@.len() && l.broken,
        r is Done <==> full || sent >= l.entries@.len() && !l.broken,
{
}

/// What is to be done to open a file: a document file is opened under the ID of the asset and the
/// extension of its kind, for what was asked; one that is still to be written has a handle at
/// once.
pub proof fn open_by_kind<R>(
    entries: Vec<Entry>,
    db: &Db,
    i: int,
    id: Seq<u8>,
    mode: OpenAccMode,
    r: Result<OpenStep<R>, Errno>,
)
    requires
        call_ensures(Db::build, (entries,), Ok::<Db, BuildError>(*db)),
        0 <= i < entries@.len(),
        denotes(entries@[i].slug@, id),
        call_ensures(Db::open_file_as::<R>, (db, ino_of(id), mode), r),
    ensures
        ({
            let dir = "/home/root/.local/share/remarkable/xochitl/"@;
            match entries@[i].underlying {
                None => r matches Ok(OpenStep::Handle(fh)) && fh@ == (
                FileHandleView::<R>::Created {
                    buf: Seq::empty(),
                    stub: dir + hyphenated(id),
                }),
                Some((kind, _)) => {
                    &&& mode == OpenAccMode::ReadWrite <==> r == Err::<OpenStep<R>, Errno>(
                        Errno::ENOTSUP,
                    )
                    &&& mode != OpenAccMode::ReadWrite ==> {
                        &&& r matches Ok(OpenStep::Remote { path, access })
                        &&& access == RemoteAccess::Read <==> mode == OpenAccMode::ReadOnly
                        &&& access == RemoteAccess::Write <==> mode == OpenAccMode::WriteOnly
                        &&& kind == Underlying::Pdf ==> path@ == dir + hyphenated(id) + ".pdf"@
                        &&& kind == Underlying::Epub ==> path@ == dir + hyphenated(id) + ".epub"@
                    }
                },
            }
        }),
{
    lemma_stored(entries@, *db, i, id);
    built_from_file(entries@, *db, i, id, ino_of(id));
    open_takes_the_document(db@, ino_of(id), mode, r);
}

/// Flags of an open are answered as one of the access modes that they may ask for: the one in
/// their low bits, unless the bit `O_PATH` is set.
pub proof fn open_by_flags<R>(
    p: &FuseProvider<R>,
    ino: u64,
    flags: i32,
    r: Result<OpenStep<R>, Errno>,
    direct: Result<OpenStep<R>, Errno>,
    there: bool,
)
    requires
        call_ensures(FuseProvider::<R>::open, (p, ino, flags), r),
        call_ensures(Db::open_file::<R>, (&p.tablet_db, ino, flags), direct),
        call_ensures(Db::contains, (&p.tablet_db, DbPointer::INode { id: ino }), there),
    ensures
        there <==> r != Err::<OpenStep<R>, Errno>(Errno::ENOENT),
        there <==> direct != Err::<OpenStep<R>, Errno>(Errno::ENOENT),
        flags & 0o10000000 == 0 ==> {
            &&& r matches Ok(OpenStep::Remote { path, access }) ==> {
                &&& access == RemoteAccess::Write <==> flags & 3 == 1
                &&& access == RemoteAccess::Read <==> flags & 3 != 1 && flags & 3 != 2
            }
            &&& direct matches Ok(OpenStep::Remote { path, access }) ==> {
                &&& access == RemoteAccess::Write <==> flags & 3 == 1
                &&& access == RemoteAccess::Read <==> flags & 3 != 1 && flags & 3 != 2
            }
            &&& r matches Ok(OpenStep::Remote { path: a, .. }) ==> (
            direct matches Ok(OpenStep::Remote { path: b, .. }) && a@ == b@)
            &&& r == Err::<OpenStep<R>, Errno>(Errno::ENOTSUP) ==> flags & 3 == 2
        },
{
}

/// A new file has the name that was asked for and is a plain document without content. Its parent
/// field is empty in the root directory, and otherwise names the directory.
pub proof fn new_file_by_calls(
    db: &Db,
    parent: DbPointer,
    name: &str,
    id: Uuid,
    r: Result<Asset, NewFileError>,
    random: Result<Asset, NewFileError>,
    there: bool,
)
    requires
        db@.wf(),
        call_ensures(Db::new_file_with_id, (db, parent, name, id), r),
        call_ensures(Db::new_file, (db, parent, name), random),
        call_ensures(Db::contains, (db, parent), there),
    ensures
        there <==> r is Ok,
        there <==> random is Ok,
        r matches Err(e) ==> e == NewFileError::CantResolveParent,
        random matches Err(e) ==> e == NewFileError::CantResolveParent,
        r matches Ok(child) ==> child.id.bytes@ == id.bytes@ && plain_document(child, name@),
        random matches Ok(child) ==> plain_document(child, name@) && child.id.bytes@[6] / 16 == 4
            && child.id.bytes@[8] / 64 == 2,
        r matches Ok(child) ==> match parent {
            DbPointer::Root => child.md.parent@ == ""@,
            DbPointer::INode { id: p } => exists|q: Seq<u8>|
                denotes(child.md.parent@, q) && ino_of(q) == p,
        },
        r is Ok && random is Ok ==> r->Ok_0.md.parent@ == random->Ok_0.md.parent@,
{
    if r is Ok {
        views_hold_the_fields(r->Ok_0.md, r->Ok_0, arbitrary());
        if let DbPointer::INode { id: p } = parent {
            hyphenated_round_trip(db@.store[p].id);
            assert(denotes(r->Ok_0.md.parent@, db@.store[p].id));
        }
    }
    if random is Ok {
        views_hold_the_fields(random->Ok_0.md, random->Ok_0, arbitrary());
    }
}

/// Whether an asset is a document without content, of that name, as it is when it is new.
pub open spec fn plain_document(a: Asset, name: Seq<char>) -> bool {
    &&& a.md.visible_name@ == name
    &&& a.md.doc_type@ == "DocumentType"@
    &&& a.md.last_modified@ == "0"@
    &&& a.md.version == 0
    &&& !a.md.deleted && !a.md.metadata_modified && !a.md.pinned && !a.md.synced
    &&& a.children@.len() == 0
    &&& a.underlying is None
    &&& a.size_on_disk == 0
}

/// The files of a new asset are named by its ID; the one holds an empty object, the other the
/// asset's metadata.
pub proof fn files_of_a_new_asset<'a>(
    db: &Db,
    asset: &'a Asset,
    r: InitFiles<'a>,
)
    requires
        call_ensures(Db::init_file, (db, asset), r),
    ensures
        r.content_path@ == "/home/root/.local/share/remarkable/xochitl/"@ + hyphenated(
            asset.id.bytes@,
        ) + ".content"@,
        r.metadata_path@ == "/home/root/.local/share/remarkable/xochitl/"@ + hyphenated(
            asset.id.bytes@,
        ) + ".metadata"@,
        r.content@ == seq![0x7bu8, 0x7du8],
        r.metadata@ == asset.md@,
        r.metadata.visible_name@ == asset.md.visible_name@,
        r.metadata.parent@ == asset.md.parent@,
        r.metadata.doc_type@ == asset.md.doc_type@,
        r.metadata.last_modified@ == asset.md.last_modified@,
{
    let id = hyphenated(asset.id.bytes@);
    let dir = "/home/root/.local/share/remarkable/xochitl/"@;
    views_hold_the_fields(asset.md, *asset, arbitrary());
    views_hold_the_fields(*r.metadata, *asset, arbitrary());
    path_is_in_the_directory(id, id, "content"@);
    path_is_in_the_directory(id, id, "metadata"@);
    reveal_strlit(".");
    reveal_strlit("content");
    reveal_strlit("metadata");
    reveal_strlit(".content");
    reveal_strlit(".metadata");
    assert(dir + id + "."@ + "content"@ =~= dir + id + ".content"@);
    assert(dir + id + "."@ + "metadata"@ =~= dir + id + ".metadata"@);
}

/// Taking a new file into the database puts it last in its directory, where it is then known, and
/// changes nothing else.
pub proof fn file_is_added(
    db: &mut Db,
    parent: DbPointer,
    child: Asset,
    r: Result<u64, NewFileError>,
    k: u64,
)
    requires
        !db@.store.contains_key(ino_of(child.id.bytes@)),
        db@.contains(parent),
        call_ensures(Db::add_file, (db, parent, child), r),
    ensures
        r == Ok::<u64, NewFileError>(ino_of(child.id.bytes@)),
        final(db)@.store.contains_key(ino_of(child.id.bytes@)),
        final(db)@.store[ino_of(child.id.bytes@)].md == child.md@,
        old(db)@.store.contains_key(k) ==> {
            &&& final(db)@.store.contains_key(k)
            &&& final(db)@.store[k].md == old(db)@.store[k].md
            &&& final(db)@.store[k].id == old(db)@.store[k].id
            &&& final(db)@.store[k].underlying == old(db)@.store[k].underlying
            &&& final(db)@.store[k].size_on_disk == old(db)@.store[k].size_on_disk
            &&& final(db)@.store[k].children == if parent == (DbPointer::INode { id: k }) {
                old(db)@.store[k].children.push(ino_of(child.id.bytes@))
            } else {
                old(db)@.store[k].children
            }
        },
        final(db)@.root == if parent == DbPointer::Root {
            old(db)@.root.push(ino_of(child.id.bytes@))
        } else {
            old(db)@.root
        },
        final(db)@.trash == old(db)@.trash,
{
}

/// A new file that was written is taken into the directory where it was made, and answered with
/// its attributes; the file handles stay as they are. Where it could not be written, it is not
/// taken in.
pub proof fn file_is_made<R>(
    p: &mut FuseProvider<R>,
    parent: u64,
    child: Asset,
    written: Result<(), TabletSftpError>,
    r: Result<FileAttr, Errno>,
)
    requires
        written is Ok ==> !p.tablet_db@.store.contains_key(ino_of(child.id.bytes@)),
        call_ensures(FuseProvider::<R>::mknod_written, (p, parent, child, written), r),
    ensures
        final(p).file_handles == old(p).file_handles,
        final(p).uid == old(p).uid && final(p).gid == old(p).gid,
        written is Err ==> r == Err::<FileAttr, Errno>(Errno::EIO) && final(p).tablet_db@
            == old(p).tablet_db@,
        written is Ok && (parent == 1 || old(p).tablet_db@.store.contains_key(parent)) ==> {
            let ino = ino_of(child.id.bytes@);
            &&& r matches Ok(a) && attributes_match(
                a,
                ino,
                child.md.doc_type@ == "CollectionType"@,
                old(p).uid,
                old(p).gid,
            ) && a.size == child.size_on_disk
            &&& final(p).tablet_db@.store.dom() == old(p).tablet_db@.store.dom().insert(ino)
            &&& final(p).tablet_db@.store[ino].md == child.md@
            &&& parent == 1 ==> final(p).tablet_db@.root == old(p).tablet_db@.root.push(ino)
            &&& parent != 1 ==> final(p).tablet_db@.root == old(p).tablet_db@.root
            &&& parent != 1 ==> final(p).tablet_db@.store[parent].children
                == old(p).tablet_db@.store[parent].children.push(ino)
        },
        r == Err::<FileAttr, Errno>(Errno::EINVAL) ==> parent != 1
            && !old(p).tablet_db@.store.contains_key(parent),
{
    let ino = ino_of(child.id.bytes@);
    views_hold_the_fields(child.md, child, arbitrary());
    if written is Ok && (parent == 1 || p.tablet_db@.store.contains_key(parent)) {
        assert(final(p).tablet_db@.store.dom() =~= p.tablet_db@.store.dom().insert(ino));
    }
}

/// A file is made with the name that was asked for, in the directory that was asked for. A name
/// that is not text, or a directory that is not there, is an invalid argument.
pub proof fn mknod_by_name<R>(
    p: &FuseProvider<R>,
    parent: u64,
    name: Option<&str>,
    r: Result<Asset, Errno>,
)
    requires
        p.tablet_db@.wf(),
        call_ensures(FuseProvider::<R>::mknod, (p, parent, name), r),
    ensures
        r is Ok <==> name is Some && (parent == 1 || p.tablet_db@.store.contains_key(parent)),
        r matches Err(e) ==> e == Errno::EINVAL,
        r matches Ok(child) ==> plain_document(child, name->0@),
        r matches Ok(child) ==> child.id.bytes@[6] / 16 == 4 && child.id.bytes@[8] / 64 == 2,
        r matches Ok(child) ==> (parent == 1 ==> child.md.parent@ == ""@) && (parent != 1
            ==> exists|q: Seq<u8>| denotes(child.md.parent@, q) && ino_of(q) == parent),
{
    if r is Ok {
        views_hold_the_fields(r->Ok_0.md, r->Ok_0, arbitrary());
        looked_for_is_asked_for(name->0);
        if parent != 1 {
            hyphenated_round_trip(p.tablet_db@.store[parent].id);
            assert(denotes(r->Ok_0.md.parent@, p.tablet_db@.store[parent].id));
        }
    }
}

/// A new file is written under the path of its ID, from its first byte on.
pub proof fn created_handle_is_empty<R>(stub: &str, fh: FileHandle<R>)
    requires
        call_ensures(FileHandle::<R>::create, (stub,), fh),
    ensures
        fh@ == (FileHandleView::<R>::Created {
            buf: Seq::empty(),
            stub: "/home/root/.local/share/remarkable/xochitl/"@ + stub@,
        }),
{
    path_is_in_the_directory(stub@, stub@, stub@);
}

/// A remote file is opened for what was asked, and not for both; a file that could not be opened
/// is reported.
pub proof fn remote_access<R>(
    mode: OpenAccMode,
    access: Result<RemoteAccess, Errno>,
    file: Option<R>,
    r: Result<FileHandle<R>, Errno>,
)
    requires
        call_ensures(FileHandle::<R>::open, (mode,), access),
        call_ensures(FileHandle::<R>::opened, (file,), r),
    ensures
        access == Ok::<RemoteAccess, Errno>(RemoteAccess::Read) <==> mode == OpenAccMode::ReadOnly,
        access == Ok::<RemoteAccess, Errno>(RemoteAccess::Write) <==> mode
            == OpenAccMode::WriteOnly,
        access == Err::<RemoteAccess, Errno>(Errno::ENOTSUP) <==> mode == OpenAccMode::ReadWrite,
        file matches Some(f) ==> (r matches Ok(FileHandle::Remote(g)) && g == f),
        file is None <==> r == Err::<FileHandle<R>, Errno>(Errno::EBADMSG),
{
}

/// Exactly the bytes that were asked for are read from the remote file, and handed on as they
/// came. Before there is a remote file, nothing can be read.
pub proof fn reads_what_is_asked<R>(
    fh: &FileHandle<R>,
    offset: u64,
    len: usize,
    r: Result<ReadPlan, Errno>,
    outcome: ReadOutcome,
    done: Result<Vec<u8>, Errno>,
)
    requires
        call_ensures(FileHandle::<R>::read, (fh, offset, len), r),
        call_ensures(FileHandle::<R>::read_done, (outcome,), done),
    ensures
        *fh is Remote ==> (r matches Ok(plan) && plan.offset == offset && plan.len == len),
        *fh is Created ==> r == Err::<ReadPlan, Errno>(Errno::EBADF),
        outcome matches ReadOutcome::Filled(bytes) ==> done == Ok::<Vec<u8>, Errno>(bytes),
        !(outcome is Filled) ==> done == Err::<Vec<u8>, Errno>(Errno::EIO),
{
}

/// A write to a remote file goes to the offset that was asked for; one to a new file is added to
/// what was written before, wherever it was asked for. The remote file is to be created, with all
/// that was written, once it begins with one of the two magic numbers.
pub proof fn writes_as_asked<R>(
    fh: &mut FileHandle<R>,
    offset: u64,
    data: &[u8],
    step: WriteStep,
)
    requires
        call_ensures(FileHandle::<R>::write, (fh, offset, data), step),
    ensures
        *old(fh) is Remote ==> {
            &&& *final(fh) == *old(fh)
            &&& step matches WriteStep::Forward { offset: at } && at == offset
        },
        old(fh)@ matches FileHandleView::Created { buf, stub } ==> {
            let all = buf + data@;
            let pdf = all.len() >= 5 && all[0] == 0x25 && all[1] == 0x50 && all[2] == 0x44
                && all[3] == 0x46 && all[4] == 0x2d;
            let epub = all.len() >= 4 && all[0] == 0x50 && all[1] == 0x4b && all[2] == 0x03
                && all[3] == 0x04;
            &&& final(fh)@ == (FileHandleView::<R>::Created { buf: all, stub })
            &&& pdf ==> (step matches WriteStep::Create { path, content } && path@ == stub
                + ".pdf"@ && content@ == all)
            &&& epub ==> (step matches WriteStep::Create { path, content } && path@ == stub
                + ".epub"@ && content@ == all)
            &&& !pdf && !epub && data@.len() <= 0xffff_ffff ==> (step matches WriteStep::Buffered(
                Ok(n),
            ) && n == data@.len())
            &&& !pdf && !epub && data@.len() > 0xffff_ffff ==> step == WriteStep::Buffered(
                Err(Errno::EOVERFLOW),
            )
        },
{
    if let FileHandleView::Created { buf, stub } = fh@ {
        new_file_keeps_what_is_written(
            buf,
            stub,
            offset,
            data@,
            step,
            final(fh)@,
        );
    }
}

/// What is answered to a write that was forwarded is what came of it.
pub proof fn forwarded_write_is_answered<R>(outcome: ForwardOutcome, r: Result<u32, Errno>)
    requires
        call_ensures(FileHandle::<R>::write_forwarded, (outcome,), r),
    ensures
        match outcome {
            ForwardOutcome::SeekFailed => r == Err::<u32, Errno>(Errno::EIO),
            ForwardOutcome::WriteFailed(e) => r == Err::<u32, Errno>(e),
            ForwardOutcome::Written(n) => {
                &&& n <= 0xffff_ffff ==> (r matches Ok(m) && m == n)
                &&& n > 0xffff_ffff ==> r == Err::<u32, Errno>(Errno::EOVERFLOW)
            },
        },
{
}

/// Once the remote file is created, the handle is that of the remote file, and the write is
/// answered with its own length. Where it is not, the handle keeps what was written.
pub proof fn created_file_is_kept<R>(
    fh: &mut FileHandle<R>,
    outcome: CreateOutcome<R>,
    len: usize,
    r: Result<u32, Errno>,
)
    requires
        call_ensures(FileHandle::<R>::write_created, (fh, outcome, len), r),
    ensures
        outcome matches CreateOutcome::Created(f) ==> {
            &&& *final(fh) == FileHandle::Remote(f)
            &&& len <= 0xffff_ffff ==> (r matches Ok(m) && m == len)
            &&& len > 0xffff_ffff ==> r == Err::<u32, Errno>(Errno::EOVERFLOW)
        },
        !(outcome is Created) ==> *final(fh) == *old(fh) && r == Err::<u32, Errno>(Errno::EIO),
{
}

/// The remote file of a handle is the one that is shut down; a file that never got one is
/// refused.
pub proof fn shutdown_of_the_remote_file<R>(fh: FileHandle<R>, r: Result<R, Errno>, f: R)
    requires
        call_ensures(FileHandle::<R>::shutdown, (fh,), r),
    ensures
        fh == FileHandle::Remote(f) <==> r == Ok::<R, Errno>(f),
        fh is Created <==> r == Err::<R, Errno>(Errno::EINVAL),
{
}

/// A handle is kept under an index that no other has, and is found there until it is released.
pub proof fn handle_is_kept<R>(
    s: &mut FhStore<R>,
    fh: FileHandle<R>,
    idx: u64,
    other: u64,
)
    requires
        s.wf(),
        call_ensures(FhStore::<R>::push, (s, fh), idx),
    ensures
        final(s).wf(),
        !old(s)@.handles.contains_key(idx),
        final(s)@.handles.contains_key(idx),
        final(s)@.handles[idx] == fh,
        other != idx ==> {
            &&& final(s)@.handles.contains_key(other) <==> old(s)@.handles.contains_key(other)
            &&& final(s)@.handles[other] == old(s)@.handles[other]
        },
        old(s)@.free.len() > 0 ==> idx == old(s)@.free[old(s)@.free.len() - 1],
        old(s)@.free.len() == 0 ==> idx == old(s)@.slots,
{
    s.wf_is_valid();
}

/// The handle that is released is the one that was kept; its index is free, and the next handle
/// gets it.
pub proof fn handle_is_released<R>(s: &mut FhStore<R>, idx: u64, fh: FileHandle<R>, other: u64)
    requires
        s.wf(),
        s@.handles.contains_key(idx),
        call_ensures(FhStore::<R>::delete, (s, idx), fh),
    ensures
        final(s).wf(),
        fh == old(s)@.handles[idx],
        !final(s)@.handles.contains_key(idx),
        other != idx ==> {
            &&& final(s)@.handles.contains_key(other) <==> old(s)@.handles.contains_key(other)
            &&& final(s)@.handles[other] == old(s)@.handles[other]
        },
        final(s)@.next_index() == idx,
{
}

/// What is found at an index is the handle that is kept there.
pub proof fn handle_is_found<R>(s: &FhStore<R>, idx: u64, there: bool, fh: &FileHandle<R>)
    requires
        s.wf(),
        call_ensures(FhStore::<R>::contains, (s, idx), there),
        there ==> call_ensures(FhStore::<R>::index, (s, idx), fh),
    ensures
        there <==> s@.handles.contains_key(idx),
        there ==> *fh == s@.handles[idx],
{
}

/// The file system's handles: an opened file is kept under a new index, and the released one is
/// the one that was kept there. The documents are not touched.
pub proof fn opened_and_released<R>(
    p: &mut FuseProvider<R>,
    handle: FileHandle<R>,
    idx: u64,
    q: &mut FuseProvider<R>,
    gone: u64,
    fh: FileHandle<R>,
    shut_down: bool,
    r: Result<(), Errno>,
)
    requires
        p.file_handles.wf(),
        call_ensures(FuseProvider::<R>::opened, (p, handle), idx),
        q.file_handles.wf(),
        q.file_handles@.handles.contains_key(gone),
        call_ensures(FuseProvider::<R>::release, (q, gone), fh),
        call_ensures(FuseProvider::<R>::released, (shut_down,), r),
    ensures
        !old(p).file_handles@.handles.contains_key(idx),
        final(p).file_handles@.handles == old(p).file_handles@.handles.insert(idx, handle),
        final(p).tablet_db == old(p).tablet_db,
        fh == old(q).file_handles@.handles[gone],
        final(q).file_handles@.handles == old(q).file_handles@.handles.remove(gone),
        final(q).tablet_db == old(q).tablet_db,
        r is Ok <==> shut_down,
        r matches Err(e) ==> e == Errno::EIO,
{
}

/// A read and a write of an open file are those of its handle, at the offset that was asked for;
/// no other handle changes.
pub proof fn reads_and_writes_by_handle<R>(
    p: &FuseProvider<R>,
    fh: u64,
    offset: u64,
    size: u32,
    plan: Result<ReadPlan, Errno>,
    q: &mut FuseProvider<R>,
    data: &[u8],
    step: WriteStep,
    other: u64,
)
    requires
        p.file_handles.wf(),
        p.file_handles@.handles.contains_key(fh),
        call_ensures(FuseProvider::<R>::read, (p, fh, offset, size), plan),
        q.file_handles.wf(),
        q.file_handles@.handles.contains_key(fh),
        call_ensures(FuseProvider::<R>::write, (q, fh, offset, data), step),
    ensures
        p.file_handles@.handles[fh] is Remote ==> (plan matches Ok(at) && at.offset == offset
            && at.len == size),
        p.file_handles@.handles[fh] is Created ==> plan == Err::<ReadPlan, Errno>(Errno::EBADF),
        old(q).file_handles@.handles[fh] is Remote ==> (step matches WriteStep::Forward {
            offset: at,
        } && at == offset),
        old(q).file_handles@.handles[fh]@ matches FileHandleView::Created { buf, stub }
            ==> final(q).file_handles@.handles[fh]@
            == (FileHandleView::<R>::Created { buf: buf + data@, stub }),
        other != fh ==> {
            &&& final(q).file_handles@.handles.contains_key(other)
                <==> old(q).file_handles@.handles.contains_key(other)
            &&& final(q).file_handles@.handles[other] == old(q).file_handles@.handles[other]
        },
        final(q).tablet_db == old(q).tablet_db,
{
}

/// Once the remote file of an open file is created, reads and writes of that file go to it.
pub proof fn created_file_is_kept_open<R>(
    p: &mut FuseProvider<R>,
    fh: u64,
    outcome: CreateOutcome<R>,
    len: usize,
    r: Result<u32, Errno>,
    other: u64,
)
    requires
        p.file_handles.wf(),
        p.file_handles@.handles.contains_key(fh),
        call_ensures(FuseProvider::<R>::write_created, (p, fh, outcome, len), r),
    ensures
        outcome matches CreateOutcome::Created(f) ==> {
            &&& final(p).file_handles@.handles[fh] == FileHandle::Remote(f)
            &&& len <= 0xffff_ffff ==> (r matches Ok(m) && m == len)
        },
        !(outcome is Created) ==> {
            &&& final(p).file_handles@.handles[fh] == old(p).file_handles@.handles[fh]
            &&& r == Err::<u32, Errno>(Errno::EIO)
        },
        final(p).file_handles@.handles.contains_key(fh),
        other != fh ==> {
            &&& final(p).file_handles@.handles.contains_key(other)
                <==> old(p).file_handles@.handles.contains_key(other)
            &&& final(p).file_handles@.handles[other] == old(p).file_handles@.handles[other]
        },
        final(p).tablet_db == old(p).tablet_db,
{
}

/// A metadata file is found by its name; its own path is read, and the documents beside it are
/// asked for at the paths that opening them would name.
pub proof fn files_are_found_by_name(
    file_name: &str,
    slug: Option<String>,
    path: String,
    first: DetectStep,
    epub: DetectStep,
)
    requires
        call_ensures(metadata_slug, (file_name, true), slug),
        call_ensures(listed_path, (file_name,), path),
        call_ensures(Underlying::detect, (file_name,), first),
        call_ensures(Underlying::detect_exists, (Underlying::Pdf, file_name, false), epub),
    ensures
        ({
            let dir = "/home/root/.local/share/remarkable/xochitl/"@;
            &&& slug matches Some(s) ==> file_name@ == s@ + ".metadata"@
            &&& slug is None ==> forall|s: Seq<char>| file_name@ != #[trigger] (s + ".metadata"@)
            &&& file_name@.len() == 0 || file_name@[0] != '/' ==> path@ == dir + file_name@
            &&& file_name@.len() > 0 && file_name@[0] == '/' ==> path@ == file_name@
            &&& first matches DetectStep::Exists { kind, path } && kind == Underlying::Pdf && path@
                == dir + file_name@ + ".pdf"@
            &&& epub matches DetectStep::Exists { kind, path } && kind == Underlying::Epub && path@
                == dir + file_name@ + ".epub"@
        }),
{
    assert forall|s: Seq<char>| slug is None implies file_name@ != #[trigger] (s
        + ".metadata"@) by {
        metadata_files_by_name(file_name@, s);
    }
    if slug is Some {
        metadata_files_by_name(file_name@, slug->0@);
    }
    metadata_files_by_name(file_name@, file_name@);
    detection_asks_beside_the_metadata(file_name@, None);
}

/// A document file that is there is asked for its size at the same path, and found with the size
/// that was answered; without a size, or where there is none, none is found.
pub proof fn documents_are_found_with_their_size(
    kind: Underlying,
    slug: &str,
    there: DetectStep,
    absent: DetectStep,
    size: Option<u64>,
    done: DetectStep,
)
    requires
        call_ensures(Underlying::detect_exists, (kind, slug, true), there),
        call_ensures(Underlying::detect_exists, (Underlying::Epub, slug, false), absent),
        call_ensures(Underlying::detect_size, (kind, size), done),
    ensures
        ({
            let dir = "/home/root/.local/share/remarkable/xochitl/"@;
            &&& there matches DetectStep::Size { kind: k, path } && k == kind && path@ == dir
                + slug@ + (if kind == Underlying::Pdf {
                ".pdf"@
            } else {
                ".epub"@
            })
            &&& absent == DetectStep::Done(None)
            &&& size matches Some(n) ==> done == DetectStep::Done(Some((kind, n)))
            &&& size is None ==> done == DetectStep::Done(None)
        }),
{
    detection_asks_beside_the_metadata(slug@, size);
}

/// A directory entry that is no file is no metadata file.
pub proof fn directories_are_no_metadata(file_name: &str, slug: Option<String>)
    requires
        call_ensures(metadata_slug, (file_name, false), slug),
    ensures
        slug is None,
{
}

/// The texts that an asset's ID gives.
pub proof fn texts_of_an_asset(
    asset: &Asset,
    text: String,
    content: String,
    metadata: String,
    kind: Underlying,
    ext: &'static str,
)
    requires
        call_ensures(Asset::uuid_string, (asset,), text),
        call_ensures(Asset::content_path, (asset,), content),
        call_ensures(Asset::metadata_path, (asset,), metadata),
        call_ensures(Underlying::ext, (&kind,), ext),
    ensures
        text@ == hyphenated(asset.id.bytes@),
        content@ == "/home/root/.local/share/remarkable/xochitl/"@ + text@ + "."@ + "content"@,
        metadata@ == "/home/root/.local/share/remarkable/xochitl/"@ + text@ + "."@ + "metadata"@,
        kind == Underlying::Pdf ==> ext@ == "pdf"@,
        kind == Underlying::Epub ==> ext@ == "epub"@,
{
    path_is_in_the_directory(text@, text@, "content"@);
    path_is_in_the_directory(text@, text@, "metadata"@);
}

/// Building file by file: what was added is kept in order, a file is added exactly where its name
/// is an ID whose inode number no earlier one has, and each is refused for the reason that holds
/// of it.
#[verifier::spinoff_prover]
pub proof fn loading_keeps_the_files(
    loading: Loading,
    entry: Entry,
    r: Result<Loading, BuildError>,
    slug: &str,
    id: Result<Uuid, BuildError>,
)
    requires
        loading.wf(),
        call_ensures(Loading::add, (loading, entry), r),
        slug@ == entry.slug@,
        call_ensures(Loading::id_of, (slug,), id),
    ensures
        r matches Ok(next) ==> next@ == loading@.push(entry@) && next.wf(),
        id matches Ok(u) ==> denotes(entry.slug@, u.bytes@),
        id matches Err(e) ==> e is InvalidId && forall|b: Seq<u8>| !denotes(entry.slug@, b),
        r matches Err(e) ==> {
            ||| e is InvalidId && id is Err
            ||| e matches BuildError::DuplicateId(u) && id matches Ok(v) && u.bytes@ == v.bytes@
                && exists|j: int, b: Seq<u8>|
                0 <= j < loading@.len() && #[trigger] denotes(loading@[j].slug, b) && ino_of(b)
                    == ino_of(v.bytes@)
        },
        id is Err ==> r is Err,
        id matches Ok(v) ==> (r is Ok ==> forall|j: int, b: Seq<u8>|
            0 <= j < loading@.len() && #[trigger] denotes(loading@[j].slug, b) ==> ino_of(b)
                != ino_of(v.bytes@)),
{
    let all = loading@.push(entry@);
    let n = loading@.len() as int;
    assert forall|s: Seq<char>, b: Seq<u8>| #[trigger] denotes(s, b) <==> parsed(s) == Some(b) by {
        parsed_iff_denotes(s, b);
    }
    assert(forall|j: int| 0 <= j < n ==> #[trigger] all[j] == loading@[j]);
    if r is Err && id is Ok {
        let j = choose|j: int| 0 <= j < n && (#[trigger] all[j]).ino() == all[n].ino();
        assert(entry_ok(all, j));
        assert(denotes(loading@[j].slug, parsed(loading@[j].slug)->0));
    }
    if r is Ok && id is Ok {
        assert forall|j: int, b: Seq<u8>|
            0 <= j < loading@.len() && #[trigger] denotes(loading@[j].slug, b) implies ino_of(b)
            != ino_of(id->Ok_0.bytes@) by {
            assert(all[j].ino() != all[n].ino());
        }
    }
}

/// A file system begins with the documents and the owner that it was given, and without an open
/// file.
pub proof fn provider_begins<R>(db: Db, uid: u32, gid: u32, p: FuseProvider<R>, idx: u64)
    requires
        call_ensures(FuseProvider::<R>::new, (db, uid, gid), p),
    ensures
        p.tablet_db == db,
        p.uid == uid,
        p.gid == gid,
        p.file_handles.wf(),
        !p.file_handles@.handles.contains_key(idx),
        p.file_handles@.slots == 0,
{
}

/// A store begins without a handle.
pub proof fn store_begins_empty<R>(s: FhStore<R>, idx: u64)
    requires
        call_ensures(FhStore::<R>::new, (), s),
    ensures
        s.wf(),
        !s@.handles.contains_key(idx),
        s@.slots == 0,
{
}

/// The handle that is changed is the one at the index, and no other changes.
pub proof fn handle_is_changed<R>(
    s: &mut FhStore<R>,
    idx: u64,
    fh: &mut FileHandle<R>,
    other: u64,
)
    requires
        s.wf(),
        s@.handles.contains_key(idx),
        call_ensures(FhStore::<R>::index_mut, (s, idx), fh),
    ensures
        *old(fh) == old(s)@.handles[idx],
        final(s)@.handles[idx] == *final(fh),
        other != idx ==> {
            &&& final(s)@.handles.contains_key(other) <==> old(s)@.handles.contains_key(other)
            &&& final(s)@.handles[other] == old(s)@.handles[other]
        },
{
}

/// The code for a creation that failed.
pub proof fn errors_of_creation(e: &NewFileError, code: Errno)
    requires
        call_ensures(NewFileError::errno, (e,), code),
    ensures
        *e == NewFileError::CantResolveParent <==> code == Errno::EINVAL,
        *e is TransportError <==> code == Errno::EIO,
{
}

/// An inode number and an ID refer to the root directory, or to the asset that has them.
pub proof fn pointers_by_conversion(ino: u64, id: Uuid)
    ensures
        <DbPointer as vstd::std_specs::convert::FromSpec<u64>>::from_spec(1) == DbPointer::Root,
        ino != 1 ==> <DbPointer as vstd::std_specs::convert::FromSpec<u64>>::from_spec(ino) == (
        DbPointer::INode { id: ino }),
        ino_of(id.bytes@) == 1 ==> <DbPointer as vstd::std_specs::convert::FromSpec<
            Uuid,
        >>::from_spec(id) == DbPointer::Root,
        ino_of(id.bytes@) != 1 ==> <DbPointer as vstd::std_specs::convert::FromSpec<
            Uuid,
        >>::from_spec(id) == (DbPointer::INode { id: ino_of(id.bytes@) }),
{
}

/// Building fails exactly where a metadata file is broken, and says so of one that is.
pub proof fn build_by_calls(entries: Vec<Entry>, r: Result<Db, BuildError>)
    requires
        call_ensures(Db::build, (entries,), r),
    ensures
        r is Ok ==> forall|i: int|
            0 <= i < entries@.len() ==> exists|id: Seq<u8>|
                denotes((#[trigger] entries@[i]).slug@, id),
        r is Ok ==> forall|i: int, j: int, a: Seq<u8>, b: Seq<u8>|
            0 <= i < j < entries@.len() && #[trigger] denotes(entries@[i].slug@, a)
                && #[trigger] denotes(entries@[j].slug@, b) ==> ino_of(a) != ino_of(b),
        r is Ok ==> forall|i: int|
            0 <= i < entries@.len() ==> (#[trigger] entries@[i]).md.parent@ == ""@
                || entries@[i].md.parent@ == "trash"@ || exists|j: int, q: Seq<u8>, id: Seq<u8>|
                0 <= j < entries@.len() && #[trigger] denotes(entries@[i].md.parent@, q)
                    && #[trigger] denotes(entries@[j].slug@, id) && ino_of(id) == ino_of(q),
        r matches Err(BuildError::InvalidId) ==> exists|i: int|
            0 <= i < entries@.len() && forall|id: Seq<u8>|
                !denotes((#[trigger] entries@[i]).slug@, id),
        r matches Err(BuildError::DuplicateId(later)) ==> exists|i: int, j: int, a: Seq<u8>|
            0 <= i < j < entries@.len() && #[trigger] denotes(entries@[i].slug@, a)
                && #[trigger] denotes(entries@[j].slug@, later.bytes@) && ino_of(a) == ino_of(
                later.bytes@,
            ),
        r matches Err(BuildError::InvalidParent(s)) ==> exists|i: int|
            {
                &&& 0 <= i < entries@.len()
                &&& (#[trigger] entries@[i]).md.parent@ == s@
                &&& s@ != ""@
                &&& s@ != "trash"@
                &&& forall|q: Seq<u8>| !denotes(s@, q)
            },
        r matches Err(BuildError::MissingParent(p)) ==> exists|i: int, q: Seq<u8>|
            {
                &&& 0 <= i < entries@.len()
                &&& #[trigger] denotes(entries@[i].md.parent@, q)
                &&& ino_of(q) == p
                &&& forall|j: int, id: Seq<u8>|
                    0 <= j < entries@.len() && #[trigger] denotes(entries@[j].slug@, id) ==> ino_of(
                        id,
                    ) != p
            },
{
    built_unless_broken(entries@, r);
    if r is Err {
        build_error_is_true(entries@, r);
    }
}

/// What is loaded file by file is listed where the parent field of each file says, and holds what
/// the file says.
#[verifier::spinoff_prover]
pub proof fn finished_from_file(loading: Loading, db: Db, i: int, id: Seq<u8>, p: u64)
    requires
        loading.wf(),
        call_ensures(Loading::finish, (loading,), Ok::<Db, BuildError>(db)),
        0 <= i < loading@.len(),
        denotes(loading@[i].slug, id),
        db@.store.contains_key(p),
    ensures
        ({
            let k = ino_of(id);
            let md = loading@[i].md;
            &&& db@.wf()
            &&& db@.store.contains_key(k)
            &&& db@.store[k].id == id
            &&& db@.store[k].md == md
            &&& match loading@[i].underlying {
                Some((kind, size)) => db@.store[k].underlying == Some(kind)
                    && db@.store[k].size_on_disk == size,
                None => db@.store[k].underlying is None && db@.store[k].size_on_disk == 0,
            }
            &&& db@.root.contains(k) <==> md.parent == ""@
            &&& db@.trash.contains(k) <==> md.parent == "trash"@
            &&& db@.store[p].children.contains(k) <==> {
                &&& md.parent != ""@
                &&& md.parent != "trash"@
                &&& exists|q: Seq<u8>| denotes(md.parent, q) && ino_of(q) == p
            }
        }),
{
    let es = loading@;
    loaded_holds_entries(es);
    parsed_iff_denotes(es[i].slug, id);
    assert(es[i].ino() == ino_of(id));
    assert(loaded(es).store.contains_key(es[i].ino()));
    let keys = choose|keys: Seq<u64>|
        all_keys(
            keys,
            loaded(es).store,
        ) && db@ == #[trigger] loaded(es).linked(keys);
    assert(db@ == loaded(es).linked(keys));
    lists_follow_parent_fields(db@, ino_of(id), p);
}

/// Listing every asset where it belongs makes a database well-formed in which nothing was listed.
pub proof fn fixup_lists_everything(db: &mut Db)
    requires
        db@.unlinked(),
        call_ensures(Db::fixup_parentage, (db,), Ok::<(), BuildError>(())),
    ensures
        final(db)@.wf(),
        final(db)@.store.dom() == old(db)@.store.dom(),
        forall|k: u64| #[trigger]
            old(db)@.store.contains_key(k) ==> final(db)@.store[k].md == old(db)@.store[k].md,
{
    let before = db@;
    let after = final(db)@;
    let r = Ok::<(), BuildError>(());
    let keys = choose|keys: Seq<u64>|
        all_keys(keys, before.store)
            && #[trigger] link_outcome(before, keys, r, after);
    linked_is_wf(before, keys);
    assert(after.store.dom() =~= before.store.dom());
}

/// Adding an asset to the store: it is kept under its inode number with all that was given, and
/// one that was there before is replaced and reported.
pub proof fn pushed_asset_is_kept(
    db: &mut Db,
    id: Uuid,
    md: Metadata,
    underlying: Option<Underlying>,
    size: u64,
    r: Result<(), BuildError>,
    k: u64,
)
    requires
        call_ensures(Db::push, (db, id, md, underlying, size), r),
    ensures
        ({
            let ino = ino_of(id.bytes@);
            &&& r is Err <==> old(db)@.store.contains_key(ino)
            &&& r matches Err(e) ==> (e matches BuildError::DuplicateId(u) && u.bytes@
                == id.bytes@)
            &&& final(db)@.store.contains_key(ino)
            &&& final(db)@.store[ino].md == md@
            &&& final(db)@.store[ino].id == id.bytes@
            &&& final(db)@.store[ino].underlying == underlying
            &&& final(db)@.store[ino].size_on_disk == size
            &&& final(db)@.store[ino].children.len() == 0
            &&& k != ino ==> final(db)@.store[k] == old(db)@.store[k] && (
            final(db)@.store.contains_key(k) <==> old(db)@.store.contains_key(k))
            &&& final(db)@.root == old(db)@.root
            &&& final(db)@.trash == old(db)@.trash
        }),
{
}

/// A database and a store of handles begin with nothing in them.
pub proof fn defaults_are_empty<R>(db: Db, s: FhStore<R>, k: u64)
    requires
        call_ensures(<Db as Default>::default, (), db),
        call_ensures(<FhStore<R> as Default>::default, (), s),
    ensures
        db@.root.len() == 0,
        db@.trash.len() == 0,
        !db@.store.contains_key(k),
        s.wf(),
        !s@.handles.contains_key(k),
        s@.slots == 0,
{
}

} // verus!
