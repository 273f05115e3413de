//! What holds of the file system as a whole.
use vstd::prelude::*;

use crate::errno::Errno;
use crate::fuse_provider::detect::slug_of;
use crate::fuse_provider::fh::{
    sniff, sniff_is_settled, write_effect, FileHandleView, WriteStep,
};
use crate::fuse_provider::listing::{ascending, lists_keys, sent_after, Listing};
use crate::fuse_provider::tablet::{
    all_keys, attr_of, entry_ok, linked_is_wf, loaded, loaded_holds_entries, loaded_is_unlinked,
    new_asset, parent_of, pointer, root_ino, AssetView, DbPointer, DbView, EntryView, FileAttr,
    FileType, Parent, Underlying,
};
use crate::fuse_provider::{find, lookup_answer};
use crate::ident::{hyphenated, hyphenated_round_trip, ino_of, is_v4, parsed, v4_is_not_root};
use crate::text::{path_of, with_ext};

verus! {

/// There are attributes exactly for what exists. What exists is a directory exactly where its
/// contents can be listed; the contents of a file are refused as no directory, and those of what
/// does not exist as missing.
pub proof fn directory_iff_listable(db: DbView, ptr: DbPointer, uid: u32, gid: u32)
    ensures
        db.attr(ptr, uid, gid) is Some <==> db.contains(ptr),
        db.children(ptr) is Ok <==> db.contains(ptr) && db.attr(ptr, uid, gid)->0.kind
            == FileType::Directory,
        db.children(ptr) == Err::<Seq<u64>, Errno>(Errno::ENOTDIR) <==> db.contains(ptr)
            && db.attr(ptr, uid, gid)->0.kind == FileType::RegularFile,
        db.children(ptr) == Err::<Seq<u64>, Errno>(Errno::ENOENT) <==> !db.contains(ptr),
{
}

/// The root directory always exists and can be listed.
pub proof fn root_exists(db: DbView, uid: u32, gid: u32)
    ensures
        pointer(root_ino()) == DbPointer::Root,
        db.contains(DbPointer::Root),
        db.children(DbPointer::Root) == Ok::<Seq<u64>, Errno>(db.root),
        db.attr(DbPointer::Root, uid, gid) is Some,
{
}

/// In a well-formed database each asset is in exactly one list: in that of the root directory, in
/// the trash, or among the children of one asset.
pub proof fn listed_once(db: DbView, k: u64)
    requires
        db.wf(),
        db.store.contains_key(k),
    ensures
        db.root.contains(k) || db.trash.contains(k) || exists|p: u64|
            db.store.contains_key(p) && (#[trigger] db.store[p]).children.contains(k),
        !(db.root.contains(k) && db.trash.contains(k)),
        forall|p: u64|
            db.store.contains_key(p) && (#[trigger] db.store[p]).children.contains(k)
                ==> !db.root.contains(k) && !db.trash.contains(k),
        forall|p: u64, q: u64|
            db.store.contains_key(p) && (#[trigger] db.store[p]).children.contains(k)
                && db.store.contains_key(q) && (#[trigger] db.store[q]).children.contains(k)
                ==> p == q,
{
}

/// In a well-formed database a directory holds only assets that are in the database, each once.
pub proof fn children_are_stored(db: DbView, ptr: DbPointer, children: Seq<u64>)
    requires
        db.wf(),
        db.children(ptr) == Ok::<Seq<u64>, Errno>(children),
    ensures
        children.no_duplicates(),
        forall|c: u64| #[trigger] children.contains(c) ==> db.store.contains_key(c),
{
}

/// In whatever order the assets are taken, the same ones end up in each list.
#[verifier::spinoff_prover]
pub proof fn order_is_irrelevant(db: DbView, a: Seq<u64>, b: Seq<u64>)
    requires
        db.unlinked(),
        all_keys(a, db.store),
        all_keys(b, db.store),
        forall|k: u64| #[trigger] db.store.contains_key(k) ==> db.linkable(k),
    ensures
        db.linked(a).root.to_set() == db.linked(b).root.to_set(),
        db.linked(a).trash.to_set() == db.linked(b).trash.to_set(),
        db.linked(a).store.dom() == db.linked(b).store.dom(),
        forall|k: u64| #[trigger]
            db.store.contains_key(k) ==> db.linked(a).store[k].children.to_set() == db.linked(
                b,
            ).store[k].children.to_set(),
{
    lemma_keys_linkable(db, a);
    lemma_keys_linkable(db, b);
    linked_is_wf(db, a);
    linked_is_wf(db, b);
    let x = db.linked(a);
    let y = db.linked(b);
    assert(x.store.dom() =~= y.store.dom());
    lemma_same_lists(x, y);
    assert forall|k: u64| #[trigger] db.store.contains_key(k) implies x.store[k].children.to_set()
        == y.store[k].children.to_set() by {
        assert(x.store.contains_key(k));
    }
}

/// Two well-formed databases with the same assets and the same parent fields list the same.
proof fn lemma_same_lists(x: DbView, y: DbView)
    requires
        x.wf(),
        y.wf(),
        x.store.dom() == y.store.dom(),
        forall|k: u64| #[trigger] x.store.contains_key(k) ==> x.store[k].md == y.store[k].md,
    ensures
        x.root.to_set() == y.root.to_set(),
        x.trash.to_set() == y.trash.to_set(),
        forall|k: u64| #[trigger]
            x.store.contains_key(k) ==> x.store[k].children.to_set()
                == y.store[k].children.to_set(),
{
    assert forall|c: u64| #[trigger] x.store.contains_key(c) <==> y.store.contains_key(c) by {
        assert(x.store.dom().contains(c) <==> y.store.dom().contains(c));
    }
    lemma_same_list(x, y, x.root, y.root, Parent::Root);
    lemma_same_list(x, y, x.trash, y.trash, Parent::Trash);
    assert forall|k: u64| #[trigger] x.store.contains_key(k) implies x.store[k].children.to_set()
        == y.store[k].children.to_set() by {
        assert(y.store.contains_key(k));
        lemma_same_list(x, y, x.store[k].children, y.store[k].children, Parent::Under(k));
    }
}

proof fn lemma_same_list(x: DbView, y: DbView, a: Seq<u64>, b: Seq<u64>, place: Parent)
    requires
        x.lists(a, place),
        y.lists(b, place),
        forall|k: u64| #[trigger] x.store.contains_key(k) <==> y.store.contains_key(k),
        forall|k: u64| #[trigger] x.store.contains_key(k) ==> x.store[k].md == y.store[k].md,
    ensures
        a.to_set() == b.to_set(),
{
    assert forall|c: u64| a.contains(c) <==> b.contains(c) by {
        assert(x.store.contains_key(c) <==> y.store.contains_key(c));
    }
    assert(a.to_set() =~= b.to_set());
}

proof fn lemma_keys_linkable(db: DbView, keys: Seq<u64>)
    requires
        all_keys(keys, db.store),
        forall|k: u64| #[trigger] db.store.contains_key(k) ==> db.linkable(k),
    ensures
        forall|i: int| 0 <= i < keys.len() ==> db.linkable(#[trigger] keys[i]),
{
    assert forall|i: int| 0 <= i < keys.len() implies db.linkable(#[trigger] keys[i]) by {
        assert(keys.to_set().contains(keys[i]));
    }
}

/// The parent field of a new file says where it was created.
pub proof fn new_file_belongs_to_parent(db: DbView, ptr: DbPointer, field: Seq<char>)
    requires
        db.wf(),
        db.parent_field(ptr) == Some(field),
    ensures
        parent_of(field) == match ptr {
            DbPointer::Root => Parent::Root,
            DbPointer::INode { id } => Parent::Under(id),
        },
{
    match ptr {
        DbPointer::Root => {},
        DbPointer::INode { id } => {
            hyphenated_round_trip(db.store[id].id);
            reveal_strlit("");
            reveal_strlit("trash");
        },
    }
}

/// Creating a file keeps the database well-formed: the file is listed where it was created, once,
/// and nowhere else.
#[verifier::spinoff_prover]
pub proof fn new_file_keeps_wf(
    db: DbView,
    ptr: DbPointer,
    field: Seq<char>,
    name: Seq<char>,
    id: Seq<u8>,
)
    requires
        db.wf(),
        db.parent_field(ptr) == Some(field),
        id.len() == 16,
        !db.store.contains_key(ino_of(id)),
    ensures
        db.stored(new_asset(field, name, id)).contains(ptr),
        db.stored(new_asset(field, name, id)).listed(ptr, ino_of(id)).wf(),
{
    new_file_belongs_to_parent(db, ptr, field);
    let child = new_asset(field, name, id);
    let ino = ino_of(id);
    let stored = db.stored(child);
    let after = stored.listed(ptr, ino);
    lemma_list_grows(db, after, db.root, after.root, Parent::Root, ino);
    assert forall|k: u64| #[trigger] after.store.contains_key(k) implies {
        &&& after.store[k].id.len() == 16
        &&& ino_of(after.store[k].id) == k
        &&& after.linkable(k)
        &&& after.lists(after.store[k].children, Parent::Under(k))
    } by {
        if k != ino {
            lemma_list_grows(
                db,
                after,
                db.store[k].children,
                after.store[k].children,
                Parent::Under(k),
                ino,
            );
        }
    }
}

/// A list stays right when the new asset `ino` is put at its end if, and only if, it belongs
/// there.
proof fn lemma_list_grows(
    db: DbView,
    after: DbView,
    list: Seq<u64>,
    grown: Seq<u64>,
    place: Parent,
    ino: u64,
)
    requires
        db.lists(list, place),
        !db.store.contains_key(ino),
        forall|c: u64| #[trigger]
            after.store.contains_key(c) <==> db.store.contains_key(c) || c == ino,
        forall|c: u64| #[trigger] db.store.contains_key(c) ==> after.place(c) == db.place(c),
        grown == if after.place(ino) == place {
            list.push(ino)
        } else {
            list
        },
    ensures
        after.lists(grown, place),
{
    assert(!list.contains(ino));
    assert forall|c: u64| #[trigger] grown.contains(c) <==> after.store.contains_key(c)
        && after.place(c) == place by {
        if after.place(ino) == place {
            if list.contains(c) {
                let j = choose|j: int| 0 <= j < list.len() && list[j] == c;
                assert(grown[j] == c);
            }
            assert(grown[list.len() as int] == ino);
        }
    }
}

/// Creating a file changes nothing else: every other asset keeps its attributes, and every other
/// directory its contents.
pub proof fn new_file_keeps_others(
    db: DbView,
    ptr: DbPointer,
    child: AssetView,
    other: DbPointer,
    uid: u32,
    gid: u32,
)
    requires
        db.contains(ptr),
        !db.store.contains_key(ino_of(child.id)),
        other != (DbPointer::INode { id: ino_of(child.id) }),
    ensures
        ({
            let after = db.stored(child).listed(ptr, ino_of(child.id));
            &&& after.attr(other, uid, gid) == db.attr(other, uid, gid)
            &&& other != ptr ==> after.children(other) == db.children(other)
            &&& other == ptr && db.children(ptr) is Ok ==> after.children(ptr) == Ok::<
                Seq<u64>,
                Errno,
            >(db.children(ptr)->Ok_0.push(ino_of(child.id)))
        }),
{
}

/// A new file is found under its name in the directory where it was created, unless the
/// directory already held that name, and is an empty document.
pub proof fn new_file_is_found(
    db: DbView,
    ptr: DbPointer,
    field: Seq<char>,
    name: Seq<char>,
    id: Seq<u8>,
    uid: u32,
    gid: u32,
)
    requires
        db.wf(),
        db.parent_field(ptr) == Some(field),
        id.len() == 16,
        !db.store.contains_key(ino_of(id)),
        db.children(ptr) is Ok,
        forall|c: u64| #[trigger]
            db.children(ptr)->Ok_0.contains(c) ==> db.store[c].md.visible_name != name,
    ensures
        lookup_answer(
            db.stored(new_asset(field, name, id)).listed(ptr, ino_of(id)),
            ptr,
            Some(name),
            uid,
            gid,
        ) == Ok::<FileAttr, Errno>(attr_of(ino_of(id), 0, false, uid, gid)),
{
    let child = new_asset(field, name, id);
    let ino = ino_of(id);
    let after = db.stored(child).listed(ptr, ino);
    let children = db.children(ptr)->Ok_0;
    reveal_strlit("DocumentType");
    reveal_strlit("CollectionType");
    assert("DocumentType"@.len() == 12);
    children_are_stored(db, ptr, children);
    assert forall|i: int| 0 <= i < children.len() implies after.store.contains_key(
        #[trigger] children[i],
    ) && after.store[children[i]].md.visible_name != name by {
        assert(children.contains(children[i]));
    }
    lemma_find_last(after, children, ino, name);
}

proof fn lemma_find_last(db: DbView, children: Seq<u64>, ino: u64, name: Seq<char>)
    requires
        db.store.contains_key(ino),
        db.store[ino].md.visible_name == name,
        forall|i: int|
            0 <= i < children.len() ==> db.store.contains_key(#[trigger] children[i])
                && db.store[children[i]].md.visible_name != name,
    ensures
        find(db, children.push(ino), Some(name)) == Ok::<u64, Errno>(ino),
    decreases children.len(),
{
    let all = children.push(ino);
    if children.len() > 0 {
        assert(all.skip(1) =~= children.skip(1).push(ino));
        lemma_find_last(db, children.skip(1), ino, name);
    }
}

/// In a well-formed database a lookup in a directory never runs into a child that is unknown: it
/// finds the first child of that name, or there is none.
pub proof fn lookup_finds_by_name(db: DbView, ptr: DbPointer, children: Seq<u64>, name: Seq<char>)
    requires
        db.wf(),
        db.children(ptr) == Ok::<Seq<u64>, Errno>(children),
    ensures
        match find(db, children, Some(name)) {
            Ok(c) => children.contains(c) && db.store.contains_key(c)
                && db.store[c].md.visible_name == name,
            Err(e) => e == Errno::ENOENT && forall|c: u64| #[trigger]
                children.contains(c) ==> db.store[c].md.visible_name != name,
        },
{
    children_are_stored(db, ptr, children);
    assert forall|i: int| 0 <= i < children.len() implies db.store.contains_key(
        #[trigger] children[i],
    ) by {
        assert(children.contains(children[i]));
    }
    lemma_find(db, children, name);
}

proof fn lemma_find(db: DbView, children: Seq<u64>, name: Seq<char>)
    requires
        forall|i: int| 0 <= i < children.len() ==> db.store.contains_key(#[trigger] children[i]),
    ensures
        match find(db, children, Some(name)) {
            Ok(c) => children.contains(c) && db.store.contains_key(c)
                && db.store[c].md.visible_name == name,
            Err(e) => e == Errno::ENOENT && forall|c: u64| #[trigger]
                children.contains(c) ==> db.store[c].md.visible_name != name,
        },
    decreases children.len(),
{
    if children.len() > 0 {
        let rest = children.skip(1);
        lemma_find(db, rest, name);
        assert forall|c: u64| #[trigger] children.contains(c) implies c == children[0]
            || rest.contains(c) by {
            let j = choose|j: int| 0 <= j < children.len() && children[j] == c;
            if j > 0 {
                assert(rest[j - 1] == c);
            }
        }
    }
}

/// What a listing names, a lookup finds: the name of any child of a directory leads to a child of
/// that name.
pub proof fn listed_names_are_found(
    db: DbView,
    ptr: DbPointer,
    children: Seq<u64>,
    child: u64,
    uid: u32,
    gid: u32,
)
    requires
        db.wf(),
        db.children(ptr) == Ok::<Seq<u64>, Errno>(children),
        children.contains(child),
    ensures
        ({
            let name = db.store[child].md.visible_name;
            &&& lookup_answer(db, ptr, Some(name), uid, gid) matches Ok(attr)
            &&& children.contains(attr.ino)
            &&& db.store[attr.ino].md.visible_name == name
        }),
{
    lookup_finds_by_name(db, ptr, children, db.store[child].md.visible_name);
}

/// A file created with a random ID is reached by its inode number: it is never taken for the
/// root directory.
pub proof fn new_file_is_reachable(db: DbView, ptr: DbPointer, child: AssetView, uid: u32, gid: u32)
    requires
        db.contains(ptr),
        is_v4(child.id),
        !db.store.contains_key(ino_of(child.id)),
    ensures
        pointer(ino_of(child.id)) == (DbPointer::INode { id: ino_of(child.id) }),
        db.stored(child).listed(ptr, ino_of(child.id)).attr(
            pointer(ino_of(child.id)),
            uid,
            gid,
        ) is Some,
{
    v4_is_not_root(child.id);
}

/// The path under which the content of a new file is created is the one where its document file
/// is looked for and opened later.
pub proof fn created_path_is_document_path(id: Seq<u8>, kind: Underlying)
    ensures
        with_ext(path_of(hyphenated(id)), kind.extension()) == kind.path(hyphenated(id)),
{
}

/// The metadata file of a new asset is recognised as one when the tablet's directory is read,
/// and gives the asset's ID.
pub proof fn metadata_file_gives_id(id: Seq<u8>)
    requires
        id.len() == 16,
    ensures
        slug_of(with_ext(hyphenated(id), "metadata"@), true) == Some(hyphenated(id)),
        parsed(hyphenated(id)) == Some(id),
{
    hyphenated_round_trip(id);
    let name = with_ext(hyphenated(id), "metadata"@);
    reveal_strlit("metadata");
    reveal_strlit(".metadata");
    reveal_strlit(".");
    let n = name.len() - ".metadata"@.len();
    assert(name.skip(n) =~= ".metadata"@);
}

/// Whether the metadata files on the tablet, with the document files beside them, are those of the
/// assets of `db`: one for each, in whatever order.
pub open spec fn describes(entries: Seq<EntryView>, db: DbView) -> bool {
    &&& forall|i: int| 0 <= i < entries.len() ==> parsed((#[trigger] entries[i]).slug) is Some
    &&& forall|i: int, j: int|
        0 <= i < j < entries.len() ==> (#[trigger] entries[i]).ino() != (
        #[trigger] entries[j]).ino()
    &&& forall|i: int|
        0 <= i < entries.len() ==> db.store.contains_key((#[trigger] entries[i]).ino())
    &&& forall|i: int|
        0 <= i < entries.len() ==> (#[trigger] entries[i]).asset() == (AssetView {
            children: Seq::empty(),
            ..db.store[entries[i].ino()]
        })
    &&& forall|k: u64| #[trigger]
        db.store.contains_key(k) ==> exists|i: int|
            0 <= i < entries.len() && (#[trigger] entries[i]).ino() == k
}

/// Whether two databases hold the same assets and, in whatever order, list the same ones in the
/// root directory, in the trash and under each asset.
pub open spec fn same_contents(a: DbView, b: DbView) -> bool {
    &&& a.root.to_set() == b.root.to_set()
    &&& a.trash.to_set() == b.trash.to_set()
    &&& a.store.dom() == b.store.dom()
    &&& forall|k: u64| #[trigger]
        b.store.contains_key(k) ==> a.store[k] == (AssetView {
            children: a.store[k].children,
            ..b.store[k]
        })
    &&& forall|k: u64| #[trigger]
        b.store.contains_key(k) ==> a.store[k].children.to_set()
            == b.store[k].children.to_set()
}

/// A database can be rebuilt from its metadata files: nothing stands in the way, and whatever the
/// order of the files and the order in which the assets are listed, the rebuilt database holds
/// the same assets and lists them in the same places.
#[verifier::spinoff_prover]
pub proof fn rebuild_gives_back(db: DbView, entries: Seq<EntryView>, keys: Seq<u64>)
    requires
        db.wf(),
        describes(entries, db),
        all_keys(keys, loaded(entries).store),
    ensures
        forall|i: int| 0 <= i < entries.len() ==> entry_ok(entries, i),
        forall|k: u64| #[trigger]
            loaded(entries).store.contains_key(k) ==> loaded(entries).linkable(k),
        loaded(entries).linked(keys).wf(),
        same_contents(loaded(entries).linked(keys), db),
{
    let fresh = loaded(entries);
    let rebuilt = fresh.linked(keys);
    loaded_holds_entries(entries);
    loaded_is_unlinked(entries);
    assert forall|k: u64| #[trigger] fresh.store.contains_key(k) <==> db.store.contains_key(k) by {
        if db.store.contains_key(k) {
            let i = choose|i: int| 0 <= i < entries.len() && (#[trigger] entries[i]).ino() == k;
            assert(fresh.store.contains_key(entries[i].ino()));
        }
    }
    assert forall|k: u64| #[trigger] db.store.contains_key(k) implies fresh.store[k]
        == (AssetView { children: Seq::empty(), ..db.store[k] }) by {
        let i = choose|i: int| 0 <= i < entries.len() && (#[trigger] entries[i]).ino() == k;
        assert(fresh.store[entries[i].ino()] == entries[i].asset());
    }
    assert forall|k: u64| #[trigger] fresh.store.contains_key(k) implies fresh.linkable(k) by {
        assert(db.linkable(k));
        assert(fresh.place(k) == db.place(k));
    }
    lemma_keys_linkable(fresh, keys);
    linked_is_wf(fresh, keys);
    assert(rebuilt.store.dom() =~= db.store.dom());
    lemma_same_lists(rebuilt, db);
}

/// Creating a file and rebuilding go together: where the metadata files were those of the
/// database, and that of the new file is now somewhere among them, the rebuilt database holds the
/// same assets as the updated one, and lists them in the same places.
#[verifier::spinoff_prover]
pub proof fn new_file_survives_rebuild(
    db: DbView,
    ptr: DbPointer,
    field: Seq<char>,
    name: Seq<char>,
    id: Seq<u8>,
    entries: Seq<EntryView>,
    i: int,
    keys: Seq<u64>,
)
    requires
        db.wf(),
        db.parent_field(ptr) == Some(field),
        id.len() == 16,
        !db.store.contains_key(ino_of(id)),
        0 <= i < entries.len(),
        describes(entries.remove(i), db),
        entries[i] == (EntryView {
            slug: hyphenated(id),
            md: new_asset(field, name, id).md,
            underlying: None,
        }),
        all_keys(keys, loaded(entries).store),
    ensures
        forall|j: int| 0 <= j < entries.len() ==> entry_ok(entries, j),
        forall|k: u64| #[trigger]
            loaded(entries).store.contains_key(k) ==> loaded(entries).linkable(k),
        loaded(entries).linked(keys).wf(),
        same_contents(
            loaded(entries).linked(keys),
            db.stored(new_asset(field, name, id)).listed(ptr, ino_of(id)),
        ),
{
    let child = new_asset(field, name, id);
    let ino = ino_of(id);
    let after = db.stored(child).listed(ptr, ino);
    new_file_keeps_wf(db, ptr, field, name, id);
    hyphenated_round_trip(id);
    assert(entries[i].ino() == ino);
    assert(entries[i].asset() =~= child);
    assert(describes(entries, after)) by {
        assert(after.store.dom() =~= db.store.dom().insert(ino));
        assert(after.store[ino] == (AssetView {
            children: after.store[ino].children,
            ..entries[i].asset()
        }));
        lemma_described_with(db, after, entries, i);
    }
    rebuild_gives_back(after, entries, keys);
}

/// Where one asset is added, and its metadata file with it, the files are still those of the
/// assets.
#[verifier::spinoff_prover]
proof fn lemma_described_with(db: DbView, after: DbView, entries: Seq<EntryView>, i: int)
    requires
        0 <= i < entries.len(),
        describes(entries.remove(i), db),
        parsed(entries[i].slug) is Some,
        !db.store.contains_key(entries[i].ino()),
        after.store.dom() == db.store.dom().insert(entries[i].ino()),
        forall|k: u64| #[trigger]
            db.store.contains_key(k) ==> after.store[k] == (AssetView {
                children: after.store[k].children,
                ..db.store[k]
            }),
        after.store[entries[i].ino()] == (AssetView {
            children: after.store[entries[i].ino()].children,
            ..entries[i].asset()
        }),
    ensures
        describes(entries, after),
{
    let others = entries.remove(i);
    let ino = entries[i].ino();
    let behind = |j: int| if j < i { j } else { j - 1 };
    assert forall|k: u64| #[trigger] after.store.contains_key(k) <==> db.store.contains_key(k) || k
        == ino by {
        assert(after.store.dom().contains(k) <==> db.store.dom().insert(ino).contains(k));
    }
    assert forall|j: int| 0 <= j < entries.len() && j != i implies {
        &&& db.store.contains_key((#[trigger] entries[j]).ino())
        &&& parsed(entries[j].slug) is Some
        &&& entries[j].asset() == (AssetView {
            children: Seq::empty(),
            ..db.store[entries[j].ino()]
        })
    } by {
        assert(entries[j] == others[behind(j)]);
        assert(db.store.contains_key(others[behind(j)].ino()));
    }
    assert forall|j: int| 0 <= j < entries.len() implies {
        &&& after.store.contains_key((#[trigger] entries[j]).ino())
        &&& entries[j].asset() == (AssetView {
            children: Seq::empty(),
            ..after.store[entries[j].ino()]
        })
    } by {
        if j != i {
            assert(db.store.contains_key(entries[j].ino()));
        }
        assert(after.store.contains_key(entries[j].ino()));
    }
    assert forall|a: int, b: int| 0 <= a < b < entries.len() implies (#[trigger] entries[a]).ino()
        != (#[trigger] entries[b]).ino() by {
        if a != i && b != i {
            assert(entries[a] == others[behind(a)] && entries[b] == others[behind(b)]);
            assert(others[behind(a)].ino() != others[behind(b)].ino());
        }
    }
    assert forall|k: u64| #[trigger] after.store.contains_key(k) implies exists|j: int|
        0 <= j < entries.len() && (#[trigger] entries[j]).ino() == k by {
        if k == ino {
            assert(entries[i].ino() == k);
        } else {
            let m = choose|m: int| 0 <= m < others.len() && (#[trigger] others[m]).ino() == k;
            assert(entries[if m < i { m } else { m + 1 }] == others[m]);
        }
    }
}

/// In increasing order, what comes after `offset` is the rest from some place on.
proof fn lemma_after_is_rest(sorted: Seq<u64>, offset: u64) -> (j: int)
    requires
        forall|a: int, b: int| 0 <= a < b < sorted.len() ==> sorted[a] <= sorted[b],
    ensures
        0 <= j <= sorted.len(),
        sorted.filter(|k: u64| k > offset) == sorted.skip(j),
        forall|i: int| 0 <= i < j ==> sorted[i] <= offset,
        forall|i: int| j <= i < sorted.len() ==> sorted[i] > offset,
    decreases sorted.len(),
{
    reveal(Seq::filter);
    if sorted.len() == 0 {
        0
    } else {
        let rest = sorted.drop_last();
        let j = lemma_after_is_rest(rest, offset);
        assert(forall|i: int| 0 <= i < rest.len() ==> #[trigger] sorted[i] == rest[i]);
        if sorted.last() > offset {
            j
        } else {
            assert(j == rest.len());
            sorted.len() as int
        }
    }
}

proof fn lemma_ascending_orders(children: Seq<u64>)
    ensures
        forall|k: u64| #[trigger] ascending(children).contains(k) <==> children.contains(k),
        forall|i: int, j: int|
            0 <= i < j < ascending(children).len() ==> ascending(children)[i] <= ascending(
                children,
            )[j],
        children.no_duplicates() ==> ascending(children).no_duplicates(),
{
    broadcast use vstd::seq_lib::group_to_multiset_ensures;

    let leq = |a: u64, b: u64| a <= b;
    children.lemma_sort_by_ensures(leq);
    let sorted = ascending(children);
    assert forall|i: int, j: int| 0 <= i < j < sorted.len() implies sorted[i] <= sorted[j] by {
        assert(leq(sorted[i], sorted[j]));
    }
    assert forall|k: u64| #[trigger] sorted.contains(k) <==> children.contains(k) by {
        assert(sorted.to_multiset().count(k) == children.to_multiset().count(k));
    }
    if children.no_duplicates() {
        children.lemma_multiset_has_no_duplicates();
        sorted.lemma_multiset_has_no_duplicates_conv();
    }
}

/// Exactly the children after `offset` are sent, in increasing order; each once where none is
/// listed twice.
pub proof fn sent_in_order(children: Seq<u64>, offset: u64)
    ensures
        forall|k: u64| #[trigger]
            sent_after(children, offset).contains(k) <==> children.contains(k) && k > offset,
        forall|i: int, j: int|
            0 <= i < j < sent_after(children, offset).len() ==> sent_after(children, offset)[i]
                <= sent_after(children, offset)[j],
        children.no_duplicates() ==> sent_after(children, offset).no_duplicates(),
{
    let sorted = ascending(children);
    lemma_ascending_orders(children);
    lemma_after_is_rest(sorted, offset);
    let sent = sent_after(children, offset);
    assert forall|k: u64| #[trigger] sent.contains(k) <==> children.contains(k) && k > offset by {
        if sent.contains(k) {
            assert(sorted.contains(k));
        }
        if children.contains(k) && k > offset {
            assert(sorted.contains(k));
        }
    }
}

/// Even in presence of removals or deletions, the same item is never sent more than once: what
/// was sent before the reader goes on after the last item it got is not sent again, whatever the
/// directory holds by then.
pub proof fn never_sent_twice(before: Seq<u64>, after: Seq<u64>, offset: u64, last: int, i: int)
    requires
        0 <= i <= last < sent_after(before, offset).len(),
    ensures
        !sent_after(after, sent_after(before, offset)[last]).contains(
            sent_after(before, offset)[i],
        ),
{
    sent_in_order(before, offset);
    sent_in_order(after, sent_after(before, offset)[last]);
}

/// A reader that goes on after the last item it got misses nothing: the two parts are the whole,
/// where no child is listed twice.
pub proof fn resumed_listing_is_complete(children: Seq<u64>, offset: u64, last: int)
    requires
        children.no_duplicates(),
        0 <= last < sent_after(children, offset).len(),
    ensures
        sent_after(children, offset).take(last + 1) + sent_after(
            children,
            sent_after(children, offset)[last],
        ) == sent_after(children, offset),
{
    let sorted = ascending(children);
    lemma_ascending_orders(children);
    let sent = sent_after(children, offset);
    let j = lemma_after_is_rest(sorted, offset);
    let m = lemma_after_is_rest(sorted, sent[last]);
    assert(m == j + last + 1) by {
        if m > j + last + 1 {
            assert(sorted[j + last + 1] <= sent[last]);
        }
    }
}

/// In a well-formed database a listing never ends early: it holds every child after `offset`.
pub proof fn listing_is_complete(
    db: DbView,
    ptr: DbPointer,
    children: Seq<u64>,
    dir: u64,
    offset: u64,
    l: Listing,
)
    requires
        db.wf(),
        db.children(ptr) == Ok::<Seq<u64>, Errno>(children),
        lists_keys(l, db, dir, sent_after(children, offset)),
    ensures
        !l.broken,
        l.entries@.len() == sent_after(children, offset).len(),
{
    let sent = sent_after(children, offset);
    sent_in_order(children, offset);
    children_are_stored(db, ptr, children);
    if l.broken {
        let k = sent[l.entries@.len() as int];
        assert(sent.contains(k));
    }
}

/// The metadata files of a tablet can be loaded: where each is named by the usual form of an ID,
/// no two of the IDs share an inode number, and each parent is the root, the trash or one of the
/// others, nothing stands in the way of building the database.
pub proof fn regular_entries_load(entries: Seq<EntryView>, ids: Seq<Seq<u8>>)
    requires
        ids.len() == entries.len(),
        forall|i: int| 0 <= i < ids.len() ==> (#[trigger] ids[i]).len() == 16,
        forall|i: int| 0 <= i < ids.len() ==> entries[i].slug == hyphenated(#[trigger] ids[i]),
        forall|i: int, j: int|
            0 <= i < j < ids.len() ==> ino_of(#[trigger] ids[i]) != ino_of(#[trigger] ids[j]),
        forall|i: int|
            0 <= i < entries.len() ==> (#[trigger] entries[i]).md.parent == ""@
                || entries[i].md.parent == "trash"@ || exists|p: int|
                0 <= p < ids.len() && entries[i].md.parent == hyphenated(#[trigger] ids[p]),
    ensures
        forall|i: int| 0 <= i < entries.len() ==> entry_ok(entries, i),
        forall|k: u64| #[trigger]
            loaded(entries).store.contains_key(k) ==> loaded(entries).linkable(k),
{
    assert forall|i: int| 0 <= i < entries.len() implies parsed((#[trigger] entries[i]).slug)
        == Some(ids[i]) by {
        hyphenated_round_trip(ids[i]);
    }
    loaded_holds_entries(entries);
    let db = loaded(entries);
    assert forall|k: u64| #[trigger] db.store.contains_key(k) implies db.linkable(k) by {
        let i = choose|i: int| 0 <= i < entries.len() && (#[trigger] entries[i]).ino() == k;
        let parent = entries[i].md.parent;
        if parent != ""@ && parent != "trash"@ {
            let p = choose|p: int| 0 <= p < ids.len() && parent == hyphenated(#[trigger] ids[p]);
            hyphenated_round_trip(ids[p]);
        }
    }
}

/// The writes to a new file add up: as long as the remote file is not there, the handle keeps all
/// the bytes in the order in which they were written. The first write after which they tell the
/// kind of document asks for the remote file, with all the bytes so far as its content.
pub proof fn writes_add_up<R>(
    handles: Seq<FileHandleView<R>>,
    stub: Seq<char>,
    offsets: Seq<u64>,
    chunks: Seq<Seq<u8>>,
    steps: Seq<WriteStep>,
)
    requires
        0 < chunks.len(),
        offsets.len() == chunks.len(),
        steps.len() == chunks.len(),
        handles.len() == chunks.len() + 1,
        handles[0] == (FileHandleView::<R>::Created { buf: Seq::empty(), stub }),
        forall|i: int|
            0 <= i < chunks.len() ==> write_effect(
                handles[i],
                offsets[i],
                #[trigger] chunks[i],
                steps[i],
                handles[i + 1],
            ),
    ensures
        handles.last() == (FileHandleView::<R>::Created { buf: chunks.flatten(), stub }),
        match sniff(chunks.flatten()) {
            Some(kind) => steps.last() matches WriteStep::Create { path, content } && path@
                == with_ext(stub, kind.extension()) && content@ == chunks.flatten(),
            None => steps.last() is Buffered,
        },
    decreases chunks.len(),
{
    let n = chunks.len() - 1;
    let before = chunks.drop_last();
    chunks.lemma_flatten_and_flatten_alt_are_equivalent();
    before.lemma_flatten_and_flatten_alt_are_equivalent();
    if n > 0 {
        writes_add_up(
            handles.drop_last(),
            stub,
            offsets.drop_last(),
            before,
            steps.drop_last(),
        );
    }
}

/// A file on the tablet.
pub struct RemoteFile {
    pub path: Seq<char>,
    pub content: Seq<u8>,
}

/// A file that is being written: its handle and, once it was created, the file on the tablet.
pub struct Writing<R> {
    pub handle: FileHandleView<R>,
    pub file: Option<RemoteFile>,
}

/// What a file holds after `data` was written at `offset`, which is not beyond its end.
pub open spec fn overwritten(content: Seq<u8>, offset: int, data: Seq<u8>) -> Seq<u8> {
    if offset + data.len() <= content.len() {
        content.take(offset) + data + content.skip(offset + data.len())
    } else {
        content.take(offset) + data
    }
}

/// Whether a write of `data` at `offset` leads from `before` to `after`, where the tablet does
/// what the write calls for, and all of it: a file that is to be created is created with its
/// content, and its handle is kept; bytes that are to be forwarded are written.
pub open spec fn write_lands<R>(
    before: Writing<R>,
    offset: u64,
    data: Seq<u8>,
    step: WriteStep,
    after: Writing<R>,
) -> bool {
    match step {
        WriteStep::Create { path, content } => {
            &&& exists|kept: FileHandleView<R>| #[trigger]
                write_effect(before.handle, offset, data, step, kept)
            &&& after.handle is Remote
            &&& after.file == Some(RemoteFile { path: path@, content: content@ })
        },
        WriteStep::Forward { offset: at } => {
            &&& write_effect(before.handle, offset, data, step, after.handle)
            &&& before.file is Some
            &&& after.file == Some(
                RemoteFile {
                    path: before.file->0.path,
                    content: overwritten(before.file->0.content, at as int, data),
                },
            )
        },
        WriteStep::Buffered(_) => {
            &&& write_effect(before.handle, offset, data, step, after.handle)
            &&& after.file == before.file
        },
    }
}

/// Whether the `chunks` are written one behind the other to a new file with the stub `stub`.
pub open spec fn written_in_order<R>(
    stub: Seq<char>,
    states: Seq<Writing<R>>,
    offsets: Seq<u64>,
    chunks: Seq<Seq<u8>>,
    steps: Seq<WriteStep>,
) -> bool {
    &&& states.len() == chunks.len() + 1
    &&& offsets.len() == chunks.len()
    &&& steps.len() == chunks.len()
    &&& states[0] == (Writing::<R> {
        handle: FileHandleView::Created { buf: Seq::empty(), stub },
        file: None,
    })
    &&& forall|i: int|
        0 <= i < chunks.len() ==> offsets[i] == (#[trigger] chunks.take(i)).flatten().len()
    &&& forall|i: int|
        0 <= i < chunks.len() ==> write_lands(
            states[i],
            offsets[i],
            #[trigger] chunks[i],
            steps[i],
            states[i + 1],
        )
}

/// What is left of a file to which `all` was written: the document file with all the bytes, once
/// they tell its kind; until they do, there is none, and the handle keeps them.
pub open spec fn document_left<R>(stub: Seq<char>, all: Seq<u8>, left: Writing<R>) -> bool {
    match sniff(all) {
        Some(kind) => {
            &&& left.handle is Remote
            &&& left.file == Some(
                RemoteFile { path: with_ext(stub, kind.extension()), content: all },
            )
        },
        None => {
            &&& left.handle == (FileHandleView::<R>::Created { buf: all, stub })
            &&& left.file is None
        },
    }
}

/// A file that is written from its beginning to its end holds what was written to it, before and
/// after its kind was known, and is named by its kind.
pub proof fn writes_make_the_document<R>(
    stub: Seq<char>,
    states: Seq<Writing<R>>,
    offsets: Seq<u64>,
    chunks: Seq<Seq<u8>>,
    steps: Seq<WriteStep>,
)
    requires
        written_in_order(stub, states, offsets, chunks, steps),
    ensures
        document_left(stub, chunks.flatten(), states.last()),
    decreases chunks.len(),
{
    if chunks.len() == 0 {
        assert(chunks.flatten() =~= Seq::<u8>::empty());
    } else {
        let n = chunks.len() - 1;
        let before = chunks.drop_last();
        assert(before =~= chunks.take(n));
        assert forall|i: int| 0 <= i < n implies offsets.drop_last()[i] == (
        #[trigger] before.take(i)).flatten().len() by {
            assert(before.take(i) =~= chunks.take(i));
        }
        assert forall|i: int| 0 <= i < n implies write_lands(
            states.drop_last()[i],
            offsets.drop_last()[i],
            #[trigger] before[i],
            steps.drop_last()[i],
            states.drop_last()[i + 1],
        ) by {
            assert(before[i] == chunks[i]);
        }
        writes_make_the_document(
            stub,
            states.drop_last(),
            offsets.drop_last(),
            before,
            steps.drop_last(),
        );
        chunks.lemma_flatten_and_flatten_alt_are_equivalent();
        before.lemma_flatten_and_flatten_alt_are_equivalent();
        let sofar = before.flatten();
        assert(chunks.flatten() == sofar + chunks[n]);
        assert(write_lands(states[n], offsets[n], chunks[n], steps[n], states[n + 1]));
        assert(document_left(stub, sofar, states[n]));
        assert(sofar.take(sofar.len() as int) =~= sofar);
        if sniff(sofar) is Some {
            sniff_is_settled(sofar, chunks[n]);
            assert(overwritten(sofar, sofar.len() as int, chunks[n]) =~= sofar + chunks[n]);
        }
    }
}

/// However the bytes of a file are split into writes, the same document is left on the tablet,
/// with the same path and content, as if they had been written at once.
pub proof fn split_writes_leave_the_same<R>(
    stub: Seq<char>,
    states: Seq<Writing<R>>,
    offsets: Seq<u64>,
    chunks: Seq<Seq<u8>>,
    steps: Seq<WriteStep>,
    step: WriteStep,
    left: Writing<R>,
)
    requires
        written_in_order(stub, states, offsets, chunks, steps),
        write_lands(states[0], 0, chunks.flatten(), step, left),
    ensures
        left.file == states.last().file,
        left.file is Some <==> sniff(chunks.flatten()) is Some,
{
    writes_make_the_document(stub, states, offsets, chunks, steps);
    let all = chunks.flatten();
    let whole = seq![all];
    assert(whole.take(0).flatten() =~= Seq::<u8>::empty());
    assert(Seq::<u8>::empty() + all =~= all);
    whole.lemma_flatten_one_element();
    writes_make_the_document(stub, seq![states[0], left], seq![0u64], whole, seq![step]);
}

} // verus!
